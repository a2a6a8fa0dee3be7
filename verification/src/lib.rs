//! Engine of a falling-block puzzle game: shapes, pieces, the board with its
//! collision, locking and line-clearing rules, and the queue of coming shapes.

pub mod board;
pub mod chooser;
pub mod constants;
pub mod grid;
pub mod piece;
pub mod player;
pub mod rules;
pub mod session;
pub mod tetromino;
