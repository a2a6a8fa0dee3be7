//! Fixed dimensions and limits of a game.

use vstd::prelude::*;

verus! {

/// Number of columns of the board.
pub const WIDTH: usize = 10;

/// Number of rows of the board; row 0 is the top row.
pub const HEIGHT: usize = 24;

/// How long a grounded piece may rest before it locks, in milliseconds.
pub const PLACEMENT_DELAY: u64 = 500;

/// The most pieces that one session places on the board.
pub const TETROMINO_LIMIT: usize = 400;

} // verus!
