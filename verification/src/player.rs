//! Players that choose moves by themselves.

use vstd::prelude::*;
use crate::board::Board;
use crate::piece::Piece;
use crate::tetromino::Move;

verus! {

/// How many moves [`RandomPlayer`] chooses at a time.
pub const MOVES_PER_CHOICE: usize = 10;

/// Someone who looks at the board and the piece and says which moves to
/// make next, in their order.
pub trait Player {
    /// The moves to make next, the first one first.
    fn choose_moves(&self, board: &Board, piece: &Piece) -> Vec<Move>;
}

/// A player that chooses its moves at random, whether the board allows them
/// or not.
#[derive(Clone, Copy, Debug)]
pub struct RandomPlayer;

/// The generator of random numbers that each thread has, of the `rand` crate.
#[verifier::external_type_specification]
#[verifier::external_body]
pub struct ExThreadRng(rand::rngs::ThreadRng);

/// `rand::thread_rng` hands out the calling thread's generator. Nothing is
/// claimed of it.
pub assume_specification[ rand::thread_rng ]() -> rand::rngs::ThreadRng
;

/// Calls `Rng::gen_range` of the `rand` crate on the range from 0 up to, and
/// without, `bound`. Trusted: the number drawn lies in that range. The call
/// panics on an empty range, which `requires` leaves out.
#[verifier::external_body]
fn draw_below(rng: &mut rand::rngs::ThreadRng, bound: i32) -> (drawn: i32)
    requires
        0 < bound,
    ensures
        0 <= drawn < bound,
{
    rand::Rng::gen_range(rng, 0..bound)
}

/// The move with the given number: 0 for left, 1 for right, 2 for down, 3
/// for a rotation and 4 for a drop.
pub open spec fn move_numbered(number: int) -> Move {
    if number == 0 {
        Move::Left
    } else if number == 1 {
        Move::Right
    } else if number == 2 {
        Move::Down
    } else if number == 3 {
        Move::Rotate
    } else {
        Move::Drop
    }
}

/// The move with the given number, from 0 to 4.
pub fn numbered_move(number: i32) -> (mov: Move)
    requires
        0 <= number < 5,
    ensures
        mov == move_numbered(number as int),
{
    match number {
        0 => Move::Left,
        1 => Move::Right,
        2 => Move::Down,
        3 => Move::Rotate,
        _ => Move::Drop,
    }
}

impl Player for RandomPlayer {
    /// Ten moves, each drawn at random from the five there are.
    fn choose_moves(&self, board: &Board, piece: &Piece) -> (moves: Vec<Move>)
        ensures
            moves@.len() == MOVES_PER_CHOICE,
    {
        let mut moves: Vec<Move> = Vec::new();
        let mut rng = rand::thread_rng();
        for i in 0..MOVES_PER_CHOICE
            invariant
                moves@.len() == i,
        {
            let number = draw_below(&mut rng, 5);
            moves.push(numbered_move(number));
        }
        moves
    }
}

} // verus!
