//! Which moves a board allows: where a move would take a piece, and whether
//! the piece fits there.

use vstd::prelude::*;
use crate::constants::{HEIGHT, WIDTH};
use crate::grid::{
    collides, holds, lemma_free_cells_empty, lemma_stamped_holds, lemma_stamped_same,
    lemma_stamped_twice, on_board, out_of_bounds, stamped, well_formed,
};
use crate::piece::{lemma_cells_span, lemma_kicked_between_walls, PieceView};
use crate::tetromino::{Move, Tetromino};

verus! {

/// The piece would lie within the walls, above the floor and on no block.
pub open spec fn admits(rows: Seq<Seq<Tetromino>>, piece: PieceView) -> bool {
    !out_of_bounds(piece.cells()) && !collides(rows, piece.cells())
}

/// How many rows the piece can go down, one row at a time, before the next
/// row down would not admit it.
pub open spec fn fall(rows: Seq<Seq<Tetromino>>, piece: PieceView) -> nat
    decreases HEIGHT - piece.y,
{
    if piece.y + 1 < HEIGHT && admits(rows, piece.shifted(0, 1)) {
        1 + fall(rows, piece.shifted(0, 1))
    } else {
        0
    }
}

/// Where a move would take the piece on a board that does not hold the
/// piece itself: one column or row over, turned once and kicked off the
/// walls, or down as far as it can fall.
pub open spec fn target(rows: Seq<Seq<Tetromino>>, piece: PieceView, mov: Move) -> PieceView {
    match mov {
        Move::Left => piece.shifted(-1, 0),
        Move::Right => piece.shifted(1, 0),
        Move::Down => piece.shifted(0, 1),
        Move::Rotate => piece.rotated().kicked(),
        Move::Drop => piece.shifted(0, fall(rows, piece) as int),
    }
}

/// A piece on the board has its anchor near the board.
pub proof fn lemma_in_grid_anchor(piece: PieceView)
    requires
        piece.in_grid(),
    ensures
        -6 <= piece.x < WIDTH,
        0 <= piece.y < HEIGHT,
{
    lemma_cells_span(piece);
    let i = choose|i: int| 0 <= i < 4 && (#[trigger] piece.cells()[i]).1 == piece.y;
    assert(on_board(piece.cells()[i]));
    assert(on_board(piece.cells()[0]));
}

/// A piece within the walls and above the floor whose anchor is not above
/// the top row lies on the board.
pub proof fn lemma_in_bounds_in_grid(piece: PieceView)
    requires
        !out_of_bounds(piece.cells()),
        piece.y >= 0,
    ensures
        piece.in_grid(),
{
    lemma_cells_span(piece);
    assert forall|i: int| 0 <= i < 4 implies 0 <= (#[trigger] piece.cells()[i]).0 < WIDTH && 0
        <= piece.cells()[i].1 < HEIGHT by {}
}

/// Once a piece is taken off the board, the board admits it where it was.
pub proof fn lemma_lifted_piece_fits(rows: Seq<Seq<Tetromino>>, piece: PieceView)
    requires
        well_formed(rows),
        piece.in_grid(),
    ensures
        admits(stamped(rows, piece.cells(), Tetromino::E), piece),
        well_formed(stamped(rows, piece.cells(), Tetromino::E)),
{
    lemma_stamped_holds(rows, piece.cells(), Tetromino::E);
}

/// Writing a piece where the board admits it and emptying its cells again
/// gives the board back.
pub proof fn lemma_place_then_remove(rows: Seq<Seq<Tetromino>>, piece: PieceView)
    requires
        well_formed(rows),
        piece.in_grid(),
        !collides(rows, piece.cells()),
    ensures
        stamped(stamped(rows, piece.cells(), piece.tetromino), piece.cells(), Tetromino::E)
            == rows,
{
    lemma_stamped_twice(rows, piece.cells(), piece.tetromino, Tetromino::E);
    lemma_free_cells_empty(rows, piece.cells());
    lemma_stamped_same(rows, piece.cells(), Tetromino::E);
}

/// Emptying the cells of a piece that is on the board and writing the piece
/// again gives the board back.
pub proof fn lemma_remove_then_place(rows: Seq<Seq<Tetromino>>, piece: PieceView)
    requires
        well_formed(rows),
        holds(rows, piece.cells(), piece.tetromino),
    ensures
        stamped(stamped(rows, piece.cells(), Tetromino::E), piece.cells(), piece.tetromino)
            == rows,
{
    lemma_stamped_twice(rows, piece.cells(), Tetromino::E, piece.tetromino);
    lemma_stamped_same(rows, piece.cells(), piece.tetromino);
}

/// A piece that the board admits comes to rest, after its fall, where the
/// board admits it and where the next row down does not.
pub proof fn lemma_fall_lands(rows: Seq<Seq<Tetromino>>, piece: PieceView)
    requires
        admits(rows, piece),
    ensures
        admits(rows, piece.shifted(0, fall(rows, piece) as int)),
        !admits(rows, piece.shifted(0, fall(rows, piece) as int + 1)),
        piece.y >= 0 ==> piece.y + fall(rows, piece) < HEIGHT,
    decreases HEIGHT - piece.y,
{
    let next = piece.shifted(0, 1);
    if piece.y + 1 < HEIGHT && admits(rows, next) {
        lemma_fall_lands(rows, next);
        assert(next.shifted(0, fall(rows, next) as int) == piece.shifted(
            0,
            fall(rows, piece) as int,
        ));
        assert(next.shifted(0, fall(rows, next) as int + 1) == piece.shifted(
            0,
            fall(rows, piece) as int + 1,
        ));
    } else {
        assert(piece.shifted(0, 0) == piece);
        lemma_cells_span(piece);
        lemma_cells_span(next);
        if piece.y >= 0 {
            let i = choose|i: int| 0 <= i < 4 && (#[trigger] piece.cells()[i]).1 == piece.y;
            assert(piece.cells()[i].1 < HEIGHT);
        }
        if admits(rows, next) {
            let i = choose|i: int| 0 <= i < 4 && (#[trigger] next.cells()[i]).1 == next.y;
            assert(next.cells()[i].1 < HEIGHT);
        }
    }
}

/// Where a move takes a piece that is on the board, the anchor stays near
/// the board, no higher than before, and the kick leaves the piece between
/// the walls.
pub proof fn lemma_target_near(rows: Seq<Seq<Tetromino>>, piece: PieceView, mov: Move)
    requires
        piece.in_grid(),
        admits(rows, piece),
    ensures
        target(rows, piece, mov).tetromino == piece.tetromino,
        -7 <= target(rows, piece, mov).x <= WIDTH,
        piece.y <= target(rows, piece, mov).y <= HEIGHT,
        mov == Move::Drop ==> admits(rows, target(rows, piece, mov)),
{
    lemma_in_grid_anchor(piece);
    match mov {
        Move::Rotate => {
            let turned = piece.rotated();
            lemma_cells_span(turned);
            lemma_kicked_between_walls(turned);
            lemma_cells_span(turned.kicked());
            assert(0 <= turned.kicked().cells()[0].0 < WIDTH);
        },
        Move::Drop => {
            lemma_fall_lands(rows, piece);
        },
        _ => {},
    }
}

} // verus!
