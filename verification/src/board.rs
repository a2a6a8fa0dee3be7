//! The board: the grid of cells, the score, and the rules by which a piece
//! is placed, moved, locked and cleared.

use vstd::prelude::*;
use crate::constants::{HEIGHT, PLACEMENT_DELAY, WIDTH};
use crate::grid::{
    blank_rows, collides, empty_row, empty_rows, full_row_count, grounded, holds, kept_rows,
    lemma_kept_rows_all, lemma_kept_rows_first, lemma_stamped_holds, lemma_stamped_nothing,
    lemma_stamped_push, lemma_stamped_same, lemma_stamped_twice, line_bonus, occupied, on_board,
    out_of_bounds, row_is_full, settled, stamped, well_formed,
};
use crate::piece::{
    coords_view, greatest_column, least_column, lemma_cells_span, wall_kick, Piece, PieceView,
};
use crate::rules::{
    admits, fall, lemma_fall_lands, lemma_in_bounds_in_grid, lemma_in_grid_anchor,
    lemma_lifted_piece_fits, lemma_place_then_remove, lemma_remove_then_place,
    lemma_target_near, target,
};
use crate::tetromino::{Move, Tetromino};

verus! {

/// The grid with the active piece on it, the score, and what the board
/// remembers of the piece's last moments.
#[derive(Clone, Copy, Debug)]
pub struct Board {
    /// The cells by row and column; row 0 is the top row.
    pub grid: [[Tetromino; WIDTH]; HEIGHT],
    /// The points earned so far.
    pub score: u32,
    /// Set by a hard drop: the piece is to lock at once.
    pub just_dropped: bool,
    /// When the piece was first seen resting, in milliseconds.
    is_placed_time: Option<u64>,
}

/// The mathematical value of a [`Board`].
pub struct BoardView {
    /// The cells by row and column; row 0 is the top row.
    pub rows: Seq<Seq<Tetromino>>,
    /// The points earned so far.
    pub score: nat,
    /// Whether a hard drop asked for the piece to lock at once.
    pub just_dropped: bool,
    /// When the piece was first seen resting, if the lock delay is running.
    pub lock_started: Option<u64>,
}

impl BoardView {
    /// The board after the piece's shape is written to the piece's cells.
    pub open spec fn placed(self, piece: PieceView) -> BoardView {
        BoardView { rows: stamped(self.rows, piece.cells(), piece.tetromino), ..self }
    }

    /// The board after the piece's cells are emptied.
    pub open spec fn removed(self, piece: PieceView) -> BoardView {
        BoardView { rows: stamped(self.rows, piece.cells(), Tetromino::E), ..self }
    }

    /// The piece is on the board: each of its cells holds its shape.
    pub open spec fn shows(self, piece: PieceView) -> bool {
        holds(self.rows, piece.cells(), piece.tetromino)
    }

    /// Whether the board allows the move: with the piece itself taken off
    /// the board, the board admits the piece where the move would take it.
    pub open spec fn allows(self, piece: PieceView, mov: Move) -> bool {
        let free = self.removed(piece).rows;
        admits(free, target(free, piece, mov))
    }

    /// The points that the move earns: one for a row down, one for each row
    /// of a drop, none for any other move and none for a move that the board
    /// does not allow.
    pub open spec fn gain(self, piece: PieceView, mov: Move) -> nat {
        if !self.allows(piece, mov) {
            0
        } else {
            match mov {
                Move::Down => 1,
                Move::Drop => fall(self.removed(piece).rows, piece),
                _ => 0,
            }
        }
    }

    /// The board after a move was tried out and taken back: the piece is
    /// written where it was. Trying a drop also asks for the piece to lock at
    /// once and stops the lock delay.
    pub open spec fn tested(self, piece: PieceView, mov: Move) -> BoardView {
        BoardView {
            rows: self.placed(piece).rows,
            score: self.score,
            just_dropped: self.just_dropped || mov == Move::Drop,
            lock_started: if mov == Move::Drop {
                None
            } else {
                self.lock_started
            },
        }
    }

    /// The board and the piece after the move. A move that the board allows
    /// takes the piece off the board, puts it where the move leads and adds
    /// the points of the move. A move that it does not allow leaves the piece
    /// where it is.
    pub open spec fn moved(self, piece: PieceView, mov: Move) -> (BoardView, PieceView) {
        if self.allows(piece, mov) {
            let free = self.removed(piece).rows;
            let to = target(free, piece, mov);
            (
                BoardView {
                    rows: stamped(free, to.cells(), to.tetromino),
                    score: self.score + self.gain(piece, mov),
                    ..self.tested(piece, mov)
                },
                to,
            )
        } else {
            (self.tested(piece, mov), piece)
        }
    }

    /// The board and the piece after the piece has fallen as far as it can,
    /// with a point for each row if `update_score` is set. The piece is to
    /// lock at once, and the lock delay stops.
    pub open spec fn dropped(self, piece: PieceView, update_score: bool) -> (BoardView, PieceView) {
        let free = self.removed(piece).rows;
        let rows_fallen = fall(free, piece);
        let to = piece.shifted(0, rows_fallen as int);
        (
            BoardView {
                rows: stamped(free, to.cells(), to.tetromino),
                score: if update_score {
                    self.score + rows_fallen
                } else {
                    self.score
                },
                just_dropped: true,
                lock_started: None,
            },
            to,
        )
    }

    /// The piece cannot go further down: with the piece itself taken off the
    /// board, one of its cells is on the bottom row or right above a block.
    pub open spec fn rests(self, piece: PieceView) -> bool {
        grounded(self.removed(piece).rows, piece.cells())
    }

    /// The board after a look at whether the piece is to lock at time `now`,
    /// and the answer. The piece is written to the board. A piece that does
    /// not rest stops the lock delay. A piece that rests starts the delay if
    /// none is running; it locks, and the delay stops, once more than
    /// [`PLACEMENT_DELAY`] has passed since the delay started.
    pub open spec fn lock_checked(self, piece: PieceView, now: u64) -> (BoardView, bool) {
        let board = self.placed(piece);
        if !self.rests(piece) {
            (BoardView { lock_started: None, ..board }, false)
        } else {
            match self.lock_started {
                None => (BoardView { lock_started: Some(now), ..board }, false),
                Some(start) => if now - start > PLACEMENT_DELAY {
                    (BoardView { lock_started: None, ..board }, true)
                } else {
                    (board, false)
                },
            }
        }
    }

    /// The board after its full rows are cleared: the other rows sink, empty
    /// rows come in at the top, and the score grows by the bonus for the
    /// number of rows cleared.
    pub open spec fn cleared(self) -> BoardView {
        BoardView {
            rows: settled(self.rows),
            score: self.score + line_bonus(full_row_count(self.rows)),
            ..self
        }
    }
}

/// The rows of a grid, each row as a sequence of its cells.
pub open spec fn grid_rows(grid: [[Tetromino; WIDTH]; HEIGHT]) -> Seq<Seq<Tetromino>> {
    Seq::new(HEIGHT as nat, |y: int| grid[y]@)
}

impl View for Board {
    type V = BoardView;

    closed spec fn view(&self) -> BoardView {
        BoardView {
            rows: grid_rows(self.grid),
            score: self.score as nat,
            just_dropped: self.just_dropped,
            lock_started: self.is_placed_time,
        }
    }
}

impl Board {
    /// An empty board with no points and no lock delay running.
    pub fn new() -> (board: Board)
        ensures
            board@ == (BoardView {
                rows: empty_rows(),
                score: 0,
                just_dropped: false,
                lock_started: None,
            }),
    {
        let board = Board {
            grid: [[Tetromino::E;WIDTH];HEIGHT],
            score: 0,
            just_dropped: false,
            is_placed_time: None,
        };
        assert(board@.rows =~~= empty_rows());
        board
    }

    /// The points earned so far.
    pub fn score(&self) -> (score: u32)
        ensures
            score == self@.score,
    {
        self.score
    }

    /// What the cell in column `x` of row `y` holds.
    pub fn cell(&self, x: usize, y: usize) -> (cell: Tetromino)
        requires
            x < WIDTH,
            y < HEIGHT,
        ensures
            cell == self@.rows[y as int][x as int],
    {
        self.grid[y][x]
    }

    /// Whether a hard drop asked for the piece to lock at once.
    pub fn is_just_dropped(&self) -> (dropped: bool)
        ensures
            dropped == self@.just_dropped,
    {
        self.just_dropped
    }

    /// Takes back the request of a hard drop, once the piece has locked.
    pub fn clear_just_dropped(&mut self)
        ensures
            final(self)@ == (BoardView { just_dropped: false, ..old(self)@ }),
    {
        self.just_dropped = false;
    }

    /// The rows of a board always have the board's dimensions.
    pub proof fn lemma_well_formed(self)
        ensures
            well_formed(self@.rows),
    {
    }

    fn write(&mut self, piece: &Piece, value: Tetromino)
        requires
            piece@.in_grid(),
        ensures
            final(self)@ == (BoardView {
                rows: stamped(old(self)@.rows, piece@.cells(), value),
                ..old(self)@
            }),
    {
        let coords = piece.get_coords();
        let ghost cells = piece@.cells();
        proof {
            lemma_stamped_nothing(self@.rows, value);
            assert(cells.take(0) =~= Seq::<(int, int)>::empty());
        }
        for i in 0..4usize
            invariant
                coords_view(coords) == cells,
                cells == piece@.cells(),
                piece@.in_grid(),
                self@ == (BoardView {
                    rows: stamped(old(self)@.rows, cells.take(i as int), value),
                    ..old(self)@
                }),
        {
            let (x, y) = coords[i];
            proof {
                assert(coords_view(coords)[i as int] == cells[i as int]);
                assert(on_board(cells[i as int]));
                lemma_stamped_push(old(self)@.rows, cells.take(i as int), cells[i as int], value);
                assert(cells.take(i as int).push(cells[i as int]) =~= cells.take(i + 1));
            }
            self.grid[y as usize][x as usize] = value;
            proof {
                let before = stamped(old(self)@.rows, cells.take(i as int), value);
                assert(self@.rows =~~= before.update(
                    y as int,
                    before[y as int].update(x as int, value),
                ));
            }
        }
        proof {
            assert(cells.take(4) =~= cells);
        }
    }

    /// Writes the piece's shape to its four cells.
    pub fn add_piece(&mut self, piece: &Piece)
        requires
            piece@.in_grid(),
        ensures
            final(self)@ == old(self)@.placed(piece@),
    {
        self.write(piece, piece.tetromino());
    }

    /// Empties the piece's four cells.
    pub fn remove_piece(&mut self, piece: &Piece)
        requires
            piece@.in_grid(),
        ensures
            final(self)@ == old(self)@.removed(piece@),
    {
        self.write(piece, Tetromino::E);
    }

    /// Whether a cell of the piece is beyond a wall or below the floor.
    pub fn is_out_of_bounds(&self, piece: &Piece) -> (out: bool)
        requires
            piece@.representable(),
        ensures
            out == out_of_bounds(piece@.cells()),
    {
        let coords = piece.get_coords();
        let ghost cells = piece@.cells();
        for i in 0..4usize
            invariant
                coords_view(coords) == cells,
                cells == piece@.cells(),
                forall|k: int|
                    0 <= k < i ==> !((#[trigger] cells[k]).0 < 0 || cells[k].0 >= WIDTH
                        || cells[k].1 >= HEIGHT),
        {
            let (x, y) = coords[i];
            assert(coords_view(coords)[i as int] == cells[i as int]);
            if x < 0 || x >= WIDTH as isize || y >= HEIGHT as isize {
                return true;
            }
        }
        false
    }

    /// Whether a cell of the piece lies on a block. The piece itself must be
    /// off the board, or its own blocks count.
    pub fn is_colliding(&self, piece: &Piece) -> (hit: bool)
        requires
            piece@.in_grid(),
        ensures
            hit == collides(self@.rows, piece@.cells()),
    {
        let coords = piece.get_coords();
        let ghost cells = piece@.cells();
        for i in 0..4usize
            invariant
                coords_view(coords) == cells,
                cells == piece@.cells(),
                piece@.in_grid(),
                forall|k: int| 0 <= k < i ==> !occupied(self@.rows, #[trigger] cells[k]),
        {
            let (x, y) = coords[i];
            assert(coords_view(coords)[i as int] == cells[i as int]);
            assert(on_board(cells[i as int]));
            match self.grid[y as usize][x as usize] {
                Tetromino::E => {},
                _ => {
                    return true;
                },
            }
        }
        false
    }

    /// The wall kick: moves a piece that a rotation has pushed through a
    /// wall sideways, by the least amount that brings its outermost cell
    /// back between the walls.
    pub fn adjust_rotation(&self, piece: &mut Piece)
        requires
            old(piece)@.representable(),
            forall|i: int| 0 <= i < 4 ==> (#[trigger] old(piece)@.cells()[i]).0 > isize::MIN,
        ensures
            final(piece)@ == old(piece)@.kicked(),
    {
        let mut x_offset: isize = 0;
        let coords = piece.get_coords();
        let ghost cells = piece@.cells();
        proof {
            lemma_cells_span(piece@);
        }
        for i in 0..4usize
            invariant
                coords_view(coords) == cells,
                cells == piece@.cells(),
                piece@ == old(piece)@,
                forall|k: int| 0 <= k < 4 ==> (#[trigger] cells[k]).0 > isize::MIN,
                forall|j: int, k: int|
                    0 <= j < 4 && 0 <= k < 4 ==> (#[trigger] cells[j]).0 - (#[trigger] cells[k]).0
                        <= 3,
                i == 0 ==> x_offset == 0,
                i > 0 ==> x_offset == wall_kick(
                    least_column(cells, i as nat),
                    greatest_column(cells, i as nat),
                ),
                i > 0 ==> exists|k: int|
                    0 <= k < i && least_column(cells, i as nat) == (#[trigger] cells[k]).0,
                i > 0 ==> exists|k: int|
                    0 <= k < i && greatest_column(cells, i as nat) == (#[trigger] cells[k]).0,
        {
            let (x, _) = coords[i];
            proof {
                assert(coords_view(coords)[i as int] == cells[i as int]);
                reveal_with_fuel(least_column, 2);
                reveal_with_fuel(greatest_column, 2);
                if i > 0 {
                    let lo = choose|k: int|
                        0 <= k < i && least_column(cells, i as nat) == (#[trigger] cells[k]).0;
                    let hi = choose|k: int|
                        0 <= k < i && greatest_column(cells, i as nat) == (#[trigger] cells[k]).0;
                    assert(cells[i as int].0 - cells[lo].0 <= 3);
                    assert(cells[lo].0 - cells[i as int].0 <= 3);
                    assert(cells[i as int].0 - cells[hi].0 <= 3);
                    assert(cells[hi].0 - cells[i as int].0 <= 3);
                    assert(cells[hi].0 - cells[lo].0 <= 3);
                }
            }
            if x < 0 && -x > x_offset {
                x_offset = -x;
            } else if (x >= WIDTH as isize) && -(x - (WIDTH as isize - 1)) < x_offset {
                x_offset = -(x - (WIDTH as isize - 1));
            }
        }
        piece.translate(x_offset, 0);
    }

    fn is_grounded(&self, piece: &Piece) -> (down: bool)
        requires
            piece@.in_grid(),
        ensures
            down == grounded(self@.rows, piece@.cells()),
    {
        let coords = piece.get_coords();
        let ghost cells = piece@.cells();
        for i in 0..4usize
            invariant
                coords_view(coords) == cells,
                cells == piece@.cells(),
                piece@.in_grid(),
                forall|k: int|
                    0 <= k < i ==> !((#[trigger] cells[k]).1 == HEIGHT - 1 || occupied(
                        self@.rows,
                        (cells[k].0, cells[k].1 + 1),
                    )),
        {
            let (x, y) = coords[i];
            assert(coords_view(coords)[i as int] == cells[i as int]);
            assert(on_board(cells[i as int]));
            if y == HEIGHT as isize - 1 {
                return true;
            }
            match self.grid[(y + 1) as usize][x as usize] {
                Tetromino::E => {},
                _ => {
                    return true;
                },
            }
        }
        false
    }

    /// Whether the piece is to lock now, at time `now` in milliseconds of a
    /// clock that does not run backwards. A piece that rests on the floor or
    /// on a block locks once it has rested for more than
    /// [`PLACEMENT_DELAY`]; the first look at a resting piece starts the
    /// delay, and a look at a piece that can fall stops it.
    pub fn is_placed(&mut self, piece: &Piece, now: u64) -> (locked: bool)
        requires
            piece@.in_grid(),
        ensures
            (final(self)@, locked) == old(self)@.lock_checked(piece@, now),
            locked ==> old(self)@.rests(piece@) && old(self)@.lock_started is Some && now
                - old(self)@.lock_started->0 > PLACEMENT_DELAY,
            old(self)@.shows(piece@) ==> final(self)@.rows == old(self)@.rows,
    {
        self.remove_piece(piece);
        let is_placed = self.is_grounded(piece);
        self.add_piece(piece);
        proof {
            lemma_stamped_twice(old(self)@.rows, piece@.cells(), Tetromino::E, piece@.tetromino);
            if old(self)@.shows(piece@) {
                lemma_stamped_same(old(self)@.rows, piece@.cells(), piece@.tetromino);
            }
        }
        if is_placed {
            match self.is_placed_time {
                None => {
                    self.is_placed_time = Some(now);
                },
                Some(time) => {
                    if now > time && now - time > PLACEMENT_DELAY {
                        self.is_placed_time = None;
                        return true;
                    }
                },
            }
        } else if self.is_placed_time.is_some() {
            self.is_placed_time = None;
        }
        false
    }

    /// Tries the move out on a copy of the piece and says whether the board
    /// allows it. The piece is taken off the board for the trial and written
    /// back after it.
    pub fn can_move(&mut self, piece: &Piece, mov: Move) -> (ok: bool)
        requires
            piece@.in_grid(),
        ensures
            ok == old(self)@.allows(piece@, mov),
            final(self)@ == old(self)@.tested(piece@, mov),
            old(self)@.shows(piece@) ==> final(self)@.rows == old(self)@.rows,
            mov == Move::Drop ==> ok,
        decreases
                (if mov == Move::Drop {
                    2int
                } else {
                    0int
                }),
    {
        let ghost free = old(self)@.removed(piece@).rows;
        let ghost to = target(free, piece@, mov);
        proof {
            lemma_lifted_piece_fits(old(self)@.rows, piece@);
            lemma_target_near(free, piece@, mov);
            lemma_in_grid_anchor(piece@);
            lemma_cells_span(to);
            lemma_cells_span(piece@.rotated());
        }
        self.remove_piece(piece);
        let mut piece_copy = *piece;
        match mov {
            Move::Left => piece_copy.move_left(),
            Move::Right => piece_copy.move_right(),
            Move::Down => piece_copy.move_down(),
            Move::Rotate => {
                piece_copy.rotate();
                self.adjust_rotation(&mut piece_copy)
            },
            Move::Drop => {
                proof {
                    lemma_stamped_twice(
                        old(self)@.rows,
                        piece@.cells(),
                        Tetromino::E,
                        Tetromino::E,
                    );
                }
                self.drop_piece(&mut piece_copy, false);
                self.remove_piece(&piece_copy);
                proof {
                    lemma_in_bounds_in_grid(to);
                    lemma_place_then_remove(free, to);
                }
            },
        }
        assert(piece_copy@ == to);
        assert(self@.rows == free);
        let can_move = !self.is_out_of_bounds(&piece_copy) && {
            proof {
                lemma_in_bounds_in_grid(to);
            }
            !self.is_colliding(&piece_copy)
        };
        self.add_piece(piece);
        proof {
            lemma_stamped_twice(old(self)@.rows, piece@.cells(), Tetromino::E, piece@.tetromino);
            if old(self)@.shows(piece@) {
                lemma_stamped_same(old(self)@.rows, piece@.cells(), piece@.tetromino);
            }
        }
        can_move
    }

    /// Makes the move if the board allows it: takes the piece off the board,
    /// moves it and writes it back. A row down earns a point, a drop a point
    /// for each row. A move that the board does not allow leaves the piece
    /// where it is.
    pub fn move_piece(&mut self, piece: &mut Piece, mov: Move)
        requires
            old(piece)@.in_grid(),
            old(self)@.score + old(self)@.gain(old(piece)@, mov) <= u32::MAX,
        ensures
            (final(self)@, final(piece)@) == old(self)@.moved(old(piece)@, mov),
            final(piece)@.in_grid(),
            final(self)@.shows(final(piece)@),
            !old(self)@.allows(old(piece)@, mov) && old(self)@.shows(old(piece)@)
                ==> final(self)@ == old(self)@,
    {
        let ghost free = old(self)@.removed(piece@).rows;
        let ghost from = piece@;
        let ghost to = target(free, piece@, mov);
        proof {
            lemma_lifted_piece_fits(old(self)@.rows, piece@);
            lemma_target_near(free, piece@, mov);
            lemma_in_grid_anchor(piece@);
            lemma_cells_span(piece@.rotated());
            lemma_stamped_twice(old(self)@.rows, piece@.cells(), Tetromino::E, piece@.tetromino);
            lemma_stamped_twice(old(self)@.rows, piece@.cells(), piece@.tetromino, Tetromino::E);
            lemma_stamped_twice(old(self)@.rows, piece@.cells(), Tetromino::E, Tetromino::E);
        }
        if self.can_move(piece, mov) {
            proof {
                lemma_in_bounds_in_grid(to);
            }
            self.remove_piece(piece);
            match mov {
                Move::Left => piece.move_left(),
                Move::Right => piece.move_right(),
                Move::Down => {
                    piece.move_down();
                    self.score += 1;
                },
                Move::Rotate => {
                    piece.rotate();
                    self.adjust_rotation(piece);
                },
                Move::Drop => self.drop_piece(piece, true),
            }
            self.add_piece(piece);
            proof {
                if mov == Move::Drop {
                    lemma_stamped_twice(free, to.cells(), to.tetromino, to.tetromino);
                }
                lemma_stamped_holds(free, to.cells(), to.tetromino);
            }
        } else {
            proof {
                lemma_stamped_holds(old(self)@.rows, from.cells(), from.tetromino);
                if old(self)@.shows(from) {
                    lemma_stamped_same(
                        old(self)@.rows,
                        from.cells(),
                        from.tetromino,
                    );
                }
            }
        }
    }

    /// Lets the piece fall as far as it can, a row at a time, with a point
    /// for each row if `update_score` is set. Asks for the piece to lock at
    /// once and stops the lock delay.
    pub fn drop_piece(&mut self, piece: &mut Piece, update_score: bool)
        requires
            old(piece)@.in_grid(),
            update_score ==> old(self)@.score + fall(
                old(self)@.removed(old(piece)@).rows,
                old(piece)@,
            ) <= u32::MAX,
        ensures
            (final(self)@, final(piece)@) == old(self)@.dropped(old(piece)@, update_score),
            final(piece)@.in_grid(),
        decreases 1int,
    {
        let ghost free = old(self)@.removed(piece@).rows;
        let ghost start = piece@;
        let ghost mut fallen: nat = 0;
        proof {
            lemma_lifted_piece_fits(old(self)@.rows, piece@);
            assert(start.shifted(0, 0) == start);
        }
        loop
            invariant
                start == old(piece)@,
                free == old(self)@.removed(start).rows,
                well_formed(free),
                piece@ == start.shifted(0, fallen as int),
                piece@.in_grid(),
                admits(free, piece@),
                free == stamped(self@.rows, piece@.cells(), Tetromino::E),
                fall(free, start) == fallen + fall(free, piece@),
                self@.score == old(self)@.score + (if update_score {
                    fallen
                } else {
                    0
                }),
                update_score ==> old(self)@.score + fall(free, start) <= u32::MAX,
            ensures
                fall(free, piece@) == 0,
                self@.rows == stamped(free, piece@.cells(), piece@.tetromino),
            decreases HEIGHT - piece@.y,
        {
            let ghost here = piece@;
            let ghost before = self@.rows;
            let ok = self.can_move(piece, Move::Down);
            proof {
                lemma_stamped_twice(before, here.cells(), here.tetromino, Tetromino::E);
                lemma_stamped_twice(before, here.cells(), Tetromino::E, here.tetromino);
                lemma_in_grid_anchor(here);
            }
            if !ok {
                proof {
                    if here.y + 1 < HEIGHT {
                        assert(!admits(free, here.shifted(0, 1)));
                    }
                }
                break;
            }
            proof {
                lemma_in_grid_anchor(here);
                lemma_in_bounds_in_grid(here.shifted(0, 1));
                lemma_in_grid_anchor(here.shifted(0, 1));
                assert(here.shifted(0, 1) == start.shifted(0, fallen as int + 1));
            }
            self.remove_piece(piece);
            piece.move_down();
            self.add_piece(piece);
            if update_score {
                self.score += 1;
            }
            proof {
                fallen = fallen + 1;
                lemma_place_then_remove(free, piece@);
            }
        }
        self.just_dropped = true;
        self.is_placed_time = None;
    }

    fn row_full(&self, row: usize) -> (full: bool)
        requires
            row < HEIGHT,
        ensures
            full == row_is_full(self@.rows[row as int]),
    {
        for x in 0..WIDTH
            invariant
                row < HEIGHT,
                forall|k: int| 0 <= k < x ==> self@.rows[row as int][k] != Tetromino::E,
        {
            if let Tetromino::E = self.grid[row][x] {
                return false;
            }
        }
        true
    }

    fn collapse(&mut self, row: usize)
        requires
            row < HEIGHT,
        ensures
            final(self)@ == (BoardView {
                rows: seq![empty_row()] + old(self)@.rows.remove(row as int),
                ..old(self)@
            }),
    {
        let mut y: usize = row;
        while y > 0
            invariant
                y <= row < HEIGHT,
                self@.score == old(self)@.score,
                self@.just_dropped == old(self)@.just_dropped,
                self@.lock_started == old(self)@.lock_started,
                forall|k: int| 0 <= k <= y ==> self@.rows[k] == old(self)@.rows[k],
                forall|k: int| y < k <= row ==> self@.rows[k] == old(self)@.rows[k - 1],
                forall|k: int| row < k < HEIGHT ==> self@.rows[k] == old(self)@.rows[k],
            decreases y,
        {
            let ghost prev = self@.rows;
            self.grid[y] = self.grid[y - 1];
            proof {
                assert(self@.rows =~= prev.update(y as int, prev[y - 1]));
            }
            y -= 1;
        }
        let ghost prev = self@.rows;
        self.grid[0] = [Tetromino::E;WIDTH];
        proof {
            assert(self@.rows[0] =~= empty_row());
            assert(self@.rows =~= prev.update(0, empty_row()));
            let want = seq![empty_row()] + old(self)@.rows.remove(row as int);
            assert forall|k: int| 0 <= k < HEIGHT implies self@.rows[k] == want[k] by {
                if k > 0 {
                    assert(self@.rows[k] == prev[k]);
                    assert(want[k] == old(self)@.rows.remove(row as int)[k - 1]);
                }
            }
            assert(self@.rows =~= want);
        }
    }

    /// Clears every full row: the rows above sink into its place and an
    /// empty row comes in at the top. Clearing one, two, three or four rows
    /// at once earns 25, 100, 400 or 1600 points.
    pub fn clear_lines(&mut self)
        requires
            old(self)@.score + line_bonus(full_row_count(old(self)@.rows)) <= u32::MAX,
        ensures
            final(self)@ == old(self)@.cleared(),
            full_row_count(old(self)@.rows) == 0 ==> *final(self) == *old(self),
    {
        let mut clears: usize = 0;
        let mut y: usize = HEIGHT;
        let ghost start = self@.rows;
        let ghost mut unseen: int = HEIGHT as int;
        proof {
            assert(start.subrange(HEIGHT as int, HEIGHT as int) =~= Seq::<Seq<Tetromino>>::empty());
            assert(kept_rows(Seq::<Seq<Tetromino>>::empty()) =~= Seq::<Seq<Tetromino>>::empty())
                by {
                reveal(Seq::filter);
            }
            assert(self@.rows =~= blank_rows(0) + start.subrange(0, unseen) + kept_rows(
                start.subrange(unseen, HEIGHT as int),
            ));
        }
        while y > 0
            invariant
                start == old(self)@.rows,
                well_formed(start),
                0 <= unseen <= HEIGHT,
                y <= HEIGHT,
                clears + unseen + kept_rows(start.subrange(unseen, HEIGHT as int)).len() == HEIGHT,
                unseen == if y >= clears {
                    y - clears
                } else {
                    0
                },
                self@.rows == blank_rows(clears as nat) + start.subrange(0, unseen) + kept_rows(
                    start.subrange(unseen, HEIGHT as int),
                ),
                self@.score == old(self)@.score,
                self@.just_dropped == old(self)@.just_dropped,
                self@.lock_started == old(self)@.lock_started,
                clears == 0 ==> *self == *old(self),
            decreases y + unseen,
        {
            let row: usize = y - 1;
            let ghost kept = kept_rows(start.subrange(unseen, HEIGHT as int));
            let ghost seen = start.subrange(unseen, HEIGHT as int);
            proof {
                if unseen > 0 {
                    assert(self@.rows[row as int] == start[unseen - 1]);
                    assert(start.subrange(unseen - 1, HEIGHT as int) =~= seq![start[unseen - 1]]
                        + seen);
                    lemma_kept_rows_first(start[unseen - 1], seen);
                } else {
                    assert(self@.rows[row as int] == empty_row());
                    assert(empty_row()[0] == Tetromino::E);
                }
            }
            if self.row_full(row) {
                let ghost before = self@.rows;
                self.collapse(row);
                clears += 1;
                proof {
                    unseen = unseen - 1;
                    assert(self@.rows =~= blank_rows(clears as nat) + start.subrange(0, unseen)
                        + kept);
                }
            } else {
                y -= 1;
                proof {
                    if unseen > 0 {
                        unseen = unseen - 1;
                        assert(self@.rows =~= blank_rows(clears as nat) + start.subrange(0, unseen)
                            + (seq![start[unseen]] + kept));
                    }
                }
            }
        }
        proof {
            assert(start.subrange(0, HEIGHT as int) =~= start);
            assert(start.subrange(0, 0) =~= Seq::<Seq<Tetromino>>::empty());
            assert(self@.rows =~= settled(start));
            assert(clears == full_row_count(start));
        }
        match clears {
            1 => self.score += 25,
            2 => self.score += 100,
            3 => self.score += 400,
            4 => self.score += 1600,
            _ => (),
        }
    }

    /// Whether a piece that is about to enter would lie on a block.
    pub fn will_collide(&self, piece: &Piece) -> (hit: bool)
        requires
            piece@.in_grid(),
        ensures
            hit == collides(self@.rows, piece@.cells()),
    {
        self.is_colliding(piece)
    }

    /// The board as text, a line for each row from the top and an empty
    /// line after the last: `.` for an empty cell and `X` for a block.
    pub fn text(&self) -> (text: Vec<u8>)
        ensures
            text@ == board_text(self@.rows),
    {
        let mut text: Vec<u8> = Vec::new();
        proof {
            assert(self@.rows.take(0) =~= Seq::<Seq<Tetromino>>::empty());
        }
        for y in 0..HEIGHT
            invariant
                text@ == rows_text(self@.rows.take(y as int)),
        {
            let ghost before = text@;
            for x in 0..WIDTH
                invariant
                    y < HEIGHT,
                    text@ == before + Seq::new(x as nat, |k: int| cell_mark(self@.rows[y as int][k])),
            {
                let mark: u8 = match self.grid[y][x] {
                    Tetromino::E => 46,
                    _ => 88,
                };
                text.push(mark);
                assert(text@ =~= before + Seq::new(
                    (x + 1) as nat,
                    |k: int| cell_mark(self@.rows[y as int][k]),
                ));
            }
            text.push(10);
            proof {
                let upto = self@.rows.take(y + 1);
                assert(upto.drop_last() =~= self@.rows.take(y as int));
                assert(upto.last() == self@.rows[y as int]);
                assert(text@ =~= before + row_text(self@.rows[y as int]));
            }
        }
        text.push(10);
        proof {
            assert(self@.rows.take(HEIGHT as int) =~= self@.rows);
        }
        text
    }
}

/// The byte that stands for a cell in the text of a board: `.` for an empty
/// cell and `X` for a block.
pub open spec fn cell_mark(cell: Tetromino) -> u8 {
    if cell == Tetromino::E {
        46
    } else {
        88
    }
}

/// The line of text of a row: the marks of its cells and a line feed.
pub open spec fn row_text(row: Seq<Tetromino>) -> Seq<u8> {
    Seq::new(row.len(), |x: int| cell_mark(row[x])).push(10)
}

/// The lines of text of the rows, from the top.
pub open spec fn rows_text(rows: Seq<Seq<Tetromino>>) -> Seq<u8>
    decreases rows.len(),
{
    if rows.len() == 0 {
        Seq::empty()
    } else {
        rows_text(rows.drop_last()) + row_text(rows.last())
    }
}

/// The text of a board: the lines of its rows and an empty line.
pub open spec fn board_text(rows: Seq<Seq<Tetromino>>) -> Seq<u8> {
    rows_text(rows).push(10)
}

/// Writing a piece to cells that hold no block and emptying its cells again
/// gives back the board as it was.
pub proof fn lemma_place_then_remove_restores(board: BoardView, piece: PieceView)
    requires
        well_formed(board.rows),
        piece.in_grid(),
        !collides(board.rows, piece.cells()),
    ensures
        board.placed(piece).removed(piece) == board,
{
    lemma_place_then_remove(board.rows, piece);
}

/// Taking a piece that is on the board off it and writing it again gives
/// back the board as it was.
pub proof fn lemma_remove_then_place_restores(board: BoardView, piece: PieceView)
    requires
        well_formed(board.rows),
        board.shows(piece),
    ensures
        board.removed(piece).placed(piece) == board,
{
    lemma_remove_then_place(board.rows, piece);
}

/// Clearing the rows of a board of which no row is full changes neither the
/// cells nor the score.
pub proof fn lemma_clear_without_full_rows(board: BoardView)
    requires
        forall|y: int| 0 <= y < board.rows.len() ==> !row_is_full(#[trigger] board.rows[y]),
    ensures
        board.cleared() == board,
{
    lemma_kept_rows_all(board.rows);
}

/// Trying a move out leaves a board that shows the piece with the cells it
/// had, whatever the move and whether the board allows it; and making a move
/// that the board does not allow leaves the piece where it was.
pub proof fn lemma_trial_keeps_cells(board: BoardView, piece: PieceView, mov: Move)
    requires
        well_formed(board.rows),
        board.shows(piece),
    ensures
        board.tested(piece, mov).rows == board.rows,
        board.tested(piece, mov).score == board.score,
        !board.allows(piece, mov) ==> board.moved(piece, mov).1 == piece && board.moved(
            piece,
            mov,
        ).0.rows == board.rows,
{
    lemma_stamped_same(board.rows, piece.cells(), piece.tetromino);
}

/// A drop is a move that the board always allows: at worst the piece stays
/// where it is.
pub proof fn lemma_drop_allowed(board: BoardView, piece: PieceView)
    requires
        well_formed(board.rows),
        piece.in_grid(),
    ensures
        board.allows(piece, Move::Drop),
{
    lemma_lifted_piece_fits(board.rows, piece);
    lemma_fall_lands(board.removed(piece).rows, piece);
}

} // verus!
