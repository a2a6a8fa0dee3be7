//! A piece: a shape with a position and an orientation, and the four cells
//! that it covers.

use vstd::math::{max, min};
use vstd::prelude::*;
use crate::constants::{HEIGHT, WIDTH};
use crate::tetromino::{Orientation, Tetromino};

verus! {

/// A shape at a position of the board, in one of its orientations.
#[derive(Clone, Copy, Debug)]
pub struct Piece {
    tetromino: Tetromino,
    x: isize,
    y: isize,
    orientation: Orientation,
}

/// The mathematical value of a [`Piece`].
pub struct PieceView {
    pub tetromino: Tetromino,
    pub x: int,
    pub y: int,
    pub orientation: Orientation,
}

/// The four cells `(column, row)` that a shape covers in an orientation when
/// its anchor is at the origin.
pub open spec fn base_cells(tetromino: Tetromino, orientation: Orientation) -> Seq<(int, int)> {
    match tetromino {
        Tetromino::I => match orientation {
            Orientation::Up | Orientation::Down => seq![(3, 0), (4, 0), (5, 0), (6, 0)],
            Orientation::Right | Orientation::Left => seq![(5, 0), (5, 1), (5, 2), (5, 3)],
        },
        Tetromino::O => seq![(4, 0), (5, 0), (4, 1), (5, 1)],
        Tetromino::T => match orientation {
            Orientation::Up => seq![(4, 0), (3, 1), (4, 1), (5, 1)],
            Orientation::Right => seq![(4, 0), (5, 1), (4, 1), (4, 2)],
            Orientation::Down => seq![(4, 1), (3, 0), (4, 0), (5, 0)],
            Orientation::Left => seq![(4, 0), (3, 1), (4, 1), (4, 2)],
        },
        Tetromino::L => match orientation {
            Orientation::Up => seq![(3, 1), (4, 1), (5, 1), (5, 0)],
            Orientation::Right => seq![(4, 0), (4, 1), (4, 2), (5, 2)],
            Orientation::Down => seq![(3, 0), (4, 0), (5, 0), (3, 1)],
            Orientation::Left => seq![(3, 0), (4, 0), (4, 1), (4, 2)],
        },
        Tetromino::J => match orientation {
            Orientation::Up => seq![(3, 1), (4, 1), (5, 1), (3, 0)],
            Orientation::Right => seq![(4, 0), (4, 1), (4, 2), (5, 0)],
            Orientation::Down => seq![(3, 0), (4, 0), (5, 0), (5, 1)],
            Orientation::Left => seq![(4, 0), (4, 1), (4, 2), (3, 2)],
        },
        Tetromino::S => match orientation {
            Orientation::Up | Orientation::Down => seq![(4, 0), (5, 0), (3, 1), (4, 1)],
            Orientation::Right | Orientation::Left => seq![(4, 0), (4, 1), (5, 1), (5, 2)],
        },
        Tetromino::Z => match orientation {
            Orientation::Up | Orientation::Down => seq![(3, 0), (4, 0), (4, 1), (5, 1)],
            Orientation::Right | Orientation::Left => seq![(5, 0), (4, 1), (5, 1), (4, 2)],
        },
        Tetromino::E => seq![(0, 0), (0, 0), (0, 0), (0, 0)],
    }
}

/// The smallest column among the first `count` of the cells.
pub open spec fn least_column(cells: Seq<(int, int)>, count: nat) -> int
    decreases count,
{
    if count <= 1 {
        cells[0].0
    } else {
        min(least_column(cells, (count - 1) as nat), cells[count - 1].0)
    }
}

/// The greatest column among the first `count` of the cells.
pub open spec fn greatest_column(cells: Seq<(int, int)>, count: nat) -> int
    decreases count,
{
    if count <= 1 {
        cells[0].0
    } else {
        max(greatest_column(cells, (count - 1) as nat), cells[count - 1].0)
    }
}

/// How far cells are to move sideways to come back between the walls: to the
/// right by as much as the leftmost cell is beyond the left wall, else to the
/// left by as much as the rightmost cell is beyond the right wall.
pub open spec fn wall_kick(leftmost: int, rightmost: int) -> int {
    if leftmost < 0 {
        -leftmost
    } else if rightmost >= WIDTH {
        WIDTH - 1 - rightmost
    } else {
        0
    }
}

/// The cells of an array of machine coordinates, as mathematical pairs.
pub open spec fn coords_view(coords: [(isize, isize); 4]) -> Seq<(int, int)> {
    Seq::new(4, |i: int| (coords[i].0 as int, coords[i].1 as int))
}

impl PieceView {
    /// A piece of the given shape where pieces enter the board: anchored at
    /// the origin and pointing up.
    pub open spec fn entering(tetromino: Tetromino) -> PieceView {
        PieceView { tetromino, x: 0, y: 0, orientation: Orientation::Up }
    }

    /// The four cells `(column, row)` that the piece covers: the cells of its
    /// shape and orientation, moved by its position.
    pub open spec fn cells(self) -> Seq<(int, int)> {
        Seq::new(
            4,
            |i: int|
                (
                    base_cells(self.tetromino, self.orientation)[i].0 + self.x,
                    base_cells(self.tetromino, self.orientation)[i].1 + self.y,
                ),
        )
    }

    /// The piece moved by `dx` columns and `dy` rows.
    pub open spec fn shifted(self, dx: int, dy: int) -> PieceView {
        PieceView { x: self.x + dx, y: self.y + dy, ..self }
    }

    /// The piece turned once, at the same position.
    pub open spec fn rotated(self) -> PieceView {
        PieceView { orientation: self.orientation.turned(), ..self }
    }

    /// The column of the piece's leftmost cell.
    pub open spec fn leftmost(self) -> int {
        least_column(self.cells(), 4)
    }

    /// The column of the piece's rightmost cell.
    pub open spec fn rightmost(self) -> int {
        greatest_column(self.cells(), 4)
    }

    /// The piece after the wall kick: moved sideways by the least amount that
    /// brings its outermost cell back between the walls.
    pub open spec fn kicked(self) -> PieceView {
        self.shifted(wall_kick(self.leftmost(), self.rightmost()), 0)
    }

    /// Every cell of the piece lies on the board.
    pub open spec fn in_grid(self) -> bool {
        forall|i: int|
            0 <= i < 4 ==> 0 <= (#[trigger] self.cells()[i]).0 < WIDTH && 0 <= self.cells()[i].1
                < HEIGHT
    }

    /// Every coordinate of every cell is a machine integer.
    pub open spec fn representable(self) -> bool {
        forall|i: int|
            0 <= i < 4 ==> isize::MIN <= (#[trigger] self.cells()[i]).0 <= isize::MAX && isize::MIN
                <= self.cells()[i].1 <= isize::MAX
    }
}

impl View for Piece {
    type V = PieceView;

    closed spec fn view(&self) -> PieceView {
        PieceView {
            tetromino: self.tetromino,
            x: self.x as int,
            y: self.y as int,
            orientation: self.orientation,
        }
    }
}

impl Piece {
    /// A piece of the given shape where pieces enter the board: anchored at
    /// the origin and pointing up.
    pub fn new(tetromino: Tetromino) -> (piece: Piece)
        ensures
            piece@ == PieceView::entering(tetromino),
            piece@.in_grid(),
    {
        let piece = Piece { tetromino, x: 0, y: 0, orientation: Orientation::Up };
        proof {
            lemma_base_cells_bounds(tetromino, Orientation::Up);
        }
        piece
    }

    /// Whether every cell of the piece lies on the board.
    pub fn is_in_grid(&self) -> (inside: bool)
        ensures
            inside == self@.in_grid(),
    {
        proof {
            lemma_cells_span(self@);
        }
        if self.x < -6 || self.x >= WIDTH as isize || self.y < 0 || self.y >= HEIGHT as isize {
            proof {
                let i = choose|i: int| 0 <= i < 4 && (#[trigger] self@.cells()[i]).1 == self@.y;
                assert(self@.cells()[0].0 <= self@.x + 6);
            }
            return false;
        }
        let coords = self.get_coords();
        for i in 0..4usize
            invariant
                coords_view(coords) == self@.cells(),
                forall|k: int|
                    0 <= k < i ==> 0 <= (#[trigger] self@.cells()[k]).0 < WIDTH && 0
                        <= self@.cells()[k].1 < HEIGHT,
        {
            let (x, y) = coords[i];
            assert(coords_view(coords)[i as int] == self@.cells()[i as int]);
            if x < 0 || x >= WIDTH as isize || y < 0 || y >= HEIGHT as isize {
                return false;
            }
        }
        true
    }

    /// The shape of the piece.
    pub fn tetromino(&self) -> (tetromino: Tetromino)
        ensures
            tetromino == self@.tetromino,
    {
        self.tetromino
    }

    fn get_base_coords(&self) -> (coords: [(isize, isize); 4])
        ensures
            coords_view(coords) == base_cells(self@.tetromino, self@.orientation),
    {
        let coords: [(isize, isize); 4] = match self.tetromino {
            Tetromino::I => match self.orientation {
                Orientation::Up | Orientation::Down => [(3, 0), (4, 0), (5, 0), (6, 0)],
                Orientation::Right | Orientation::Left => [(5, 0), (5, 1), (5, 2), (5, 3)],
            },
            Tetromino::O => [(4, 0), (5, 0), (4, 1), (5, 1)],
            Tetromino::T => match self.orientation {
                Orientation::Up => [(4, 0), (3, 1), (4, 1), (5, 1)],
                Orientation::Right => [(4, 0), (5, 1), (4, 1), (4, 2)],
                Orientation::Down => [(4, 1), (3, 0), (4, 0), (5, 0)],
                Orientation::Left => [(4, 0), (3, 1), (4, 1), (4, 2)],
            },
            Tetromino::L => match self.orientation {
                Orientation::Up => [(3, 1), (4, 1), (5, 1), (5, 0)],
                Orientation::Right => [(4, 0), (4, 1), (4, 2), (5, 2)],
                Orientation::Down => [(3, 0), (4, 0), (5, 0), (3, 1)],
                Orientation::Left => [(3, 0), (4, 0), (4, 1), (4, 2)],
            },
            Tetromino::J => match self.orientation {
                Orientation::Up => [(3, 1), (4, 1), (5, 1), (3, 0)],
                Orientation::Right => [(4, 0), (4, 1), (4, 2), (5, 0)],
                Orientation::Down => [(3, 0), (4, 0), (5, 0), (5, 1)],
                Orientation::Left => [(4, 0), (4, 1), (4, 2), (3, 2)],
            },
            Tetromino::S => match self.orientation {
                Orientation::Up | Orientation::Down => [(4, 0), (5, 0), (3, 1), (4, 1)],
                Orientation::Right | Orientation::Left => [(4, 0), (4, 1), (5, 1), (5, 2)],
            },
            Tetromino::Z => match self.orientation {
                Orientation::Up | Orientation::Down => [(3, 0), (4, 0), (4, 1), (5, 1)],
                Orientation::Right | Orientation::Left => [(5, 0), (4, 1), (5, 1), (4, 2)],
            },
            Tetromino::E => [(0, 0), (0, 0), (0, 0), (0, 0)],
        };
        assert(coords_view(coords) =~= base_cells(self@.tetromino, self@.orientation));
        coords
    }

    /// The four cells `(column, row)` that the piece covers.
    pub fn get_coords(&self) -> (coords: [(isize, isize); 4])
        requires
            self@.representable(),
        ensures
            coords_view(coords) == self@.cells(),
            self@.tetromino.is_shape() ==> forall|i: int, j: int|
                0 <= i < j < 4 ==> coords[i] != coords[j],
    {
        let base_coords = self.get_base_coords();
        let mut coords: [(isize, isize); 4] = [(0, 0);4];
        for i in 0..4usize
            invariant
                self@.representable(),
                coords_view(base_coords) == base_cells(self@.tetromino, self@.orientation),
                forall|k: int|
                    0 <= k < i ==> (coords[k].0 as int, coords[k].1 as int) == self@.cells()[k],
        {
            proof {
                let k = i as int;
                assert(coords_view(base_coords)[k] == base_cells(
                    self@.tetromino,
                    self@.orientation,
                )[k]);
                assert(self@.cells()[k].0 == base_coords[k].0 + self.x);
            }
            coords[i] = (base_coords[i].0 + self.x, base_coords[i].1 + self.y);
        }
        proof {
            assert(coords_view(coords) =~= self@.cells());
            if self@.tetromino.is_shape() {
                lemma_cells_distinct(self@);
                assert forall|i: int, j: int| 0 <= i < j < 4 implies coords[i] != coords[j] by {
                    assert(coords_view(coords)[i] == self@.cells()[i]);
                    assert(coords_view(coords)[j] == self@.cells()[j]);
                }
            }
        }
        coords
    }

    /// Turns the piece once; whether the result is legal is for the board to say.
    pub(crate) fn rotate(&mut self)
        ensures
            final(self)@ == old(self)@.rotated(),
    {
        self.orientation = match self.orientation {
            Orientation::Up => Orientation::Right,
            Orientation::Right => Orientation::Down,
            Orientation::Down => Orientation::Left,
            Orientation::Left => Orientation::Up,
        };
    }

    /// Moves the piece by `dx` columns and `dy` rows, whatever is there.
    pub(crate) fn translate(&mut self, dx: isize, dy: isize)
        requires
            isize::MIN <= old(self)@.x + dx <= isize::MAX,
            isize::MIN <= old(self)@.y + dy <= isize::MAX,
        ensures
            final(self)@ == old(self)@.shifted(dx as int, dy as int),
    {
        self.x += dx;
        self.y += dy;
    }

    /// Moves the piece one column to the left, whatever is there.
    pub(crate) fn move_left(&mut self)
        requires
            old(self)@.x > isize::MIN,
        ensures
            final(self)@ == old(self)@.shifted(-1, 0),
    {
        self.x -= 1;
    }

    /// Moves the piece one column to the right, whatever is there.
    pub(crate) fn move_right(&mut self)
        requires
            old(self)@.x < isize::MAX,
        ensures
            final(self)@ == old(self)@.shifted(1, 0),
    {
        self.x += 1;
    }

    /// Moves the piece one row down, whatever is there.
    pub(crate) fn move_down(&mut self)
        requires
            old(self)@.y < isize::MAX,
        ensures
            final(self)@ == old(self)@.shifted(0, 1),
    {
        self.y += 1;
    }
}

/// Every cell of every shape's table lies in columns 3 to 6 and rows 0 to 3
/// of the origin, but for the empty marker, whose cells are the origin itself.
pub proof fn lemma_base_cells_bounds(tetromino: Tetromino, orientation: Orientation)
    ensures
        base_cells(tetromino, orientation).len() == 4,
        forall|i: int|
            0 <= i < 4 ==> 0 <= (#[trigger] base_cells(tetromino, orientation)[i]).0 <= 6 && 0
                <= base_cells(tetromino, orientation)[i].1 <= 3,
        tetromino.is_shape() ==> forall|i: int|
            0 <= i < 4 ==> 3 <= (#[trigger] base_cells(tetromino, orientation)[i]).0,
{
}

/// Every shape has, in every orientation, a cell in the row of its anchor.
pub proof fn lemma_base_top_row(tetromino: Tetromino, orientation: Orientation)
    ensures
        base_cells(tetromino, orientation)[0].1 == 0 || base_cells(tetromino, orientation)[1].1
            == 0 || base_cells(tetromino, orientation)[3].1 == 0,
{
}

/// The cells of a piece span at most four columns and four rows, and its
/// topmost cell is in the row of its anchor.
pub proof fn lemma_cells_span(piece: PieceView)
    ensures
        forall|i: int, j: int|
            0 <= i < 4 && 0 <= j < 4 ==> (#[trigger] piece.cells()[i]).0 - (
            #[trigger] piece.cells()[j]).0 <= 3,
        forall|i: int|
            0 <= i < 4 ==> piece.x <= (#[trigger] piece.cells()[i]).0 <= piece.x + 6 && piece.y
                <= piece.cells()[i].1 <= piece.y + 3,
        exists|i: int| 0 <= i < 4 && (#[trigger] piece.cells()[i]).1 == piece.y,
        piece.x <= piece.leftmost() <= piece.rightmost() <= piece.x + 6,
        piece.rightmost() - piece.leftmost() <= 3,
        forall|i: int|
            0 <= i < 4 ==> piece.leftmost() <= (#[trigger] piece.cells()[i]).0
                <= piece.rightmost(),
{
    lemma_base_cells_bounds(piece.tetromino, piece.orientation);
    lemma_base_top_row(piece.tetromino, piece.orientation);
    let base = base_cells(piece.tetromino, piece.orientation);
    let cells = piece.cells();
    let low: int = if piece.tetromino.is_shape() { 3 } else { 0 };
    assert forall|i: int| 0 <= i < 4 implies piece.x + low <= (#[trigger] cells[i]).0 <= piece.x
        + low + 3 && piece.y <= cells[i].1 <= piece.y + 3 by {
        assert(cells[i].0 == base[i].0 + piece.x);
        assert(cells[i].1 == base[i].1 + piece.y);
    }
    assert(cells[0].1 == piece.y || cells[1].1 == piece.y || cells[3].1 == piece.y);
    assert(piece.x + low <= piece.leftmost() && piece.rightmost() <= piece.x + low + 3
        && piece.leftmost() <= piece.rightmost() && (forall|i: int|
        0 <= i < 4 ==> piece.leftmost() <= (#[trigger] cells[i]).0 <= piece.rightmost())) by {
        reveal_with_fuel(least_column, 5);
        reveal_with_fuel(greatest_column, 5);
        assert(piece.x + low <= cells[0].0 <= piece.x + low + 3);
        assert(piece.x + low <= cells[1].0 <= piece.x + low + 3);
        assert(piece.x + low <= cells[2].0 <= piece.x + low + 3);
        assert(piece.x + low <= cells[3].0 <= piece.x + low + 3);
    }
}

/// After the wall kick every cell of a piece is between the walls, and a
/// piece that was between the walls has not moved.
pub proof fn lemma_kicked_between_walls(piece: PieceView)
    ensures
        forall|i: int| 0 <= i < 4 ==> 0 <= (#[trigger] piece.kicked().cells()[i]).0 < WIDTH,
        (forall|i: int| 0 <= i < 4 ==> 0 <= (#[trigger] piece.cells()[i]).0 < WIDTH)
            ==> piece.kicked() == piece,
{
    lemma_cells_span(piece);
    let kick = wall_kick(piece.leftmost(), piece.rightmost());
    assert forall|i: int| 0 <= i < 4 implies 0 <= (#[trigger] piece.kicked().cells()[i]).0
        < WIDTH by {
        assert(piece.kicked().cells()[i].0 == piece.cells()[i].0 + kick);
    }
    if forall|i: int| 0 <= i < 4 ==> 0 <= (#[trigger] piece.cells()[i]).0 < WIDTH {
        reveal_with_fuel(least_column, 5);
        reveal_with_fuel(greatest_column, 5);
        assert(0 <= piece.cells()[0].0 < WIDTH);
        assert(0 <= piece.cells()[1].0 < WIDTH);
        assert(0 <= piece.cells()[2].0 < WIDTH);
        assert(0 <= piece.cells()[3].0 < WIDTH);
        assert(kick == 0);
    }
}

/// The four cells of a piece of one of the seven shapes are four different
/// cells, each the table's cell moved by the piece's position.
pub proof fn lemma_cells_distinct(piece: PieceView)
    requires
        piece.tetromino.is_shape(),
    ensures
        piece.cells().len() == 4,
        forall|i: int|
            0 <= i < 4 ==> #[trigger] piece.cells()[i] == (
                base_cells(piece.tetromino, piece.orientation)[i].0 + piece.x,
                base_cells(piece.tetromino, piece.orientation)[i].1 + piece.y,
            ),
        forall|i: int, j: int|
            0 <= i < j < 4 ==> #[trigger] piece.cells()[i] != #[trigger] piece.cells()[j],
{
    let base = base_cells(piece.tetromino, piece.orientation);
    assert forall|i: int, j: int| 0 <= i < j < 4 implies base[i] != base[j] by {}
}

} // verus!
