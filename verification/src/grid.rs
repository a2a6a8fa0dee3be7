//! The board's cells as a mathematical value: a sequence of rows, each a
//! sequence of cells, with row 0 at the top.

use vstd::prelude::*;
use crate::constants::{HEIGHT, WIDTH};
use crate::tetromino::Tetromino;

verus! {

/// The rows have the board's dimensions.
pub open spec fn well_formed(rows: Seq<Seq<Tetromino>>) -> bool {
    &&& rows.len() == HEIGHT
    &&& forall|y: int| 0 <= y < HEIGHT ==> (#[trigger] rows[y]).len() == WIDTH
}

/// The cell `(column, row)` lies on the board.
pub open spec fn on_board(cell: (int, int)) -> bool {
    0 <= cell.0 < WIDTH && 0 <= cell.1 < HEIGHT
}

/// The cell lies on the board and holds a block.
pub open spec fn occupied(rows: Seq<Seq<Tetromino>>, cell: (int, int)) -> bool {
    on_board(cell) && rows[cell.1][cell.0] != Tetromino::E
}

/// A row of the board's width with no block in it.
pub open spec fn empty_row() -> Seq<Tetromino> {
    Seq::new(WIDTH as nat, |x: int| Tetromino::E)
}

/// A board with no block on it.
pub open spec fn empty_rows() -> Seq<Seq<Tetromino>> {
    Seq::new(HEIGHT as nat, |y: int| empty_row())
}

/// The rows after `value` is written to each of `cells`; every other cell
/// keeps what it held.
pub open spec fn stamped(rows: Seq<Seq<Tetromino>>, cells: Seq<(int, int)>, value: Tetromino) -> Seq<
    Seq<Tetromino>,
> {
    Seq::new(
        rows.len(),
        |y: int|
            Seq::new(
                rows[y].len(),
                |x: int|
                    if cells.contains((x, y)) {
                        value
                    } else {
                        rows[y][x]
                    },
            ),
    )
}

/// Some cell is left of the first column, right of the last, or below the
/// bottom row. A cell above the top row is not out of bounds.
pub open spec fn out_of_bounds(cells: Seq<(int, int)>) -> bool {
    exists|i: int|
        0 <= i < cells.len() && ((#[trigger] cells[i]).0 < 0 || cells[i].0 >= WIDTH || cells[i].1
            >= HEIGHT)
}

/// Some cell lies on a block of the board.
pub open spec fn collides(rows: Seq<Seq<Tetromino>>, cells: Seq<(int, int)>) -> bool {
    exists|i: int| 0 <= i < cells.len() && occupied(rows, #[trigger] cells[i])
}

/// Every cell holds `value`.
pub open spec fn holds(rows: Seq<Seq<Tetromino>>, cells: Seq<(int, int)>, value: Tetromino) -> bool {
    forall|i: int|
        0 <= i < cells.len() ==> on_board(#[trigger] cells[i]) && rows[cells[i].1][cells[i].0]
            == value
}

/// Some cell is on the bottom row or has a block directly below it.
pub open spec fn grounded(rows: Seq<Seq<Tetromino>>, cells: Seq<(int, int)>) -> bool {
    exists|i: int|
        0 <= i < cells.len() && ((#[trigger] cells[i]).1 == HEIGHT - 1 || occupied(
            rows,
            (cells[i].0, cells[i].1 + 1),
        ))
}

/// Every cell of the row holds a block.
pub open spec fn row_is_full(row: Seq<Tetromino>) -> bool {
    forall|x: int| 0 <= x < row.len() ==> row[x] != Tetromino::E
}

/// The test that a row passes when it is to stay: it is not full.
pub open spec fn stays() -> spec_fn(Seq<Tetromino>) -> bool {
    |row: Seq<Tetromino>| !row_is_full(row)
}

/// The rows that are not full, in their order from top to bottom.
pub open spec fn kept_rows(rows: Seq<Seq<Tetromino>>) -> Seq<Seq<Tetromino>> {
    rows.filter(stays())
}

/// How many of the rows are full.
pub open spec fn full_row_count(rows: Seq<Seq<Tetromino>>) -> nat {
    (rows.len() - kept_rows(rows).len()) as nat
}

/// `count` rows with no block in them.
pub open spec fn blank_rows(count: nat) -> Seq<Seq<Tetromino>> {
    Seq::new(count, |y: int| empty_row())
}

/// The rows after every full row is taken out: the rows that stay sink to
/// the bottom in their order, and as many empty rows come in at the top.
pub open spec fn settled(rows: Seq<Seq<Tetromino>>) -> Seq<Seq<Tetromino>> {
    blank_rows(full_row_count(rows)) + kept_rows(rows)
}

/// The points for clearing `lines` rows at once.
pub open spec fn line_bonus(lines: nat) -> nat {
    if lines == 1 {
        25
    } else if lines == 2 {
        100
    } else if lines == 3 {
        400
    } else if lines == 4 {
        1600
    } else {
        0
    }
}

/// Putting a row on top of others adds it to the rows that stay exactly
/// when it is not full.
pub proof fn lemma_kept_rows_first(row: Seq<Tetromino>, rest: Seq<Seq<Tetromino>>)
    ensures
        kept_rows(seq![row] + rest) == if row_is_full(row) {
            kept_rows(rest)
        } else {
            seq![row] + kept_rows(rest)
        },
{
    let one = seq![row];
    Seq::filter_distributes_over_add(one, rest, stays());
    assert(one.filter(stays()) == if row_is_full(row) {
        Seq::<Seq<Tetromino>>::empty()
    } else {
        one
    }) by {
        reveal_with_fuel(Seq::filter, 2);
        assert(one.drop_last() =~= Seq::<Seq<Tetromino>>::empty());
        assert(one.last() == row);
        assert(Seq::<Seq<Tetromino>>::empty().push(row) =~= one);
    }
    assert(Seq::<Seq<Tetromino>>::empty() + kept_rows(rest) =~= kept_rows(rest));
}

/// Where no row is full, every row stays.
pub proof fn lemma_kept_rows_all(rows: Seq<Seq<Tetromino>>)
    requires
        forall|y: int| 0 <= y < rows.len() ==> !row_is_full(#[trigger] rows[y]),
    ensures
        kept_rows(rows) == rows,
        full_row_count(rows) == 0,
        settled(rows) == rows,
    decreases rows.len(),
{
    reveal(Seq::filter);
    if rows.len() > 0 {
        let front = rows.drop_last();
        assert forall|y: int| 0 <= y < front.len() implies !row_is_full(#[trigger] front[y]) by {
            assert(front[y] == rows[y]);
        }
        lemma_kept_rows_all(front);
        assert(!row_is_full(rows[rows.len() - 1]));
        assert(front.push(rows.last()) =~= rows);
    }
    assert(kept_rows(rows) =~= rows);
    assert(settled(rows) =~= rows);
}

/// Taking the full rows out keeps the board's dimensions.
pub proof fn lemma_settled_well_formed(rows: Seq<Seq<Tetromino>>)
    requires
        well_formed(rows),
    ensures
        well_formed(settled(rows)),
        full_row_count(rows) <= HEIGHT,
{
    broadcast use vstd::seq_lib::group_filter_ensures;

    let kept = kept_rows(rows);
    assert(kept.len() <= rows.len());
    assert forall|y: int| 0 <= y < HEIGHT implies (#[trigger] settled(rows)[y]).len() == WIDTH by {
        if y >= full_row_count(rows) {
            let k = y - full_row_count(rows);
            assert(settled(rows)[y] == kept[k]);
            assert(kept.contains(kept[k]));
            rows.lemma_filter_contains_rev(stays(), kept[k]);
            let j = choose|j: int| 0 <= j < rows.len() && rows[j] == kept[k];
            assert(rows[j].len() == WIDTH);
        }
    }
}

/// Writing one cell more is an update of that cell in its row.
pub proof fn lemma_stamped_push(
    rows: Seq<Seq<Tetromino>>,
    cells: Seq<(int, int)>,
    cell: (int, int),
    value: Tetromino,
)
    requires
        well_formed(rows),
        on_board(cell),
    ensures
        stamped(rows, cells.push(cell), value) == stamped(rows, cells, value).update(
            cell.1,
            stamped(rows, cells, value)[cell.1].update(cell.0, value),
        ),
{
    let before = stamped(rows, cells, value);
    let after = stamped(rows, cells.push(cell), value);
    let want = before.update(cell.1, before[cell.1].update(cell.0, value));
    assert forall|y: int, x: int| 0 <= y < HEIGHT && 0 <= x < WIDTH implies after[y][x]
        == want[y][x] by {
        let more = cells.push(cell);
        if cells.contains((x, y)) {
            let i = choose|i: int| 0 <= i < cells.len() && cells[i] == (x, y);
            assert(more[i] == (x, y));
        }
        if more.contains((x, y)) {
            let i = choose|i: int| 0 <= i < more.len() && more[i] == (x, y);
            if i < cells.len() {
                assert(cells[i] == (x, y));
            }
        }
        assert(more[cells.len() as int] == cell);
    }
    assert(after =~~= want);
}

/// Of two writes to the same cells the second one stays.
pub proof fn lemma_stamped_twice(
    rows: Seq<Seq<Tetromino>>,
    cells: Seq<(int, int)>,
    first: Tetromino,
    second: Tetromino,
)
    ensures
        stamped(stamped(rows, cells, first), cells, second) == stamped(rows, cells, second),
{
    assert(stamped(stamped(rows, cells, first), cells, second) =~~= stamped(rows, cells, second));
}

/// Writing to cells what they hold already changes nothing.
pub proof fn lemma_stamped_same(rows: Seq<Seq<Tetromino>>, cells: Seq<(int, int)>, value: Tetromino)
    requires
        well_formed(rows),
        holds(rows, cells, value),
    ensures
        stamped(rows, cells, value) == rows,
{
    assert forall|y: int, x: int| 0 <= y < HEIGHT && 0 <= x < WIDTH implies stamped(
        rows,
        cells,
        value,
    )[y][x] == rows[y][x] by {
        if cells.contains((x, y)) {
            let i = choose|i: int| 0 <= i < cells.len() && cells[i] == (x, y);
            assert(on_board(cells[i]));
        }
    }
    assert(stamped(rows, cells, value) =~~= rows);
}

/// After a write to cells of the board, those cells hold what was written.
pub proof fn lemma_stamped_holds(rows: Seq<Seq<Tetromino>>, cells: Seq<(int, int)>, value: Tetromino)
    requires
        well_formed(rows),
        forall|i: int| 0 <= i < cells.len() ==> on_board(#[trigger] cells[i]),
    ensures
        holds(stamped(rows, cells, value), cells, value),
{
    assert forall|i: int| 0 <= i < cells.len() implies on_board(#[trigger] cells[i]) && stamped(
        rows,
        cells,
        value,
    )[cells[i].1][cells[i].0] == value by {
        assert(cells.contains(cells[i]));
    }
}

/// Cells on the board that collide with nothing all hold no block.
pub proof fn lemma_free_cells_empty(rows: Seq<Seq<Tetromino>>, cells: Seq<(int, int)>)
    requires
        forall|i: int| 0 <= i < cells.len() ==> on_board(#[trigger] cells[i]),
        !collides(rows, cells),
    ensures
        holds(rows, cells, Tetromino::E),
{
    assert forall|i: int| 0 <= i < cells.len() implies on_board(#[trigger] cells[i])
        && rows[cells[i].1][cells[i].0] == Tetromino::E by {
        assert(!occupied(rows, cells[i]));
    }
}

/// Writing to no cell changes nothing.
pub proof fn lemma_stamped_nothing(rows: Seq<Seq<Tetromino>>, value: Tetromino)
    ensures
        stamped(rows, Seq::empty(), value) == rows,
{
    assert(stamped(rows, Seq::<(int, int)>::empty(), value) =~~= rows);
}

} // verus!
