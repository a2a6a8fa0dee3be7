use tetris::board::Board;
use tetris::constants::{HEIGHT, WIDTH};
use tetris::tetromino::Tetromino;

const EMPTY: [Tetromino; WIDTH] = [Tetromino::E; WIDTH];
const FULL: [Tetromino; WIDTH] = [Tetromino::I; WIDTH];

fn partial(shape: Tetromino, gap: usize) -> [Tetromino; WIDTH] {
    let mut row = [shape; WIDTH];
    row[gap] = Tetromino::E;
    row
}

#[test]
fn clearing_without_a_full_row_changes_nothing() {
    let mut board = Board::new();
    board.grid[23] = partial(Tetromino::J, 0);
    board.grid[22] = partial(Tetromino::L, 9);
    board.grid[10][4] = Tetromino::O;
    board.score = 7;
    let grid = board.grid;
    board.clear_lines();
    assert_eq!(board.grid, grid);
    assert_eq!(board.score, 7);
}

#[test]
fn clearing_an_empty_board_changes_nothing() {
    let mut board = Board::new();
    board.clear_lines();
    assert_eq!(board.grid, [EMPTY; HEIGHT]);
    assert_eq!(board.score, 0);
}

#[test]
fn a_full_bottom_row_earns_25_and_the_rows_above_sink() {
    let mut board = Board::new();
    board.grid[23] = FULL;
    board.grid[22] = partial(Tetromino::T, 3);
    board.grid[21][5] = Tetromino::S;
    board.score = 10;
    board.clear_lines();
    assert_eq!(board.score, 35);
    assert_eq!(board.grid[23], partial(Tetromino::T, 3));
    let mut sunk = EMPTY;
    sunk[5] = Tetromino::S;
    assert_eq!(board.grid[22], sunk);
    for y in 0..22 {
        assert_eq!(board.grid[y], EMPTY, "row {}", y);
    }
    assert_eq!(board.grid[0], EMPTY);
}

#[test]
fn four_full_rows_earn_1600() {
    let mut board = Board::new();
    for y in 20..24 {
        board.grid[y] = FULL;
    }
    board.grid[19] = partial(Tetromino::Z, 2);
    board.clear_lines();
    assert_eq!(board.score, 1600);
    assert_eq!(board.grid[23], partial(Tetromino::Z, 2));
    for y in 0..23 {
        assert_eq!(board.grid[y], EMPTY);
    }
}

#[test]
fn two_full_rows_earn_100_and_three_earn_400() {
    let mut board = Board::new();
    board.grid[23] = FULL;
    board.grid[22] = FULL;
    board.clear_lines();
    assert_eq!(board.score, 100);

    let mut board = Board::new();
    board.grid[23] = FULL;
    board.grid[22] = FULL;
    board.grid[21] = FULL;
    board.clear_lines();
    assert_eq!(board.score, 400);
    assert_eq!(board.grid, [EMPTY; HEIGHT]);
}

#[test]
fn five_full_rows_are_cleared_and_earn_nothing() {
    let mut board = Board::new();
    for y in 19..24 {
        board.grid[y] = FULL;
    }
    board.score = 3;
    board.clear_lines();
    assert_eq!(board.score, 3);
    assert_eq!(board.grid, [EMPTY; HEIGHT]);
}

#[test]
fn full_rows_between_other_rows_are_taken_out() {
    let mut board = Board::new();
    board.grid[23] = partial(Tetromino::J, 0);
    board.grid[22] = FULL;
    board.grid[21] = partial(Tetromino::L, 1);
    board.grid[20] = FULL;
    board.grid[19] = partial(Tetromino::S, 2);
    board.clear_lines();
    assert_eq!(board.score, 100);
    assert_eq!(board.grid[23], partial(Tetromino::J, 0));
    assert_eq!(board.grid[22], partial(Tetromino::L, 1));
    assert_eq!(board.grid[21], partial(Tetromino::S, 2));
    for y in 0..21 {
        assert_eq!(board.grid[y], EMPTY);
    }
}

#[test]
fn a_full_top_row_is_cleared_too() {
    let mut board = Board::new();
    board.grid[0] = FULL;
    board.grid[23] = partial(Tetromino::O, 4);
    board.clear_lines();
    assert_eq!(board.score, 25);
    assert_eq!(board.grid[0], EMPTY);
    assert_eq!(board.grid[23], partial(Tetromino::O, 4));
}

#[test]
fn a_row_of_mixed_shapes_is_full() {
    let mut board = Board::new();
    let shapes = [
        Tetromino::I,
        Tetromino::O,
        Tetromino::T,
        Tetromino::S,
        Tetromino::Z,
        Tetromino::J,
        Tetromino::L,
        Tetromino::I,
        Tetromino::O,
        Tetromino::T,
    ];
    board.grid[23] = shapes;
    board.clear_lines();
    assert_eq!(board.score, 25);
    assert_eq!(board.grid, [EMPTY; HEIGHT]);
}

#[test]
fn clearing_keeps_the_request_of_a_drop() {
    let mut board = Board::new();
    board.grid[23] = FULL;
    board.just_dropped = true;
    board.clear_lines();
    assert!(board.just_dropped);
}
