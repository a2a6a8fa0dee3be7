use tetris::board::Board;
use tetris::constants::{HEIGHT, WIDTH};
use tetris::piece::Piece;
use tetris::tetromino::{Move, Tetromino};

fn count_of(board: &Board, shape: Tetromino) -> usize {
    let mut count = 0;
    for y in 0..HEIGHT {
        for x in 0..WIDTH {
            if board.grid[y][x] == shape {
                count += 1;
            }
        }
    }
    count
}

fn on_board(shape: Tetromino) -> (Board, Piece) {
    let mut board = Board::new();
    let piece = Piece::new(shape);
    board.add_piece(&piece);
    (board, piece)
}

fn shows(board: &Board, piece: &Piece) -> bool {
    piece
        .get_coords()
        .iter()
        .all(|&(x, y)| board.grid[y as usize][x as usize] == piece.tetromino())
}

#[test]
fn left_right_and_down_move_the_piece_by_one_cell() {
    let (mut board, mut piece) = on_board(Tetromino::O);
    board.move_piece(&mut piece, Move::Left);
    assert_eq!(piece.get_coords(), [(3, 0), (4, 0), (3, 1), (4, 1)]);
    board.move_piece(&mut piece, Move::Right);
    board.move_piece(&mut piece, Move::Right);
    assert_eq!(piece.get_coords(), [(5, 0), (6, 0), (5, 1), (6, 1)]);
    board.move_piece(&mut piece, Move::Down);
    assert_eq!(piece.get_coords(), [(5, 1), (6, 1), (5, 2), (6, 2)]);
    assert_eq!(count_of(&board, Tetromino::O), 4);
    assert!(shows(&board, &piece));
}

#[test]
fn only_a_move_down_earns_a_point() {
    let (mut board, mut piece) = on_board(Tetromino::T);
    board.move_piece(&mut piece, Move::Left);
    board.move_piece(&mut piece, Move::Right);
    board.move_piece(&mut piece, Move::Rotate);
    assert_eq!(board.score, 0);
    board.move_piece(&mut piece, Move::Down);
    assert_eq!(board.score, 1);
    board.move_piece(&mut piece, Move::Down);
    assert_eq!(board.score, 2);
    assert!(!board.just_dropped);
}

#[test]
fn the_left_wall_stops_the_piece() {
    let (mut board, mut piece) = on_board(Tetromino::I);
    for _ in 0..3 {
        board.move_piece(&mut piece, Move::Left);
    }
    assert_eq!(piece.get_coords(), [(0, 0), (1, 0), (2, 0), (3, 0)]);
    let grid = board.grid;
    board.move_piece(&mut piece, Move::Left);
    assert_eq!(piece.get_coords(), [(0, 0), (1, 0), (2, 0), (3, 0)]);
    assert_eq!(board.grid, grid);
    assert_eq!(board.score, 0);
}

#[test]
fn the_right_wall_stops_the_piece() {
    let (mut board, mut piece) = on_board(Tetromino::I);
    for _ in 0..8 {
        board.move_piece(&mut piece, Move::Right);
    }
    assert_eq!(piece.get_coords(), [(6, 0), (7, 0), (8, 0), (9, 0)]);
}

#[test]
fn the_floor_stops_the_piece_and_earns_nothing() {
    let (mut board, mut piece) = on_board(Tetromino::O);
    for _ in 0..30 {
        board.move_piece(&mut piece, Move::Down);
    }
    assert_eq!(piece.get_coords(), [(4, 22), (5, 22), (4, 23), (5, 23)]);
    assert_eq!(board.score, 22);
}

#[test]
fn a_block_stops_the_piece() {
    let (mut board, mut piece) = on_board(Tetromino::O);
    board.grid[1][3] = Tetromino::Z;
    board.grid[2][5] = Tetromino::Z;
    let grid = board.grid;
    board.move_piece(&mut piece, Move::Left);
    board.move_piece(&mut piece, Move::Down);
    assert_eq!(piece.get_coords(), [(4, 0), (5, 0), (4, 1), (5, 1)]);
    assert_eq!(board.grid, grid);
    assert_eq!(board.score, 0);
    board.move_piece(&mut piece, Move::Right);
    assert_eq!(piece.get_coords(), [(5, 0), (6, 0), (5, 1), (6, 1)]);
}

#[test]
fn a_drop_falls_to_the_floor_with_a_point_for_each_row() {
    let (mut board, mut piece) = on_board(Tetromino::O);
    board.move_piece(&mut piece, Move::Drop);
    assert_eq!(piece.get_coords(), [(4, 22), (5, 22), (4, 23), (5, 23)]);
    assert_eq!(board.score, 22);
    assert!(board.just_dropped);
    assert_eq!(count_of(&board, Tetromino::O), 4);
    assert!(shows(&board, &piece));
}

#[test]
fn a_drop_lands_on_the_blocks_below() {
    let (mut board, mut piece) = on_board(Tetromino::I);
    board.grid[10][6] = Tetromino::Z;
    board.move_piece(&mut piece, Move::Drop);
    assert_eq!(piece.get_coords(), [(3, 9), (4, 9), (5, 9), (6, 9)]);
    assert_eq!(board.score, 9);
    assert!(board.just_dropped);
}

#[test]
fn a_drop_of_a_resting_piece_moves_nothing_and_still_asks_for_the_lock() {
    let (mut board, mut piece) = on_board(Tetromino::O);
    board.grid[2][4] = Tetromino::Z;
    let grid = board.grid;
    board.move_piece(&mut piece, Move::Drop);
    assert_eq!(piece.get_coords(), [(4, 0), (5, 0), (4, 1), (5, 1)]);
    assert_eq!(board.grid, grid);
    assert_eq!(board.score, 0);
    assert!(board.just_dropped);
}

#[test]
fn can_move_says_what_move_piece_would_do() {
    let (mut board, mut piece) = on_board(Tetromino::I);
    assert!(board.can_move(&piece, Move::Left));
    assert!(board.can_move(&piece, Move::Right));
    assert!(board.can_move(&piece, Move::Down));
    assert!(board.can_move(&piece, Move::Rotate));
    for _ in 0..3 {
        board.move_piece(&mut piece, Move::Left);
    }
    assert!(!board.can_move(&piece, Move::Left));
    assert!(board.can_move(&piece, Move::Right));
}

#[test]
fn can_move_leaves_piece_grid_and_score_as_they_were() {
    let (mut board, mut piece) = on_board(Tetromino::L);
    board.grid[23] = [Tetromino::L; WIDTH];
    board.grid[1][2] = Tetromino::Z;
    board.move_piece(&mut piece, Move::Down);
    let grid = board.grid;
    let score = board.score;
    let cells = piece.get_coords();
    let count = count_of(&board, Tetromino::L);
    for mov in [Move::Left, Move::Right, Move::Down, Move::Rotate, Move::Drop] {
        let _ = board.can_move(&piece, mov);
        assert_eq!(board.grid, grid, "{:?}", mov);
        assert_eq!(board.score, score);
        assert_eq!(piece.get_coords(), cells);
        assert_eq!(count_of(&board, Tetromino::L), count);
    }
}

#[test]
fn can_move_always_allows_a_drop() {
    let (mut board, piece) = on_board(Tetromino::O);
    board.grid[2] = [Tetromino::Z; WIDTH];
    assert!(!board.can_move(&piece, Move::Down));
    assert!(board.can_move(&piece, Move::Drop));
}

#[test]
fn a_tried_drop_asks_for_the_lock_and_other_trials_do_not() {
    let (mut board, piece) = on_board(Tetromino::O);
    let _ = board.can_move(&piece, Move::Down);
    let _ = board.can_move(&piece, Move::Rotate);
    assert!(!board.just_dropped);
    let _ = board.can_move(&piece, Move::Drop);
    assert!(board.just_dropped);
}

#[test]
fn a_rotation_through_the_left_wall_kicks_the_piece_one_column_right() {
    let (mut board, mut piece) = on_board(Tetromino::T);
    board.move_piece(&mut piece, Move::Rotate);
    for _ in 0..4 {
        board.move_piece(&mut piece, Move::Left);
    }
    assert_eq!(piece.get_coords(), [(0, 0), (1, 1), (0, 1), (0, 2)]);
    board.move_piece(&mut piece, Move::Rotate);
    assert_eq!(piece.get_coords(), [(1, 1), (0, 0), (1, 0), (2, 0)]);
    assert!(shows(&board, &piece));
    assert_eq!(count_of(&board, Tetromino::T), 4);
}

#[test]
fn a_rotation_that_is_illegal_after_the_kick_leaves_the_piece() {
    let (mut board, mut piece) = on_board(Tetromino::T);
    board.move_piece(&mut piece, Move::Rotate);
    for _ in 0..4 {
        board.move_piece(&mut piece, Move::Left);
    }
    board.grid[0][2] = Tetromino::Z;
    let grid = board.grid;
    assert!(!board.can_move(&piece, Move::Rotate));
    board.move_piece(&mut piece, Move::Rotate);
    assert_eq!(piece.get_coords(), [(0, 0), (1, 1), (0, 1), (0, 2)]);
    assert_eq!(board.grid, grid);
}

#[test]
fn a_rotation_through_the_right_wall_kicks_the_piece_left() {
    let (mut board, mut piece) = on_board(Tetromino::I);
    board.move_piece(&mut piece, Move::Rotate);
    for _ in 0..4 {
        board.move_piece(&mut piece, Move::Right);
    }
    assert_eq!(piece.get_coords(), [(9, 0), (9, 1), (9, 2), (9, 3)]);
    board.move_piece(&mut piece, Move::Rotate);
    assert_eq!(piece.get_coords(), [(6, 0), (7, 0), (8, 0), (9, 0)]);
}

#[test]
fn adjust_rotation_leaves_a_piece_between_the_walls() {
    let board = Board::new();
    let mut piece = Piece::new(Tetromino::J);
    board.adjust_rotation(&mut piece);
    assert_eq!(piece.get_coords(), [(3, 1), (4, 1), (5, 1), (3, 0)]);
}

#[test]
fn drop_piece_counts_points_only_when_asked() {
    let (mut board, mut piece) = on_board(Tetromino::O);
    board.remove_piece(&piece);
    board.drop_piece(&mut piece, false);
    assert_eq!(piece.get_coords(), [(4, 22), (5, 22), (4, 23), (5, 23)]);
    assert_eq!(board.score, 0);
    assert!(board.just_dropped);
    assert!(shows(&board, &piece));

    let (mut board, mut piece) = on_board(Tetromino::O);
    board.remove_piece(&piece);
    board.drop_piece(&mut piece, true);
    assert_eq!(board.score, 22);
}
