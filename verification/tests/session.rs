use tetris::board::Board;
use tetris::constants::{HEIGHT, TETROMINO_LIMIT, WIDTH};
use tetris::piece::Piece;
use tetris::player::{Player, RandomPlayer};
use tetris::session::{Controls, Game, GameState, Step, FALL_DELAY, LOOKAHEAD};
use tetris::tetromino::{Move, Tetromino};

fn no_keys() -> Controls {
    Controls { start: false, rotate: false, down: false, right: false, left: false, drop: false }
}

fn playing() -> Game {
    let mut game = Game::new(0);
    assert!(game.tick(&Controls { start: true, ..no_keys() }, 0));
    assert_eq!(game.state(), GameState::Playing);
    game
}

fn blocks(board: &Board) -> usize {
    let mut count = 0;
    for y in 0..HEIGHT {
        for x in 0..WIDTH {
            if board.grid[y][x] != Tetromino::E {
                count += 1;
            }
        }
    }
    count
}

struct Scripted(Vec<Move>);

impl Player for Scripted {
    fn choose_moves(&self, _board: &Board, _piece: &Piece) -> Vec<Move> {
        self.0.clone()
    }
}

#[test]
fn the_limits_of_a_session() {
    assert_eq!(TETROMINO_LIMIT, 400);
    assert_eq!(LOOKAHEAD, 3);
    assert_eq!(FALL_DELAY, 1000);
}

#[test]
fn a_new_session_waits_in_the_menu_with_the_first_piece_on_the_board() {
    let game = Game::new(5);
    assert_eq!(game.state(), GameState::Menu);
    assert_eq!(game.placed(), 0);
    assert_eq!(game.board().score, 0);
    assert_eq!(blocks(game.board()), 4);
    assert_eq!(game.chooser().next_pieces.len(), 3);
    assert_ne!(game.piece().tetromino(), Tetromino::E);
    assert_eq!(game.piece().get_coords(), Piece::new(game.piece().tetromino()).get_coords());
    assert!(game.planned().is_empty());
}

#[test]
fn the_menu_waits_for_the_start_key() {
    let mut game = Game::new(0);
    let cells = game.piece().get_coords();
    let all = Controls { start: false, rotate: true, down: true, right: true, left: true, drop: true };
    assert!(game.tick(&all, 5000));
    assert_eq!(game.state(), GameState::Menu);
    assert_eq!(game.piece().get_coords(), cells);
    assert!(game.tick(&Controls { start: true, ..no_keys() }, 6000));
    assert_eq!(game.state(), GameState::Playing);
    assert_eq!(game.piece().get_coords(), cells);
}

#[test]
fn keys_move_the_piece_in_play() {
    let mut game = playing();
    let (x, y) = game.piece().get_coords()[0];
    assert!(game.tick(&Controls { left: true, ..no_keys() }, 10));
    assert_eq!(game.piece().get_coords()[0], (x - 1, y));
    assert!(game.tick(&Controls { right: true, ..no_keys() }, 20));
    assert!(game.tick(&Controls { down: true, ..no_keys() }, 30));
    assert_eq!(game.piece().get_coords()[0], (x, y + 1));
    assert_eq!(game.board().score, 1);
    assert_eq!(blocks(game.board()), 4);
}

#[test]
fn left_and_right_in_one_tick_cancel_out() {
    let mut game = playing();
    let cells = game.piece().get_coords();
    assert!(game.tick(&Controls { left: true, right: true, ..no_keys() }, 10));
    assert_eq!(game.piece().get_coords(), cells);
}

#[test]
fn gravity_pulls_the_piece_down_after_the_fall_delay() {
    let mut game = playing();
    let (x, y) = game.piece().get_coords()[0];
    assert!(game.tick(&no_keys(), 999));
    assert!(game.tick(&no_keys(), 1000));
    assert_eq!(game.piece().get_coords()[0], (x, y));
    assert!(game.tick(&no_keys(), 1001));
    assert_eq!(game.piece().get_coords()[0], (x, y + 1));
    assert_eq!(game.board().score, 1);
    assert!(game.tick(&no_keys(), 2001));
    assert_eq!(game.piece().get_coords()[0], (x, y + 1));
    assert!(game.tick(&no_keys(), 2002));
    assert_eq!(game.piece().get_coords()[0], (x, y + 2));
}

#[test]
fn a_dropped_piece_makes_way_for_the_next_of_the_queue() {
    let mut game = playing();
    let coming = game.chooser().next_pieces.clone();
    assert_eq!(game.placed(), 0);
    assert!(game.tick(&Controls { drop: true, ..no_keys() }, 10));
    assert!(game.board().just_dropped);
    assert_eq!(game.placed(), 0);
    assert!(game.tick(&no_keys(), 20));
    assert_eq!(game.placed(), 1);
    assert!(!game.board().just_dropped);
    assert_eq!(game.piece().tetromino(), coming[2]);
    assert_eq!(game.piece().get_coords(), Piece::new(coming[2]).get_coords());
    assert_eq!(game.chooser().next_pieces.len(), 3);
    assert_eq!(game.chooser().next_pieces[1..], coming[..2]);
    assert_eq!(blocks(game.board()), 8);
}

#[test]
fn a_piece_that_rests_locks_after_the_lock_delay() {
    let mut game = playing();
    for _ in 0..30 {
        assert!(game.tick(&Controls { down: true, ..no_keys() }, 7));
    }
    assert_eq!(game.placed(), 0);
    assert!(game.tick(&no_keys(), 100));
    assert!(game.tick(&no_keys(), 507));
    assert_eq!(game.placed(), 0);
    assert!(game.tick(&no_keys(), 508));
    assert_eq!(game.placed(), 1);
    assert_eq!(blocks(game.board()), 8);
}

#[test]
fn a_pile_that_reaches_the_top_ends_the_game_and_start_begins_anew() {
    let mut game = playing();
    let mut ticks = 0;
    while game.state() == GameState::Playing {
        assert!(game.tick(&Controls { drop: true, ..no_keys() }, ticks));
        ticks += 1;
        assert!(ticks < 200);
    }
    assert_eq!(game.state(), GameState::GameOver);
    assert!(game.board().will_collide(game.piece()));
    let score = game.board().score;
    assert!(score > 0);
    let all = Controls { start: false, rotate: true, down: true, right: true, left: true, drop: true };
    assert!(game.tick(&all, ticks + 5000));
    assert_eq!(game.state(), GameState::GameOver);
    assert_eq!(game.board().score, score);

    assert!(game.tick(&Controls { start: true, ..no_keys() }, ticks + 6000));
    assert_eq!(game.state(), GameState::Playing);
    assert_eq!(game.board().score, 0);
    assert_eq!(game.placed(), 0);
    assert_eq!(blocks(game.board()), 4);
    assert_eq!(game.chooser().next_pieces.len(), 3);
}

#[test]
fn advance_says_what_is_left_of_the_tick() {
    let mut game = Game::new(0);
    assert_eq!(game.advance(false, 0), Step::Idle);
    assert_eq!(game.advance(true, 0), Step::Idle);
    assert_eq!(game.state(), GameState::Playing);
    assert_eq!(game.advance(false, 1), Step::Active);
    assert_eq!(game.advance(true, 2), Step::Active);
}

#[test]
fn apply_moves_only_in_play() {
    let mut game = Game::new(0);
    let cells = game.piece().get_coords();
    game.apply(Move::Down);
    game.pull(5000);
    assert_eq!(game.piece().get_coords(), cells);
    assert_eq!(game.advance(true, 5000), Step::Idle);
    game.apply(Move::Down);
    assert_eq!(game.piece().get_coords()[0], (cells[0].0, cells[0].1 + 1));
    assert_eq!(game.board().score, 1);
}

#[test]
fn a_player_has_one_move_made_in_each_tick() {
    let mut game = playing();
    let player = Scripted(vec![Move::Left, Move::Down, Move::Right]);
    let (x, y) = game.piece().get_coords()[0];
    assert!(game.tick_replayed(false, 1, &player));
    assert_eq!(game.planned(), &vec![Move::Left, Move::Down, Move::Right]);
    assert_eq!(game.piece().get_coords()[0], (x, y));
    assert!(game.tick_replayed(false, 2, &player));
    assert_eq!(game.piece().get_coords()[0], (x - 1, y));
    assert!(game.tick_replayed(false, 3, &player));
    assert_eq!(game.piece().get_coords()[0], (x - 1, y + 1));
    assert!(game.tick_replayed(false, 4, &player));
    assert_eq!(game.piece().get_coords()[0], (x, y + 1));
    assert!(game.planned().is_empty());
    assert!(game.tick_replayed(false, 5, &player));
    assert_eq!(game.planned().len(), 3);
    assert_eq!(game.piece().get_coords()[0], (x, y + 1));
}

#[test]
fn a_random_player_plays_until_the_game_is_over_or_the_pieces_run_out() {
    let mut game = playing();
    let player = RandomPlayer;
    let mut now = 0;
    let mut running = true;
    while running && game.state() == GameState::Playing && now < 200_000 {
        now += 100;
        running = game.tick_replayed(false, now, &player);
        assert!(game.placed() <= TETROMINO_LIMIT);
        assert_eq!(game.chooser().next_pieces.len(), 3);
        assert!(game.piece().is_in_grid());
    }
    assert!(!running || game.state() == GameState::GameOver);
}
