//! A session of the game: the menu, the play and the game over, and what
//! each tick of the clock does to them.

use vstd::prelude::*;
use crate::board::{Board, BoardView};
use crate::chooser::{ChooserView, PieceChooser};
use crate::constants::{HEIGHT, TETROMINO_LIMIT};
use crate::grid::{
    collides, empty_rows, lemma_settled_well_formed, lemma_stamped_holds, line_bonus,
    well_formed,
};
use crate::piece::{Piece, PieceView};
use crate::player::Player;
use crate::rules::{lemma_fall_lands, lemma_in_grid_anchor, lemma_lifted_piece_fits};
use crate::tetromino::{Move, Tetromino};

verus! {

/// How many shapes the queue of coming shapes shows.
pub const LOOKAHEAD: usize = 3;

/// How long the piece stays in a row before it goes down by itself, in
/// milliseconds.
pub const FALL_DELAY: u64 = 1000;

/// What the session is showing.
#[derive(Clone, Copy, PartialEq, Eq, Structural, Debug)]
pub enum GameState {
    Menu,
    Playing,
    GameOver,
}

/// What is left to do in a tick once the session has looked at its state.
#[derive(Clone, Copy, PartialEq, Eq, Structural, Debug)]
pub enum Step {
    /// Nothing: the session is not in play, or has just left it.
    Idle,
    /// The play goes on: moves and gravity are to be applied.
    Active,
    /// The session is over: every piece it had has been placed.
    Finished,
}

/// The keys that were pressed since the last tick.
#[derive(Clone, Copy, PartialEq, Eq, Structural, Debug)]
pub struct Controls {
    /// Start from the menu, or start again after a game over.
    pub start: bool,
    pub rotate: bool,
    pub down: bool,
    pub right: bool,
    pub left: bool,
    pub drop: bool,
}

/// A session: the board, the piece in play, the shapes to come, and how far
/// the session has got.
#[derive(Debug)]
pub struct Game {
    state: GameState,
    board: Board,
    piece: Piece,
    chooser: PieceChooser,
    placed: usize,
    last_fall: u64,
    planned: Vec<Move>,
}

/// The mathematical value of a [`Game`].
pub struct GameView {
    /// What the session is showing.
    pub state: GameState,
    /// The board.
    pub board: BoardView,
    /// The piece in play.
    pub piece: PieceView,
    /// The shapes to come.
    pub chooser: ChooserView,
    /// How many pieces have entered the board since play began.
    pub placed: nat,
    /// When the piece last went down by itself, in milliseconds.
    pub last_fall: u64,
    /// The moves that a player has chosen and that are still to be made.
    pub planned: Seq<Move>,
}

/// The most points that one piece can earn: a point for each row it goes
/// down and the bonus for four rows cleared at once.
pub open spec fn points_per_piece() -> nat {
    (HEIGHT - 1) as nat + line_bonus(4)
}

impl GameView {
    /// What holds of every session between two ticks. The piece lies on the
    /// board and is one of the seven shapes, as is every shape to come; the
    /// queue of shapes is full; no more pieces have entered than a session
    /// has; outside a game over the piece is written on the board, and the
    /// score is no more than the pieces so far can have earned.
    pub open spec fn wf(self) -> bool {
        &&& well_formed(self.board.rows)
        &&& self.piece.in_grid()
        &&& self.piece.tetromino.is_shape()
        &&& self.chooser.full()
        &&& self.chooser.capacity > 0
        &&& forall|i: int| 0 <= i < self.chooser.queue.len() ==> self.chooser.queue[i].is_shape()
        &&& self.placed <= TETROMINO_LIMIT
        &&& self.state != GameState::GameOver ==> self.board.shows(self.piece)
        &&& self.state != GameState::GameOver ==> self.board.score <= points_per_piece()
            * self.placed + self.piece.y
    }

    /// The session after the piece in play has locked: full rows are
    /// cleared and the next shape of the queue enters, while `drawn` joins
    /// the queue. If the new piece would lie on a block, the game is over.
    pub open spec fn respawned(self, drawn: Tetromino) -> (GameView, Step) {
        let board = self.board.cleared();
        let (chooser, next) = self.chooser.fed(drawn);
        let piece = PieceView::entering(next->0);
        if collides(board.rows, piece.cells()) {
            (GameView { state: GameState::GameOver, board, chooser, piece, ..self }, Step::Idle)
        } else {
            (
                GameView {
                    board: BoardView { just_dropped: false, ..board.placed(piece) },
                    chooser,
                    piece,
                    placed: self.placed + 1,
                    ..self
                },
                Step::Active,
            )
        }
    }

    /// The session after a new start at time `now`: an empty board with no
    /// points, the next shape of the queue on it, and `drawn` in the queue.
    pub open spec fn restarted(self, now: u64, drawn: Tetromino) -> GameView {
        let (chooser, next) = self.chooser.fed(drawn);
        let piece = PieceView::entering(next->0);
        let board = BoardView {
            rows: empty_rows(),
            score: 0,
            just_dropped: false,
            lock_started: None,
        };
        GameView {
            state: GameState::Playing,
            board: board.placed(piece),
            piece,
            chooser,
            placed: 0,
            last_fall: now,
            ..self
        }
    }

    /// The session after the first part of a tick at time `now`, and what is
    /// left to do in the tick. The menu and the game over wait for `start`.
    /// The play ends when every piece of a session has entered; else the
    /// board is asked whether the piece locks, and a piece that locks or was
    /// dropped makes way for the next one. `drawn` is the shape that joins
    /// the queue if a shape leaves it.
    pub open spec fn advanced(self, start: bool, now: u64, drawn: Tetromino) -> (GameView, Step) {
        match self.state {
            GameState::Menu => (
                GameView {
                    state: if start {
                        GameState::Playing
                    } else {
                        GameState::Menu
                    },
                    ..self
                },
                Step::Idle,
            ),
            GameState::GameOver => if start {
                (self.restarted(now, drawn), Step::Idle)
            } else {
                (self, Step::Idle)
            },
            GameState::Playing => if self.placed >= TETROMINO_LIMIT {
                (self, Step::Finished)
            } else {
                let (board, locked) = self.board.lock_checked(self.piece, now);
                let looked = GameView { board, ..self };
                if locked || board.just_dropped {
                    looked.respawned(drawn)
                } else {
                    (looked, Step::Active)
                }
            },
        }
    }

    /// The session after a move was asked for: in play, the board makes the
    /// move if it allows it; out of play nothing happens.
    pub open spec fn applied(self, mov: Move) -> GameView {
        if self.state == GameState::Playing {
            let (board, piece) = self.board.moved(self.piece, mov);
            GameView { board, piece, ..self }
        } else {
            self
        }
    }

    /// The session after a move that is made only if `pressed` is set.
    pub open spec fn applied_if(self, pressed: bool, mov: Move) -> GameView {
        if pressed {
            self.applied(mov)
        } else {
            self
        }
    }

    /// The session after gravity had its turn at time `now`: in play, once
    /// more than [`FALL_DELAY`] has passed since the piece last went down by
    /// itself, it goes down a row if the board allows it.
    pub open spec fn pulled(self, now: u64) -> GameView {
        if self.state == GameState::Playing && now - self.last_fall > FALL_DELAY {
            GameView { last_fall: now, ..self.applied(Move::Down) }
        } else {
            self
        }
    }

    /// The session after the moves of the keys in `controls`, in the order
    /// rotate, down, right, left, drop.
    pub open spec fn steered(self, controls: Controls) -> GameView {
        self.applied_if(controls.rotate, Move::Rotate).applied_if(
            controls.down,
            Move::Down,
        ).applied_if(controls.right, Move::Right).applied_if(controls.left, Move::Left).applied_if(
            controls.drop,
            Move::Drop,
        )
    }

    /// The session after a player had its turn: the first of the moves that
    /// it has chosen is made and leaves the plan; if no move is left,
    /// the player chooses again, `plan` is what it chose, and no move is
    /// made in this turn.
    pub open spec fn replayed(self, plan: Seq<Move>) -> GameView {
        if self.planned.len() > 0 {
            GameView { planned: self.planned.drop_first(), ..self.applied(self.planned[0]) }
        } else {
            GameView { planned: plan, ..self }
        }
    }

    /// The session after a whole tick at time `now` in which a player
    /// makes the moves, and whether the session goes on. `plan` is what the
    /// player chooses if it is asked.
    pub open spec fn ticked_by_plan(
        self,
        start: bool,
        now: u64,
        drawn: Tetromino,
        plan: Seq<Move>,
    ) -> (GameView, bool) {
        let (game, step) = self.advanced(start, now, drawn);
        match step {
            Step::Idle => (game, true),
            Step::Finished => (game, false),
            Step::Active => (game.replayed(plan).pulled(now), true),
        }
    }

    /// The session after a whole tick at time `now` with the keys in
    /// `controls`, and whether the session goes on. The session first looks
    /// at its state; if the play goes on, the moves of the keys are made and
    /// then gravity has its turn.
    pub open spec fn ticked(self, controls: Controls, now: u64, drawn: Tetromino) -> (
        GameView,
        bool,
    ) {
        let (game, step) = self.advanced(controls.start, now, drawn);
        match step {
            Step::Idle => (game, true),
            Step::Finished => (game, false),
            Step::Active => (game.steered(controls).pulled(now), true),
        }
    }
}

impl View for Game {
    type V = GameView;

    closed spec fn view(&self) -> GameView {
        GameView {
            state: self.state,
            board: self.board@,
            piece: self.piece@,
            chooser: self.chooser@,
            placed: self.placed as nat,
            last_fall: self.last_fall,
            planned: self.planned@,
        }
    }
}

impl Game {
    /// A session that waits in its menu at time `now`, with the first piece
    /// on an empty board.
    pub fn new(now: u64) -> (game: Game)
        ensures
            game@.wf(),
            game@.state == GameState::Menu,
            game@.placed == 0,
            game@.last_fall == now,
            game@.planned == Seq::<Move>::empty(),
            game@.chooser.capacity == LOOKAHEAD,
            game@.board == (BoardView {
                rows: empty_rows(),
                score: 0,
                just_dropped: false,
                lock_started: None,
            }).placed(game@.piece),
            game@.piece == PieceView::entering(game@.piece.tetromino),
    {
        let mut chooser = PieceChooser::new(LOOKAHEAD);
        let mut board = Board::new();
        let next_shape = chooser.get_next_piece();
        let piece = Piece::new(next_shape);
        proof {
            board.lemma_well_formed();
            lemma_stamped_holds(board@.rows, piece@.cells(), piece@.tetromino);
        }
        board.add_piece(&piece);
        proof {
            board.lemma_well_formed();
        }
        Game {
            state: GameState::Menu,
            board,
            piece,
            chooser,
            placed: 0,
            last_fall: now,
            planned: Vec::new(),
        }
    }

    /// What the session is showing.
    pub fn state(&self) -> (state: GameState)
        ensures
            state == self@.state,
    {
        self.state
    }

    /// The board.
    pub fn board(&self) -> (board: &Board)
        ensures
            board@ == self@.board,
    {
        &self.board
    }

    /// The piece in play.
    pub fn piece(&self) -> (piece: &Piece)
        ensures
            piece@ == self@.piece,
    {
        &self.piece
    }

    /// The shapes to come.
    pub fn chooser(&self) -> (chooser: &PieceChooser)
        ensures
            chooser@ == self@.chooser,
    {
        &self.chooser
    }

    /// How many pieces have entered the board since play began.
    pub fn placed(&self) -> (placed: usize)
        ensures
            placed == self@.placed,
    {
        self.placed
    }

    /// The first part of a tick at time `now`: looks at the state of the
    /// session, lets a piece that has locked make way for the next one, and
    /// says what is left to do in the tick.
    pub fn advance(&mut self, start: bool, now: u64) -> (step: Step)
        requires
            old(self)@.wf(),
        ensures
            final(self)@.wf(),
            exists|drawn: Tetromino|
                drawn.is_shape() && (final(self)@, step) == #[trigger] old(self)@.advanced(
                    start,
                    now,
                    drawn,
                ),
            step == Step::Active ==> final(self)@.state == GameState::Playing,
    {
        match self.state {
            GameState::Menu => {
                if start {
                    self.state = GameState::Playing;
                }
                assert((self@, Step::Idle) == old(self)@.advanced(start, now, Tetromino::I));
                Step::Idle
            },
            GameState::Playing => {
                if self.placed >= TETROMINO_LIMIT {
                    assert((self@, Step::Finished) == old(self)@.advanced(
                        start,
                        now,
                        Tetromino::I,
                    ));
                    return Step::Finished;
                }
                let locked = self.board.is_placed(&self.piece, now);
                proof {
                    self.board.lemma_well_formed();
                    lemma_stamped_holds(
                        old(self)@.board.rows,
                        self.piece@.cells(),
                        self.piece@.tetromino,
                    );
                }
                if locked || self.board.is_just_dropped() {
                    let ghost looked = self@;
                    proof {
                        lemma_settled_well_formed(self.board@.rows);
                        lemma_in_grid_anchor(self.piece@);
                        assert(points_per_piece() * self.placed <= points_per_piece()
                            * TETROMINO_LIMIT) by (nonlinear_arith)
                            requires
                                self.placed <= TETROMINO_LIMIT,
                        ;
                    }
                    self.board.clear_lines();
                    let next_shape = self.chooser.get_next_piece();
                    let ghost drawn = choose|drawn: Tetromino|
                        drawn.is_shape() && self.chooser@ == (#[trigger] looked.chooser.fed(
                            drawn,
                        )).0 && (looked.chooser.fed(drawn).1 matches Some(last) ==> next_shape
                            == last);
                    self.piece = Piece::new(next_shape);
                    proof {
                        self.board.lemma_well_formed();
                        assert(next_shape == looked.chooser.queue.last());
                        assert(next_shape.is_shape());
                        assert forall|i: int| 0 <= i < self.chooser@.queue.len() implies (
                        #[trigger] self.chooser@.queue[i]).is_shape() by {
                            if i > 0 {
                                assert(self.chooser@.queue[i] == looked.chooser.queue[i - 1]);
                            }
                        }
                    }
                    if self.board.will_collide(&self.piece) {
                        self.state = GameState::GameOver;
                        assert((self@, Step::Idle) == old(self)@.advanced(start, now, drawn));
                        return Step::Idle;
                    }
                    self.board.add_piece(&self.piece);
                    self.board.clear_just_dropped();
                    self.placed += 1;
                    proof {
                        self.board.lemma_well_formed();
                        lemma_stamped_holds(
                            looked.board.cleared().rows,
                            self.piece@.cells(),
                            self.piece@.tetromino,
                        );
                        assert(points_per_piece() * (looked.placed + 1) == points_per_piece()
                            * looked.placed + points_per_piece()) by (nonlinear_arith);
                        assert((self@, Step::Active) == old(self)@.advanced(start, now, drawn));
                    }
                } else {
                    assert((self@, Step::Active) == old(self)@.advanced(start, now, Tetromino::I));
                }
                Step::Active
            },
            GameState::GameOver => {
                if start {
                    let ghost before = self@;
                    self.state = GameState::Playing;
                    self.board = Board::new();
                    let next_shape = self.chooser.get_next_piece();
                    let ghost drawn = choose|drawn: Tetromino|
                        drawn.is_shape() && self.chooser@ == (#[trigger] before.chooser.fed(
                            drawn,
                        )).0 && (before.chooser.fed(drawn).1 matches Some(last) ==> next_shape
                            == last);
                    self.piece = Piece::new(next_shape);
                    proof {
                        self.board.lemma_well_formed();
                        assert(next_shape.is_shape());
                        assert forall|i: int| 0 <= i < self.chooser@.queue.len() implies (
                        #[trigger] self.chooser@.queue[i]).is_shape() by {
                            if i > 0 {
                                assert(self.chooser@.queue[i] == before.chooser.queue[i - 1]);
                            }
                        }
                        lemma_stamped_holds(
                            self.board@.rows,
                            self.piece@.cells(),
                            self.piece@.tetromino,
                        );
                    }
                    self.board.add_piece(&self.piece);
                    self.last_fall = now;
                    self.placed = 0;
                    proof {
                        self.board.lemma_well_formed();
                        assert((self@, Step::Idle) == old(self)@.advanced(start, now, drawn));
                    }
                } else {
                    assert((self@, Step::Idle) == old(self)@.advanced(start, now, Tetromino::I));
                }
                Step::Idle
            },
        }
    }

    /// Asks for a move. In play, the board makes the move if it allows it;
    /// out of play nothing happens.
    pub fn apply(&mut self, mov: Move)
        requires
            old(self)@.wf(),
        ensures
            final(self)@.wf(),
            final(self)@ == old(self)@.applied(mov),
    {
        if self.state == GameState::Playing {
            proof {
                self.board.lemma_well_formed();
                lemma_in_grid_anchor(self.piece@);
                lemma_lifted_piece_fits(self.board@.rows, self.piece@);
                lemma_fall_lands(self.board@.removed(self.piece@).rows, self.piece@);
                assert(points_per_piece() * self.placed <= points_per_piece() * TETROMINO_LIMIT)
                    by (nonlinear_arith)
                    requires
                        self.placed <= TETROMINO_LIMIT,
                ;
            }
            self.board.move_piece(&mut self.piece, mov);
            proof {
                self.board.lemma_well_formed();
            }
        }
    }

    /// Gives gravity its turn at time `now`: in play, once more than
    /// [`FALL_DELAY`] has passed since the piece last went down by itself,
    /// it goes down a row if the board allows it.
    pub fn pull(&mut self, now: u64)
        requires
            old(self)@.wf(),
        ensures
            final(self)@.wf(),
            final(self)@ == old(self)@.pulled(now),
    {
        if self.state == GameState::Playing && now > self.last_fall && now - self.last_fall
            > FALL_DELAY {
            self.apply(Move::Down);
            self.last_fall = now;
        }
    }

    /// Gives a player its turn: makes the first of the moves that it has
    /// chosen, or, if none is left, lets it choose its next moves.
    pub fn replay<P: Player>(&mut self, player: &P)
        requires
            old(self)@.wf(),
        ensures
            final(self)@.wf(),
            exists|plan: Seq<Move>| final(self)@ == #[trigger] old(self)@.replayed(plan),
            old(self)@.planned.len() > 0 ==> final(self)@ == old(self)@.replayed(Seq::empty()),
    {
        if self.planned.len() > 0 {
            let mov = self.planned[0];
            self.apply(mov);
            self.planned.remove(0);
            proof {
                assert(self@.planned =~= old(self)@.planned.drop_first());
                assert(self@ == old(self)@.replayed(Seq::empty()));
            }
        } else {
            self.planned = player.choose_moves(&self.board, &self.piece);
            assert(self@ == old(self)@.replayed(self.planned@));
        }
    }

    /// One tick at time `now` in which a player makes the moves. Returns
    /// whether the session goes on.
    pub fn tick_replayed<P: Player>(&mut self, start: bool, now: u64, player: &P) -> (running:
        bool)
        requires
            old(self)@.wf(),
        ensures
            final(self)@.wf(),
            exists|drawn: Tetromino, plan: Seq<Move>|
                drawn.is_shape() && (final(self)@, running) == #[trigger] old(self)@.ticked_by_plan(
                    start,
                    now,
                    drawn,
                    plan,
                ),
    {
        let step = self.advance(start, now);
        let ghost drawn = choose|drawn: Tetromino|
            drawn.is_shape() && (self@, step) == #[trigger] old(self)@.advanced(start, now, drawn);
        let ghost middle = self@;
        let ghost mut plan = Seq::<Move>::empty();
        let running = match step {
            Step::Idle => true,
            Step::Finished => false,
            Step::Active => {
                self.replay(player);
                proof {
                    plan = choose|plan: Seq<Move>| self@ == #[trigger] middle.replayed(plan);
                }
                self.pull(now);
                true
            },
        };
        assert((self@, running) == old(self)@.ticked_by_plan(start, now, drawn, plan));
        running
    }

    /// The moves that a player has chosen and that are still to be made.
    pub fn planned(&self) -> (planned: &Vec<Move>)
        ensures
            planned@ == self@.planned,
    {
        &self.planned
    }

    /// One tick at time `now` with the keys in `controls`. Returns whether
    /// the session goes on: it ends once every piece it had has entered.
    pub fn tick(&mut self, controls: &Controls, now: u64) -> (running: bool)
        requires
            old(self)@.wf(),
        ensures
            final(self)@.wf(),
            exists|drawn: Tetromino|
                drawn.is_shape() && (final(self)@, running) == #[trigger] old(self)@.ticked(
                    *controls,
                    now,
                    drawn,
                ),
    {
        let step = self.advance(controls.start, now);
        let ghost drawn = choose|drawn: Tetromino|
            drawn.is_shape() && (self@, step) == #[trigger] old(self)@.advanced(
                controls.start,
                now,
                drawn,
            );
        let running = match step {
            Step::Idle => true,
            Step::Finished => false,
            Step::Active => {
                if controls.rotate {
                    self.apply(Move::Rotate);
                }
                if controls.down {
                    self.apply(Move::Down);
                }
                if controls.right {
                    self.apply(Move::Right);
                }
                if controls.left {
                    self.apply(Move::Left);
                }
                if controls.drop {
                    self.apply(Move::Drop);
                }
                self.pull(now);
                true
            },
        };
        assert((self@, running) == old(self)@.ticked(*controls, now, drawn));
        running
    }
}

} // verus!
