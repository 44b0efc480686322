//! The game: a board, the piece that is falling, the gravity timer, and the
//! order in which a tick applies requests, gravity and the resolver.

use crate::board::{GameBoard, Grid};
use crate::config::{BOARD_HEIGHT, BOARD_WIDTH, MAX_DIMENSION, MAX_SPAN};
use crate::piece::{Piece, PieceView, Pose};
use crate::resolver::{legal, resolution, resolve, resolved_grid, resolved_piece, Resolution};
use crate::shape::{cells_of, PieceColor, PieceType, Position, Rotation};
use crate::timer::{MovementTimer, TimerState, DEFAULT_INTERVAL};
use vstd::prelude::*;

verus! {

/// A request to move the piece sideways by one column. Columns are counted
/// from the player's right to the player's left.
#[derive(Clone, Copy, Debug, PartialEq, Eq, Structural)]
pub enum Lateral {
    /// To the left: the column grows by one.
    Left,
    /// To the right: the column shrinks by one.
    Right,
}

impl Lateral {
    /// The change of column that the request asks for.
    pub open spec fn dx(self) -> int {
        match self {
            Lateral::Left => 1,
            Lateral::Right => -1,
        }
    }
}

/// What the player asked for since the last tick: at most one turn and at
/// most one sideways move.
#[derive(Clone, Copy, Debug)]
pub struct InputRequests {
    /// The turn asked for, if any.
    pub rotation: Option<Rotation>,
    /// The sideways move asked for, if any.
    pub lateral: Option<Lateral>,
}

/// How a tick ended.
#[derive(Clone, Copy, Debug, PartialEq, Eq, Structural)]
pub enum TickOutcome {
    /// The game goes on with the piece that is falling, or with a new one.
    Continue,
    /// The piece came to rest; so many full rows were removed.
    PieceLocked(usize),
    /// The game is over.
    GameOver,
}

/// The piece with the requests of one tick applied, in their order: the
/// turn, the sideways move, and one row down where `fall` holds.
pub open spec fn requested(piece: PieceView, input: InputRequests, fall: bool) -> PieceView {
    let turned = match input.rotation {
        Some(direction) => piece.rotated(direction),
        None => piece,
    };
    let shifted = match input.lateral {
        Some(side) => turned.translated(side.dx(), 0),
        None => turned,
    };
    if fall {
        shifted.translated(0, 1)
    } else {
        shifted
    }
}

/// A piece between two ticks: in the state last committed, with its origin
/// no higher than the top row and near the columns and rows of a board.
pub open spec fn in_play(piece: PieceView) -> bool {
    &&& piece.wf()
    &&& piece.current == piece.previous
    &&& -MAX_SPAN <= piece.current.origin.col <= MAX_DIMENSION + MAX_SPAN
    &&& 0 <= piece.current.origin.row <= MAX_DIMENSION + MAX_SPAN
}

/// A game as the contracts see it.
pub struct GameView {
    /// The settled blocks.
    pub board: Grid,
    /// The piece that is falling, if there is one.
    pub active: Option<PieceView>,
    /// The gravity timer.
    pub timer: TimerState,
    /// Whether the game is over.
    pub over: bool,
}

impl GameView {
    /// The board and the timer are well-formed, and the piece that is
    /// falling is in play.
    pub open spec fn wf(self) -> bool {
        &&& self.board.wf()
        &&& self.timer.wf()
        &&& self.active matches Some(piece) ==> in_play(piece)
    }

    /// How a tick ends after `elapsed` more time and with the requests
    /// `input`.
    pub open spec fn outcome(self, elapsed: nat, input: InputRequests) -> TickOutcome {
        if self.over {
            TickOutcome::GameOver
        } else {
            match self.active {
                None => TickOutcome::Continue,
                Some(piece) => {
                    let tentative = requested(piece, input, self.timer.fires(elapsed));
                    match resolution(tentative, self.board) {
                        Resolution::Moved | Resolution::Rejected => TickOutcome::Continue,
                        Resolution::Locked => TickOutcome::PieceLocked(
                            resolved_grid(tentative, self.board).full_rows() as usize,
                        ),
                        Resolution::ToppedOut | Resolution::Unfit => TickOutcome::GameOver,
                    }
                },
            }
        }
    }

    /// The game after a tick. A game that is over stays as it is. Without
    /// a falling piece, one of `next_kind` is spawned and nothing else
    /// happens. Otherwise the requests and gravity are applied to the piece
    /// and the resolver looks at it; where the piece comes to rest, line
    /// clearing follows and the piece is gone.
    pub open spec fn stepped(
        self,
        elapsed: nat,
        input: InputRequests,
        next_kind: PieceType,
    ) -> GameView {
        if self.over {
            self
        } else {
            match self.active {
                None => GameView {
                    active: Some(PieceView::spawned(next_kind, self.board.width() as int)),
                    ..self
                },
                Some(piece) => {
                    let tentative = requested(piece, input, self.timer.fires(elapsed));
                    let timer = self.timer.advanced(elapsed);
                    match resolution(tentative, self.board) {
                        Resolution::Moved | Resolution::Rejected => GameView {
                            active: Some(resolved_piece(tentative, self.board)),
                            timer,
                            ..self
                        },
                        Resolution::Locked => GameView {
                            board: resolved_grid(tentative, self.board).compacted(),
                            active: None,
                            timer,
                            over: false,
                        },
                        Resolution::ToppedOut => GameView {
                            board: resolved_grid(tentative, self.board).compacted(),
                            active: None,
                            timer,
                            over: true,
                        },
                        Resolution::Unfit => GameView {
                            active: Some(resolved_piece(tentative, self.board)),
                            timer,
                            over: true,
                            ..self
                        },
                    }
                },
            }
        }
    }
}

/// The game.
#[derive(Debug)]
pub struct Game {
    board: GameBoard,
    active: Option<Piece>,
    timer: MovementTimer,
    over: bool,
}

impl View for Game {
    type V = GameView;

    closed spec fn view(&self) -> GameView {
        GameView {
            board: self.board@,
            active: match self.active {
                Some(piece) => Some(piece@),
                None => None,
            },
            timer: self.timer@,
            over: self.over,
        }
    }
}

/// A piece that fits on a board has its origin near the board.
proof fn lemma_legal_near_board(grid: Grid, pose: Pose)
    requires
        grid.wf(),
        pose.wf(),
        legal(grid, pose),
    ensures
        -MAX_SPAN <= pose.origin.col <= MAX_DIMENSION + MAX_SPAN,
        pose.origin.row <= MAX_DIMENSION + MAX_SPAN,
{
    assert(grid.admits(pose.block(0)));
}

impl Game {
    /// A game on the empty board of the default size, with the default
    /// interval between two gravity steps and no piece yet.
    pub fn new() -> (game: Game)
        ensures
            game@ == (GameView {
                board: Grid::empty(BOARD_WIDTH as nat, BOARD_HEIGHT as nat),
                active: None,
                timer: TimerState { interval: DEFAULT_INTERVAL as nat, elapsed: 0 },
                over: false,
            }),
            game@.wf(),
    {
        Game {
            board: GameBoard::new(),
            active: None,
            timer: MovementTimer::new(DEFAULT_INTERVAL),
            over: false,
        }
    }

    /// A game on `board`, with `interval` microseconds between two gravity
    /// steps and no piece yet.
    pub fn with_board(board: GameBoard, interval: u64) -> (game: Game)
        requires
            board@.wf(),
        ensures
            game@ == (GameView {
                board: board@,
                active: None,
                timer: TimerState { interval: interval as nat, elapsed: 0 },
                over: false,
            }),
            game@.wf(),
    {
        Game { board, active: None, timer: MovementTimer::new(interval), over: false }
    }

    /// Spawns a piece of `kind`, unless a piece is falling or the game is
    /// over: then nothing changes and the answer is `false`.
    pub fn spawn(&mut self, kind: PieceType) -> (spawned: bool)
        requires
            old(self)@.wf(),
        ensures
            final(self)@.wf(),
            spawned == (old(self)@.active is None && !old(self)@.over),
            spawned ==> final(self)@ == (GameView {
                active: Some(PieceView::spawned(kind, old(self)@.board.width() as int)),
                ..old(self)@
            }),
            !spawned ==> final(self)@ == old(self)@,
    {
        if self.over || self.active.is_some() {
            false
        } else {
            self.active = Some(Piece::spawn(kind, self.board.width()));
            true
        }
    }

    /// A tick of a game that is not over and has the piece `falling`.
    fn advance(&mut self, elapsed: u64, input: InputRequests, falling: Piece) -> (outcome:
        TickOutcome)
        requires
            old(self)@.wf(),
            !old(self)@.over,
            old(self)@.active == Some(falling@),
        ensures
            final(self)@.wf(),
            outcome == old(self)@.outcome(elapsed as nat, input),
            forall|kind: PieceType| final(self)@ == old(self)@.stepped(elapsed as nat, input, kind),
    {
        let mut piece = falling;
        match input.rotation {
            Some(direction) => {
                piece.rotate(direction);
            },
            None => {},
        }
        match input.lateral {
            Some(Lateral::Left) => {
                piece.translate(1, 0);
            },
            Some(Lateral::Right) => {
                piece.translate(-1, 0);
            },
            None => {},
        }
        if self.timer.tick(elapsed) {
            piece.translate(0, 1);
        }
        let ghost tentative = piece@;
        assert(tentative == requested(falling@, input, old(self)@.timer.fires(elapsed as nat)));
        match resolve(&mut piece, &mut self.board) {
            Resolution::Moved => {
                proof {
                    lemma_legal_near_board(old(self)@.board, tentative.current);
                }
                self.active = Some(piece);
                TickOutcome::Continue
            },
            Resolution::Rejected => {
                self.active = Some(piece);
                TickOutcome::Continue
            },
            Resolution::Locked => {
                let cleared = self.board.clear_lines();
                self.active = None;
                TickOutcome::PieceLocked(cleared)
            },
            Resolution::ToppedOut => {
                self.board.clear_lines();
                self.active = None;
                self.over = true;
                TickOutcome::GameOver
            },
            Resolution::Unfit => {
                self.active = Some(piece);
                self.over = true;
                TickOutcome::GameOver
            },
        }
    }

    /// One tick, with `next_kind` for the piece to spawn where none is
    /// falling. `elapsed` is the time since the tick before, in
    /// microseconds.
    pub fn step(&mut self, elapsed: u64, input: InputRequests, next_kind: PieceType) -> (outcome:
        TickOutcome)
        requires
            old(self)@.wf(),
        ensures
            final(self)@.wf(),
            outcome == old(self)@.outcome(elapsed as nat, input),
            final(self)@ == old(self)@.stepped(elapsed as nat, input, next_kind),
    {
        if self.over {
            return TickOutcome::GameOver;
        }
        match self.active {
            None => {
                self.active = Some(Piece::spawn(next_kind, self.board.width()));
                TickOutcome::Continue
            },
            Some(falling) => self.advance(elapsed, input, falling),
        }
    }

    /// One tick, with a kind drawn at random for the piece to spawn where
    /// none is falling.
    pub fn tick(&mut self, elapsed: u64, input: InputRequests) -> (outcome: TickOutcome)
        requires
            old(self)@.wf(),
        ensures
            final(self)@.wf(),
            outcome == old(self)@.outcome(elapsed as nat, input),
            exists|kind: PieceType| final(self)@ == old(self)@.stepped(elapsed as nat, input, kind),
    {
        if self.over {
            assert(self@ == old(self)@.stepped(elapsed as nat, input, PieceType::O));
            return TickOutcome::GameOver;
        }
        match self.active {
            None => {
                let kind = PieceType::random();
                self.active = Some(Piece::spawn(kind, self.board.width()));
                assert(self@ == old(self)@.stepped(elapsed as nat, input, kind));
                TickOutcome::Continue
            },
            Some(falling) => {
                let outcome = self.advance(elapsed, input, falling);
                assert(self@ == old(self)@.stepped(elapsed as nat, input, PieceType::O));
                outcome
            },
        }
    }

    /// The board.
    pub fn board(&self) -> (board: &GameBoard)
        ensures
            board@ == self@.board,
    {
        &self.board
    }

    /// The piece that is falling, if there is one.
    pub fn active_piece(&self) -> (piece: Option<Piece>)
        ensures
            piece is Some == self@.active is Some,
            piece is Some ==> piece->0@ == self@.active->0,
    {
        self.active
    }

    /// The grid coordinates of the four blocks of the piece that is
    /// falling, and its colour.
    pub fn active_blocks(&self) -> (shown: Option<([Position; 4], PieceColor)>)
        requires
            self@.wf(),
        ensures
            shown is Some == self@.active is Some,
            shown matches Some((blocks, color)) ==> cells_of(blocks@)
                == self@.active->0.current.blocks() && color == self@.active->0.kind.color(),
    {
        match self.active {
            Some(piece) => Some((piece.block_positions(), piece.piece_type().get_color())),
            None => None,
        }
    }

    /// Whether no piece is falling.
    pub fn no_active_piece(&self) -> (none: bool)
        ensures
            none == self@.active is None,
    {
        self.active.is_none()
    }

    /// Whether the game is over.
    pub fn is_over(&self) -> (over: bool)
        ensures
            over == self@.over,
    {
        self.over
    }

    /// The gravity timer.
    pub fn timer(&self) -> (timer: MovementTimer)
        ensures
            timer@ == self@.timer,
    {
        self.timer
    }
}

} // verus!
