//! The falling piece: its kind, where it is, how it is turned, and the last
//! state of it that was found legal.

use crate::config::{BOARD_WIDTH, MAX_COORD, MAX_SPAN};
use crate::shape::{cells_of, quarter_turn, Cell, PieceType, Position, Rotation};
use vstd::prelude::*;

verus! {

/// Where a piece is and how it is turned.
pub struct Pose {
    /// The cell that the offsets are counted from.
    pub origin: Cell,
    /// The four blocks, relative to the origin.
    pub offsets: Seq<Cell>,
    /// Quarter turns clockwise since the default orientation, modulo 4.
    pub rotation: int,
}

/// A piece as the contracts see it.
pub struct PieceView {
    /// The kind of the piece, which it keeps.
    pub kind: PieceType,
    /// The state that moves and turns act on.
    pub current: Pose,
    /// The last state that was committed.
    pub previous: Pose,
}

/// A turn or a move of a piece.
pub enum Motion {
    /// A quarter turn.
    Turn(Rotation),
    /// A move by `dx` columns and `dy` rows.
    Shift { dx: int, dy: int },
}

/// The offset `c` after a quarter turn about the origin.
pub open spec fn turned(c: Cell, direction: Rotation) -> Cell {
    match direction {
        Rotation::Clockwise => Cell { col: -c.row, row: c.col },
        Rotation::CounterClockwise => Cell { col: c.row, row: -c.col },
    }
}

/// The rotation count `rotation` after a quarter turn.
pub open spec fn turned_count(rotation: int, direction: Rotation) -> int {
    match direction {
        Rotation::Clockwise => (rotation + 1) % 4,
        Rotation::CounterClockwise => (rotation + 3) % 4,
    }
}

impl Pose {
    /// Four distinct blocks near the origin, a rotation count below 4, and
    /// an origin within the coordinate limit.
    pub open spec fn wf(self) -> bool {
        &&& self.offsets.len() == 4
        &&& forall|i: int|
            0 <= i < 4 ==> {
                &&& -MAX_SPAN <= (#[trigger] self.offsets[i]).col <= MAX_SPAN
                &&& -MAX_SPAN <= self.offsets[i].row <= MAX_SPAN
            }
        &&& forall|i: int, j: int| 0 <= i < j < 4 ==> self.offsets[i] != self.offsets[j]
        &&& 0 <= self.rotation < 4
        &&& -MAX_COORD <= self.origin.col <= MAX_COORD
        &&& -MAX_COORD <= self.origin.row <= MAX_COORD
    }

    /// The grid coordinate of block `i`.
    pub open spec fn block(self, i: int) -> Cell {
        Cell {
            col: self.origin.col + self.offsets[i].col,
            row: self.origin.row + self.offsets[i].row,
        }
    }

    /// The grid coordinates of the blocks.
    pub open spec fn blocks(self) -> Seq<Cell> {
        Seq::new(self.offsets.len(), |i: int| self.block(i))
    }

    /// Whether one of the blocks is at `c`.
    pub open spec fn covers(self, c: Cell) -> bool {
        exists|i: int| 0 <= i < self.offsets.len() && self.block(i) == c
    }

    /// The pose after a quarter turn about the origin.
    pub open spec fn rotated(self, direction: Rotation) -> Pose {
        Pose {
            origin: self.origin,
            offsets: Seq::new(self.offsets.len(), |i: int| turned(self.offsets[i], direction)),
            rotation: turned_count(self.rotation, direction),
        }
    }

    /// The pose moved by `dx` columns and `dy` rows.
    pub open spec fn translated(self, dx: int, dy: int) -> Pose {
        Pose {
            origin: Cell { col: self.origin.col + dx, row: self.origin.row + dy },
            offsets: self.offsets,
            rotation: self.rotation,
        }
    }
}

impl PieceView {
    /// Both states of the piece are well-formed.
    pub open spec fn wf(self) -> bool {
        self.current.wf() && self.previous.wf()
    }

    /// A new piece of `kind` on a board `board_width` cells wide: in the
    /// default orientation, with its origin in the middle column of the top
    /// row, and that state committed.
    pub open spec fn spawned(kind: PieceType, board_width: int) -> PieceView {
        let pose = Pose {
            origin: Cell { col: board_width / 2, row: 0 },
            offsets: kind.default_offsets(),
            rotation: 0,
        };
        PieceView { kind, current: pose, previous: pose }
    }

    /// The piece after a quarter turn. The square piece looks the same
    /// however it is turned, and stays as it is.
    pub open spec fn rotated(self, direction: Rotation) -> PieceView {
        if self.kind == PieceType::O {
            self
        } else {
            PieceView { current: self.current.rotated(direction), ..self }
        }
    }

    /// The piece moved by `dx` columns and `dy` rows.
    pub open spec fn translated(self, dx: int, dy: int) -> PieceView {
        PieceView { current: self.current.translated(dx, dy), ..self }
    }

    /// The piece after the turns and moves `motions`, first to last.
    pub open spec fn after(self, motions: Seq<Motion>) -> PieceView
        decreases motions.len(),
    {
        if motions.len() == 0 {
            self
        } else {
            let before = self.after(motions.drop_last());
            match motions.last() {
                Motion::Turn(direction) => before.rotated(direction),
                Motion::Shift { dx, dy } => before.translated(dx, dy),
            }
        }
    }

    /// The piece with its current state committed.
    pub open spec fn committed(self) -> PieceView {
        PieceView { previous: self.current, ..self }
    }

    /// The piece back in the state that was last committed.
    pub open spec fn rolled_back(self) -> PieceView {
        PieceView { current: self.previous, ..self }
    }

    /// Whether the piece is lower than in the state that was last committed.
    pub open spec fn descending(self) -> bool {
        self.current.origin.row > self.previous.origin.row
    }
}

/// Where a piece is and how it is turned, as the program holds it.
#[derive(Clone, Copy, Debug)]
struct Placement {
    position: Position,
    blocks: [Position; 4],
    rotation: u8,
}

impl Placement {
    spec fn pose(self) -> Pose {
        Pose {
            origin: self.position@,
            offsets: cells_of(self.blocks@),
            rotation: self.rotation as int,
        }
    }
}

/// The piece that is falling.
#[derive(Clone, Copy, Debug)]
pub struct Piece {
    piece_type: PieceType,
    current: Placement,
    previous: Placement,
}

impl View for Piece {
    type V = PieceView;

    closed spec fn view(&self) -> PieceView {
        PieceView {
            kind: self.piece_type,
            current: self.current.pose(),
            previous: self.previous.pose(),
        }
    }
}

/// The offset `p` after a quarter turn about the origin.
fn turn(p: Position, direction: Rotation) -> (r: Position)
    requires
        -MAX_SPAN <= p.x <= MAX_SPAN,
        -MAX_SPAN <= p.y <= MAX_SPAN,
    ensures
        r@ == turned(p@, direction),
{
    match direction {
        Rotation::Clockwise => Position { x: -p.y, y: p.x },
        Rotation::CounterClockwise => Position { x: p.y, y: -p.x },
    }
}

impl Piece {
    /// A new piece of `kind` for a board `board_width` cells wide.
    pub fn spawn(kind: PieceType, board_width: usize) -> (piece: Piece)
        requires
            board_width / 2 <= MAX_COORD,
        ensures
            piece@ == PieceView::spawned(kind, board_width as int),
            piece@.wf(),
    {
        let placement = Placement {
            position: Position { x: (board_width / 2) as i16, y: 0 },
            blocks: kind.offsets(),
            rotation: 0,
        };
        Piece { piece_type: kind, current: placement, previous: placement }
    }

    /// A new piece of a kind drawn at random, for the default board.
    pub fn new() -> (piece: Piece)
        ensures
            exists|kind: PieceType| piece@ == PieceView::spawned(kind, BOARD_WIDTH as int),
            piece@.wf(),
    {
        Piece::spawn(PieceType::random(), BOARD_WIDTH)
    }

    /// Turns the piece a quarter turn about its origin. Whether the piece
    /// fits where it now is, is not looked at.
    pub fn rotate(&mut self, direction: Rotation)
        requires
            old(self)@.wf(),
        ensures
            final(self)@ == old(self)@.rotated(direction),
            final(self)@.wf(),
    {
        match self.piece_type {
            PieceType::O => {},
            _ => {
                let b = self.current.blocks;
                assert forall|i: int| 0 <= i < 4 implies {
                    &&& -MAX_SPAN <= (#[trigger] b@[i]).x <= MAX_SPAN
                    &&& -MAX_SPAN <= b@[i].y <= MAX_SPAN
                } by {
                    assert(b@[i]@ == old(self)@.current.offsets[i]);
                }
                self.current.blocks = [
                    turn(b[0], direction),
                    turn(b[1], direction),
                    turn(b[2], direction),
                    turn(b[3], direction),
                ];
                self.current.rotation = match direction {
                    Rotation::Clockwise => (self.current.rotation + 1) % 4,
                    Rotation::CounterClockwise => (self.current.rotation + 3) % 4,
                };
                assert(self@.current.offsets =~= old(self)@.current.rotated(direction).offsets);
            },
        }
    }

    /// Moves the piece by `dx` columns and `dy` rows. Whether the piece fits
    /// where it now is, is not looked at.
    pub fn translate(&mut self, dx: i16, dy: i16)
        requires
            old(self)@.wf(),
            -MAX_COORD <= old(self)@.current.origin.col + dx <= MAX_COORD,
            -MAX_COORD <= old(self)@.current.origin.row + dy <= MAX_COORD,
        ensures
            final(self)@ == old(self)@.translated(dx as int, dy as int),
            final(self)@.wf(),
    {
        self.current.position = Position {
            x: self.current.position.x + dx,
            y: self.current.position.y + dy,
        };
    }

    /// The grid coordinates of the four blocks.
    pub fn block_positions(&self) -> (blocks: [Position; 4])
        requires
            self@.wf(),
        ensures
            cells_of(blocks@) == self@.current.blocks(),
    {
        let origin = self.current.position;
        let b = self.current.blocks;
        assert forall|i: int| 0 <= i < 4 implies {
            &&& -MAX_SPAN <= (#[trigger] b@[i]).x <= MAX_SPAN
            &&& -MAX_SPAN <= b@[i].y <= MAX_SPAN
        } by {
            assert(b@[i]@ == self@.current.offsets[i]);
        }
        let blocks = [
            Position { x: origin.x + b[0].x, y: origin.y + b[0].y },
            Position { x: origin.x + b[1].x, y: origin.y + b[1].y },
            Position { x: origin.x + b[2].x, y: origin.y + b[2].y },
            Position { x: origin.x + b[3].x, y: origin.y + b[3].y },
        ];
        assert(cells_of(blocks@) =~= self@.current.blocks());
        blocks
    }

    /// Whether the piece is lower than in the state that was last committed.
    pub fn is_descending(&self) -> (descending: bool)
        ensures
            descending == self@.descending(),
    {
        self.current.position.y > self.previous.position.y
    }

    /// The kind of the piece.
    pub fn piece_type(&self) -> (kind: PieceType)
        ensures
            kind == self@.kind,
    {
        self.piece_type
    }

    /// The origin of the piece.
    pub fn position(&self) -> (origin: Position)
        ensures
            origin@ == self@.current.origin,
    {
        self.current.position
    }

    /// Quarter turns clockwise since the default orientation, modulo 4.
    pub fn rotation(&self) -> (count: u8)
        ensures
            count == self@.current.rotation,
    {
        self.current.rotation
    }

    /// Records the current state as the one to come back to.
    pub fn commit_valid_state(&mut self)
        ensures
            final(self)@ == old(self)@.committed(),
    {
        self.previous = self.current;
    }

    /// Brings the piece back to the state that was last committed.
    pub fn rollback(&mut self)
        ensures
            final(self)@ == old(self)@.rolled_back(),
    {
        self.current = self.previous;
    }
}

/// Four quarter turns clockwise bring a piece back to the offsets and the
/// rotation count that it had. The square piece is back after one turn, in
/// either direction.
pub proof fn lemma_four_turns_restore(piece: PieceView, direction: Rotation)
    requires
        piece.wf(),
    ensures
        piece.rotated(Rotation::Clockwise).rotated(Rotation::Clockwise).rotated(
            Rotation::Clockwise,
        ).rotated(Rotation::Clockwise) == piece,
        piece.kind == PieceType::O ==> piece.rotated(direction) == piece,
{
    let once = piece.current.rotated(Rotation::Clockwise);
    let twice = once.rotated(Rotation::Clockwise);
    let thrice = twice.rotated(Rotation::Clockwise);
    let round = thrice.rotated(Rotation::Clockwise);
    assert(round.offsets =~= piece.current.offsets);
    assert(round == piece.current);
}

/// Whatever turns and moves follow a commit, a rollback brings back the
/// state that was committed.
pub proof fn lemma_rollback_restores_commit(piece: PieceView, motions: Seq<Motion>)
    ensures
        piece.committed().after(motions).rolled_back() == piece.committed(),
{
    lemma_motions_keep_commit(piece.committed(), motions);
}

/// Turns and moves change neither the kind nor the state last committed.
proof fn lemma_motions_keep_commit(piece: PieceView, motions: Seq<Motion>)
    ensures
        piece.after(motions).kind == piece.kind,
        piece.after(motions).previous == piece.previous,
    decreases motions.len(),
{
    if motions.len() > 0 {
        lemma_motions_keep_commit(piece, motions.drop_last());
    }
}

/// The two ways of turning agree. Where the layout `mask` has the cell
/// `c`, its quarter turn clockwise has the same value at the offset that
/// `c` turns to, moved right by the height of `mask` less one.
pub proof fn lemma_quarter_turn_agrees(mask: Seq<Seq<bool>>, c: Cell)
    requires
        0 <= c.row < mask.len(),
        0 <= c.col < mask[0].len(),
    ensures
        quarter_turn(mask)[turned(c, Rotation::Clockwise).row][turned(c, Rotation::Clockwise).col
            + mask.len() - 1] == mask[c.row][c.col],
{
}

} // verus!
