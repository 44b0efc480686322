//! The collision resolver: whether the piece fits where it is, and what
//! becomes of it and of the board where it does not.

use crate::board::{GameBoard, Grid};
use crate::piece::{Piece, PieceView, Pose};
use crate::shape::{cells_of, Cell, PieceType, Position};
use vstd::prelude::*;

verus! {

/// What the resolver found.
#[derive(Clone, Copy, Debug, PartialEq, Eq, Structural)]
pub enum Resolution {
    /// The piece fits where it is; that state is now committed.
    Moved,
    /// The piece did not fit and is back in the state last committed.
    Rejected,
    /// The piece could not fall further; its blocks are on the board.
    Locked,
    /// The piece could not fall further and has a block above the top row;
    /// its other blocks are on the board. The game is over.
    ToppedOut,
    /// The piece did not fit, and neither does the state last committed:
    /// it never fitted. The game is over.
    Unfit,
}

/// Whether every block of `pose` may be where it is.
pub open spec fn legal(grid: Grid, pose: Pose) -> bool {
    forall|i: int| 0 <= i < pose.offsets.len() ==> grid.admits(#[trigger] pose.block(i))
}

/// Whether `pose` cannot go down by one row.
pub open spec fn blocked_below(grid: Grid, pose: Pose) -> bool {
    !legal(grid, pose.translated(0, 1))
}

/// Whether a block of `pose` lies above the top row.
pub open spec fn above_top(pose: Pose) -> bool {
    exists|i: int| 0 <= i < pose.offsets.len() && (#[trigger] pose.block(i)).row < 0
}

/// Whether a block of `pose` lies in no column of the board.
pub open spec fn beside_board(grid: Grid, pose: Pose) -> bool {
    exists|i: int|
        0 <= i < pose.offsets.len() && ((#[trigger] pose.block(i)).col < 0 || pose.block(i).col
            >= grid.width())
}

/// Whether a block of `pose` lies below the bottom row or in a cell that
/// holds a block.
pub open spec fn obstructed(grid: Grid, pose: Pose) -> bool {
    exists|i: int|
        0 <= i < pose.offsets.len() && ((#[trigger] pose.block(i)).row >= grid.height()
            || grid.occupied(pose.block(i)))
}

/// Whether the piece comes to rest: it does not fit where it is, it was on
/// its way down, and the state it goes back to fits but cannot go down.
pub open spec fn settles(piece: PieceView, grid: Grid) -> bool {
    &&& !legal(grid, piece.current)
    &&& legal(grid, piece.previous)
    &&& piece.descending()
    &&& blocked_below(grid, piece.previous)
}

/// What the resolver finds for `piece` on `grid`.
pub open spec fn resolution(piece: PieceView, grid: Grid) -> Resolution {
    if legal(grid, piece.current) {
        Resolution::Moved
    } else if !legal(grid, piece.previous) {
        Resolution::Unfit
    } else if settles(piece, grid) {
        if above_top(piece.previous) {
            Resolution::ToppedOut
        } else {
            Resolution::Locked
        }
    } else {
        Resolution::Rejected
    }
}

/// The piece after the resolver has looked at it.
pub open spec fn resolved_piece(piece: PieceView, grid: Grid) -> PieceView {
    if legal(grid, piece.current) {
        piece.committed()
    } else {
        piece.rolled_back()
    }
}

/// The board after the resolver has looked at `piece`: where the piece
/// comes to rest, its blocks are on the board, but for those above the top
/// row.
pub open spec fn resolved_grid(piece: PieceView, grid: Grid) -> Grid {
    if settles(piece, grid) {
        grid.with_blocks(piece.previous.blocks(), piece.kind)
    } else {
        grid
    }
}

/// Whether each of the four `blocks` may be where it is.
pub fn fits(board: &GameBoard, blocks: &[Position; 4]) -> (free: bool)
    requires
        board@.wf(),
    ensures
        free == forall|i: int| 0 <= i < 4 ==> board@.admits(#[trigger] cells_of(blocks@)[i]),
{
    let free = board.admits(blocks[0]) && board.admits(blocks[1]) && board.admits(blocks[2])
        && board.admits(blocks[3]);
    proof {
        let cells = cells_of(blocks@);
        assert(cells[0] == blocks@[0]@ && cells[1] == blocks@[1]@ && cells[2] == blocks@[2]@
            && cells[3] == blocks@[3]@);
    }
    free
}

/// Adding the first `n + 1` of `blocks` to a board is adding the first `n`
/// and then placing block `n`, where that one is on the board.
proof fn lemma_one_more_block(grid: Grid, blocks: Seq<Cell>, n: int, kind: PieceType)
    requires
        grid.wf(),
        0 <= n < blocks.len(),
    ensures
        grid.with_blocks(blocks.take(n + 1), kind) == if grid.in_bounds(blocks[n]) {
            grid.with_blocks(blocks.take(n), kind).placed(blocks[n], kind)
        } else {
            grid.with_blocks(blocks.take(n), kind)
        },
{
    let fewer = blocks.take(n);
    let more = blocks.take(n + 1);
    let target = if grid.in_bounds(blocks[n]) {
        grid.with_blocks(fewer, kind).placed(blocks[n], kind)
    } else {
        grid.with_blocks(fewer, kind)
    };
    assert(more =~= fewer.push(blocks[n]));
    assert forall|c: Cell| more.contains(c) <==> (fewer.contains(c) || c == blocks[n]) by {
        if fewer.contains(c) {
            let k = choose|k: int| 0 <= k < fewer.len() && fewer[k] == c;
            assert(more[k] == c);
        }
        if c == blocks[n] {
            assert(more[n] == c);
        }
    }
    assert forall|r: int| 0 <= r < grid.rows.len() implies #[trigger] grid.with_blocks(
        more,
        kind,
    ).rows[r] =~= target.rows[r] by {
        assert(grid.rows[r].len() == grid.width());
        assert forall|c: int| 0 <= c < grid.rows[r].len() implies grid.with_blocks(
            more,
            kind,
        ).rows[r][c] == target.rows[r][c] by {
            let cell = Cell { col: c, row: r };
            assert(more.contains(cell) <==> (fewer.contains(cell) || cell == blocks[n]));
        }
    }
    assert(grid.with_blocks(more, kind).rows =~= target.rows);
}

/// Puts a block of `kind` into each cell of the board that is among
/// `blocks`, and says whether one of `blocks` lies above the top row.
fn settle(board: &mut GameBoard, blocks: &[Position; 4], kind: PieceType) -> (above: bool)
    requires
        old(board)@.wf(),
        forall|i: int| 0 <= i < 4 ==> old(board)@.admits(#[trigger] cells_of(blocks@)[i]),
        forall|i: int, j: int| 0 <= i < j < 4 ==> cells_of(blocks@)[i] != cells_of(blocks@)[j],
    ensures
        final(board)@.wf(),
        final(board)@ == old(board)@.with_blocks(cells_of(blocks@), kind),
        above == exists|i: int| 0 <= i < 4 && (#[trigger] cells_of(blocks@)[i]).row < 0,
{
    let ghost cells = cells_of(blocks@);
    let ghost start = board@;
    let mut above = false;
    let mut i: usize = 0;
    assert(board@.rows =~= start.with_blocks(cells.take(0), kind).rows) by {
        assert forall|r: int| 0 <= r < start.rows.len() implies start.rows[r] =~= start.with_blocks(
            cells.take(0),
            kind,
        ).rows[r] by {}
    }
    while i < 4
        invariant
            i <= 4,
            start.wf(),
            board@.wf(),
            cells == cells_of(blocks@),
            cells.len() == 4,
            forall|k: int| 0 <= k < 4 ==> start.admits(#[trigger] cells[k]),
            forall|k: int, j: int| 0 <= k < j < 4 ==> cells[k] != cells[j],
            board@ == start.with_blocks(cells.take(i as int), kind),
            above == exists|k: int| 0 <= k < i && (#[trigger] cells[k]).row < 0,
        decreases 4 - i,
    {
        let p = blocks[i];
        proof {
            assert(p@ == cells[i as int]);
            assert(start.admits(cells[i as int]));
            lemma_one_more_block(start, cells, i as int, kind);
        }
        if p.y < 0 {
            above = true;
        } else {
            proof {
                let earlier = cells.take(i as int);
                if earlier.contains(p@) {
                    let k = choose|k: int| 0 <= k < earlier.len() && earlier[k] == p@;
                    assert(cells[k] == cells[i as int]);
                }
                assert(start.rows[p@.row].len() == start.width());
            }
            let _ = board.place(p, kind);
        }
        i += 1;
    }
    assert(cells.take(4) =~= cells);
    above
}

/// Looks at the piece where it now is. Where it fits, that state is
/// committed. Where it does not, the piece goes back to the state last
/// committed; if it was on its way down and cannot go down from there, it
/// comes to rest, and those of its blocks that are not above the top row are
/// put on the board.
pub fn resolve(piece: &mut Piece, board: &mut GameBoard) -> (found: Resolution)
    requires
        old(piece)@.wf(),
        old(board)@.wf(),
    ensures
        final(piece)@.wf(),
        final(board)@.wf(),
        found == resolution(old(piece)@, old(board)@),
        final(piece)@ == resolved_piece(old(piece)@, old(board)@),
        final(board)@ == resolved_grid(old(piece)@, old(board)@),
{
    let blocks = piece.block_positions();
    proof {
        lemma_legal_by_cells(board@, piece@.current);
    }
    if fits(board, &blocks) {
        piece.commit_valid_state();
        return Resolution::Moved;
    }
    let descending = piece.is_descending();
    piece.rollback();
    let blocks = piece.block_positions();
    proof {
        lemma_legal_by_cells(board@, piece@.current);
    }
    if !fits(board, &blocks) {
        return Resolution::Unfit;
    }
    if !descending {
        return Resolution::Rejected;
    }
    assert forall|i: int| 0 <= i < 4 implies (#[trigger] blocks@[i]).y < i16::MAX by {
        assert(blocks@[i]@ == piece@.current.blocks()[i]);
        assert(piece@.current.blocks()[i] == piece@.current.block(i));
        assert(piece@.current.offsets[i].row <= 3);
    }
    let below = [
        Position { x: blocks[0].x, y: blocks[0].y + 1 },
        Position { x: blocks[1].x, y: blocks[1].y + 1 },
        Position { x: blocks[2].x, y: blocks[2].y + 1 },
        Position { x: blocks[3].x, y: blocks[3].y + 1 },
    ];
    proof {
        let lower = piece@.current.translated(0, 1);
        assert forall|i: int| 0 <= i < 4 implies cells_of(below@)[i] == lower.blocks()[i] by {
            assert(blocks@[i]@ == piece@.current.blocks()[i]);
            assert(piece@.current.blocks()[i] == piece@.current.block(i));
            assert(lower.blocks()[i] == lower.block(i));
        }
        assert(cells_of(below@) =~= lower.blocks());
        lemma_legal_by_cells(board@, piece@.current.translated(0, 1));
    }
    if fits(board, &below) {
        return Resolution::Rejected;
    }
    proof {
        lemma_blocks_distinct(piece@.current);
        lemma_above_by_cells(piece@.current);
    }
    let above = settle(board, &blocks, piece.piece_type());
    if above {
        Resolution::ToppedOut
    } else {
        Resolution::Locked
    }
}

/// A pose has a block above the top row where one of the cells of its four
/// blocks is.
proof fn lemma_above_by_cells(pose: Pose)
    requires
        pose.offsets.len() == 4,
    ensures
        above_top(pose) == exists|i: int| 0 <= i < 4 && (#[trigger] pose.blocks()[i]).row < 0,
{
    if above_top(pose) {
        let i = choose|i: int| 0 <= i < pose.offsets.len() && (#[trigger] pose.block(i)).row < 0;
        assert(pose.blocks()[i].row < 0);
    }
    if exists|i: int| 0 <= i < 4 && (#[trigger] pose.blocks()[i]).row < 0 {
        let i = choose|i: int| 0 <= i < 4 && (#[trigger] pose.blocks()[i]).row < 0;
        assert(pose.block(i).row < 0);
    }
}

/// The four blocks of a well-formed pose are in four cells.
proof fn lemma_blocks_distinct(pose: Pose)
    requires
        pose.wf(),
    ensures
        forall|i: int, j: int| 0 <= i < j < 4 ==> pose.blocks()[i] != pose.blocks()[j],
{
    assert forall|i: int, j: int| 0 <= i < j < 4 implies pose.blocks()[i] != pose.blocks()[j] by {
        assert(pose.offsets[i] != pose.offsets[j]);
        assert(pose.blocks()[i] == pose.block(i));
        assert(pose.blocks()[j] == pose.block(j));
    }
}

/// A pose is legal where each of the cells of its four blocks is free.
proof fn lemma_legal_by_cells(grid: Grid, pose: Pose)
    requires
        pose.offsets.len() == 4,
    ensures
        legal(grid, pose) == forall|i: int| 0 <= i < 4 ==> grid.admits(#[trigger] pose.blocks()[i]),
{
    if legal(grid, pose) {
        assert forall|i: int| 0 <= i < 4 implies grid.admits(#[trigger] pose.blocks()[i]) by {
            assert(pose.blocks()[i] == pose.block(i));
        }
    }
    if forall|i: int| 0 <= i < 4 ==> grid.admits(#[trigger] pose.blocks()[i]) {
        assert forall|i: int| 0 <= i < pose.offsets.len() implies grid.admits(
            #[trigger] pose.block(i),
        ) by {
            assert(pose.blocks()[i] == pose.block(i));
        }
    }
}

/// After the resolver has looked at a piece, the piece is in the state last
/// committed, and that state fits on the board as it was, unless the piece
/// never fitted.
pub proof fn lemma_resolved_piece_fits(piece: PieceView, grid: Grid)
    ensures
        resolved_piece(piece, grid).current == resolved_piece(piece, grid).previous,
        resolution(piece, grid) != Resolution::Unfit ==> legal(
            grid,
            resolved_piece(piece, grid).current,
        ),
{
}

/// A move that would bring a block of the piece beside the board is
/// rejected: the piece is back in the state last committed and still
/// falling, and the board is as it was. This holds of a piece whose
/// committed state fits, unless it was on its way down and cannot go down
/// from that state: then it comes to rest there.
pub proof fn lemma_move_beside_board_rejected(piece: PieceView, grid: Grid)
    requires
        piece.wf(),
        grid.wf(),
        beside_board(grid, piece.current),
        legal(grid, piece.previous),
        !(piece.descending() && blocked_below(grid, piece.previous)),
    ensures
        resolution(piece, grid) == Resolution::Rejected,
        resolved_piece(piece, grid) == piece.rolled_back(),
        resolved_grid(piece, grid) == grid,
{
    let i = choose|i: int|
        0 <= i < piece.current.offsets.len() && ((#[trigger] piece.current.block(i)).col < 0
            || piece.current.block(i).col >= grid.width());
    assert(!grid.admits(piece.current.block(i)));
}

/// A move that would bring a block of the piece below the bottom row or
/// onto a block locks the piece: it goes back to the state last committed
/// and its four blocks are written into four cells of the board that were
/// empty; every other cell is as it was. This holds of a piece on its way
/// down whose committed state fits, cannot go down and has no block above
/// the top row.
pub proof fn lemma_obstructed_fall_locks(piece: PieceView, grid: Grid)
    requires
        piece.wf(),
        grid.wf(),
        obstructed(grid, piece.current),
        legal(grid, piece.previous),
        piece.descending(),
        blocked_below(grid, piece.previous),
        !above_top(piece.previous),
    ensures
        resolution(piece, grid) == Resolution::Locked,
        resolved_piece(piece, grid) == piece.rolled_back(),
        resolved_grid(piece, grid).wf(),
        resolved_grid(piece, grid).width() == grid.width(),
        resolved_grid(piece, grid).height() == grid.height(),
        forall|i: int|
            0 <= i < 4 ==> {
                &&& grid.in_bounds(#[trigger] piece.previous.block(i))
                &&& grid.at(piece.previous.block(i)) is None
                &&& resolved_grid(piece, grid).at(piece.previous.block(i)) == Some(piece.kind)
            },
        forall|i: int, j: int|
            0 <= i < j < 4 ==> piece.previous.block(i) != piece.previous.block(j),
        forall|c: Cell|
            grid.in_bounds(c) && !piece.previous.covers(c) ==> #[trigger] resolved_grid(
                piece,
                grid,
            ).at(c) == grid.at(c),
{
    let i = choose|i: int|
        0 <= i < piece.current.offsets.len() && ((#[trigger] piece.current.block(i)).row
            >= grid.height() || grid.occupied(piece.current.block(i)));
    assert(!grid.admits(piece.current.block(i)));
    let rest = piece.previous;
    let after = resolved_grid(piece, grid);
    assert(after == grid.with_blocks(rest.blocks(), piece.kind));
    assert(after.rows[0].len() == grid.rows[0].len());
    assert forall|i: int| 0 <= i < 4 implies {
        &&& grid.in_bounds(#[trigger] rest.block(i))
        &&& grid.at(rest.block(i)) is None
        &&& after.at(rest.block(i)) == Some(piece.kind)
    } by {
        assert(grid.admits(rest.block(i)));
        assert(rest.block(i).row >= 0);
        assert(rest.blocks()[i] == rest.block(i));
        assert(grid.rows[rest.block(i).row].len() == grid.width());
    }
    assert forall|i: int, j: int| 0 <= i < j < 4 implies rest.block(i) != rest.block(j) by {
        assert(rest.offsets[i] != rest.offsets[j]);
    }
    assert forall|c: Cell| grid.in_bounds(c) && !rest.covers(c) implies #[trigger] after.at(c)
        == grid.at(c) by {
        assert(grid.rows[c.row].len() == grid.width());
        if rest.blocks().contains(c) {
            let k = choose|k: int| 0 <= k < rest.blocks().len() && rest.blocks()[k] == c;
            assert(rest.block(k) == c);
        }
    }
}

} // verus!
