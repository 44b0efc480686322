//! Line clearing: full rows are removed and the rows above them move down.

use crate::board::{empty_row, row_full, GameBoard, Grid};
use crate::shape::PieceType;
use vstd::prelude::*;

verus! {

/// The rows that line clearing keeps: those with an empty cell.
pub open spec fn row_kept() -> spec_fn(Seq<Option<PieceType>>) -> bool {
    |row: Seq<Option<PieceType>>| !row_full(row)
}

impl Grid {
    /// The number of full rows below row `row`.
    pub open spec fn full_rows_below(self, row: int) -> nat {
        Grid { rows: self.rows.subrange(row + 1, self.rows.len() as int) }.full_rows()
    }

    /// The number of rows in which every cell is occupied.
    pub open spec fn full_rows(self) -> nat {
        (self.rows.len() - self.rows.filter(row_kept()).len()) as nat
    }

    /// The board after line clearing: the full rows are gone, the others
    /// keep their order and lie at the bottom, and as many empty rows as
    /// were removed lie at the top.
    pub open spec fn compacted(self) -> Grid {
        Grid {
            rows: Seq::new(self.full_rows(), |r: int| empty_row(self.width())) + self.rows.filter(
                row_kept(),
            ),
        }
    }
}

impl GameBoard {
    /// Line clearing. Scans the rows from the bottom up; removes each full
    /// row, moves the rows above it down by one, and looks at the same row
    /// again before going on. Returns the number of rows removed.
    pub fn clear_lines(&mut self) -> (cleared: usize)
        requires
            old(self)@.wf(),
        ensures
            final(self)@.wf(),
            final(self)@ == old(self)@.compacted(),
            cleared == old(self)@.full_rows(),
    {
        let height = self.height();
        let ghost start = self@.rows;
        let ghost width = self@.width();
        let mut cleared: usize = 0;
        let mut row: usize = height;
        // Of the rows that the board had, the topmost `pending` are still to be
        // looked at. Above them lie the empty rows that came in for the rows
        // removed, below them the rows that were kept.
        let ghost mut pending: int = height as int;
        proof {
            lemma_kept_of_nothing(start);
        }
        while row > 0
            invariant
                self@.wf(),
                start == old(self)@.rows,
                height == start.len(),
                width == self@.width(),
                row <= height,
                0 <= pending <= height,
                pending == if row >= cleared {
                    row - cleared
                } else {
                    0
                },
                cleared + pending + start.subrange(pending, height as int).filter(row_kept()).len()
                    == height,
                self@.rows == Seq::new(cleared as nat, |r: int| empty_row(width)) + start.subrange(
                    0,
                    pending,
                ) + start.subrange(pending, height as int).filter(row_kept()),
            decreases row + pending,
        {
            let ghost before = self@.rows;
            if self.is_row_full(row - 1) {
                assert(pending > 0) by {
                    if pending == 0 {
                        assert(before[row - 1] == empty_row(width));
                        assert(before[row - 1][0] is None);
                    }
                }
                proof {
                    lemma_kept_step(start, pending);
                }
                self.clear_row(row - 1);
                self.shift_down(row - 1, 1);
                cleared += 1;
                proof {
                    pending = pending - 1;
                }
                assert(self@.rows =~= Seq::new(cleared as nat, |r: int| empty_row(width))
                    + start.subrange(0, pending) + start.subrange(pending, height as int).filter(
                    row_kept(),
                ));
            } else {
                proof {
                    if pending > 0 {
                        lemma_kept_step(start, pending);
                        assert(before[row - 1] == start[pending - 1]);
                        pending = pending - 1;
                        assert(before =~= Seq::new(cleared as nat, |r: int| empty_row(width))
                            + start.subrange(0, pending) + start.subrange(
                            pending,
                            height as int,
                        ).filter(row_kept()));
                    }
                }
                row -= 1;
            }
        }
        assert(start.subrange(0, height as int) =~= start);
        assert(self@.rows =~= old(self)@.compacted().rows);
        cleared
    }
}

/// Nothing is kept of no rows.
proof fn lemma_kept_of_nothing(rows: Seq<Seq<Option<PieceType>>>)
    ensures
        rows.subrange(rows.len() as int, rows.len() as int).filter(row_kept()).len() == 0,
{
    reveal_with_fuel(Seq::filter, 1);
}

/// What is kept of the rows from `n - 1` on is what is kept of the rows from
/// `n` on, with row `n - 1` before it unless that row is full.
proof fn lemma_kept_step(rows: Seq<Seq<Option<PieceType>>>, n: int)
    requires
        0 < n <= rows.len(),
    ensures
        rows.subrange(n - 1, rows.len() as int).filter(row_kept()) == if row_full(rows[n - 1]) {
            rows.subrange(n, rows.len() as int).filter(row_kept())
        } else {
            seq![rows[n - 1]] + rows.subrange(n, rows.len() as int).filter(row_kept())
        },
{
    let head = seq![rows[n - 1]];
    let tail = rows.subrange(n, rows.len() as int);
    assert(rows.subrange(n - 1, rows.len() as int) =~= head + tail);
    Seq::filter_distributes_over_add(head, tail, row_kept());
    assert(head.filter(row_kept()) =~= if row_full(rows[n - 1]) {
        Seq::empty()
    } else {
        head
    }) by {
        reveal_with_fuel(Seq::filter, 2);
        assert(head.drop_last() =~= Seq::empty());
    }
    assert(Seq::<Seq<Option<PieceType>>>::empty() + tail.filter(row_kept()) =~= tail.filter(
        row_kept(),
    ));
}

/// All of `rows` are kept where none of them is full.
proof fn lemma_all_kept(rows: Seq<Seq<Option<PieceType>>>)
    requires
        forall|r: int| 0 <= r < rows.len() ==> !row_full(#[trigger] rows[r]),
    ensures
        rows.filter(row_kept()) == rows,
    decreases rows.len(),
{
    reveal_with_fuel(Seq::filter, 1);
    if rows.len() > 0 {
        lemma_all_kept(rows.drop_last());
        assert(!row_full(rows.last()));
        assert(rows.drop_last().push(rows.last()) =~= rows);
    }
}

/// The rows of a board after line clearing: each as wide as the board, and
/// none of them full.
proof fn lemma_compacted_rows(grid: Grid)
    requires
        grid.wf(),
    ensures
        grid.compacted().rows.len() == grid.rows.len(),
        forall|r: int|
            0 <= r < grid.rows.len() ==> {
                &&& (#[trigger] grid.compacted().rows[r]).len() == grid.width()
                &&& !row_full(grid.compacted().rows[r])
            },
        forall|r: int|
            0 <= r < grid.full_rows() ==> #[trigger] grid.compacted().rows[r] == empty_row(
                grid.width(),
            ),
{
    let rows = grid.rows;
    let kept = rows.filter(row_kept());
    let top = Seq::new(grid.full_rows(), |r: int| empty_row(grid.width()));
    let after = grid.compacted().rows;
    rows.lemma_filter_len(row_kept());
    assert(after == top + kept);
    assert forall|r: int| 0 <= r < rows.len() implies {
        &&& (#[trigger] after[r]).len() == grid.width()
        &&& !row_full(after[r])
    } by {
        if r < top.len() {
            assert(after[r] == empty_row(grid.width()));
            assert(after[r][0] is None);
        } else {
            let k = r - top.len();
            assert(after[r] == kept[k]);
            rows.lemma_filter_pred(row_kept(), k);
            assert(kept.contains(kept[k]));
            rows.lemma_filter_contains_rev(row_kept(), kept[k]);
            let at = choose|at: int| 0 <= at < rows.len() && rows[at] == kept[k];
            assert(rows[at].len() == grid.width());
        }
    }
}

/// Where row `row` of a board ends up in line clearing, if it is not full:
/// lower by the number of full rows that were below it.
proof fn lemma_kept_row_lands(grid: Grid, row: int)
    requires
        grid.wf(),
        0 <= row < grid.height(),
        !row_full(grid.rows[row]),
    ensures
        row + grid.full_rows_below(row) < grid.height(),
        grid.compacted().rows[row + grid.full_rows_below(row)] == grid.rows[row],
{
    let rows = grid.rows;
    let height = rows.len() as int;
    let above = rows.subrange(0, row);
    let this = seq![rows[row]];
    let below = rows.subrange(row + 1, height);
    let kept = rows.filter(row_kept());
    let kept_above = above.filter(row_kept());
    let kept_below = below.filter(row_kept());
    assert(rows =~= above + this + below);
    Seq::filter_distributes_over_add(above + this, below, row_kept());
    Seq::filter_distributes_over_add(above, this, row_kept());
    lemma_all_kept(this);
    above.lemma_filter_len(row_kept());
    below.lemma_filter_len(row_kept());
    assert(kept == kept_above + this + kept_below);
    assert(kept.len() == kept_above.len() + 1 + kept_below.len());
    assert(grid.full_rows_below(row) == below.len() - kept_below.len());
    assert(grid.full_rows() == height - kept.len());
    let landed = row + grid.full_rows_below(row);
    assert(landed - grid.full_rows() == kept_above.len());
    assert(kept[kept_above.len() as int] == rows[row]);
}

/// What line clearing does to the rows. The board keeps its size and has
/// no full row left. Its top rows, as many as there were full rows, are
/// empty. Each row that was not full has moved down by the number of full
/// rows that were below it.
pub proof fn lemma_compaction_moves_rows(grid: Grid)
    requires
        grid.wf(),
    ensures
        grid.compacted().wf(),
        grid.compacted().width() == grid.width(),
        grid.compacted().height() == grid.height(),
        grid.compacted().full_rows() == 0,
        forall|r: int|
            0 <= r < grid.full_rows() ==> #[trigger] grid.compacted().rows[r] == empty_row(
                grid.width(),
            ),
        forall|r: int|
            0 <= r < grid.height() && !row_full(#[trigger] grid.rows[r]) ==> {
                &&& r + grid.full_rows_below(r) < grid.height()
                &&& grid.compacted().rows[r + grid.full_rows_below(r)] == grid.rows[r]
            },
{
    lemma_compacted_rows(grid);
    assert(grid.compacted().rows[0].len() == grid.width());
    lemma_all_kept(grid.compacted().rows);
    assert forall|r: int| 0 <= r < grid.height() && !row_full(#[trigger] grid.rows[r]) implies {
        &&& r + grid.full_rows_below(r) < grid.height()
        &&& grid.compacted().rows[r + grid.full_rows_below(r)] == grid.rows[r]
    } by {
        lemma_kept_row_lands(grid, r);
    }
}

/// Line clearing leaves a board without a full row as it is.
pub proof fn lemma_nothing_to_clear(grid: Grid)
    requires
        grid.wf(),
        forall|r: int| 0 <= r < grid.height() ==> !row_full(#[trigger] grid.rows[r]),
    ensures
        grid.full_rows() == 0,
        grid.compacted() == grid,
{
    lemma_all_kept(grid.rows);
    assert(grid.compacted().rows =~= grid.rows);
}

/// Line clearing row by row. Where row `row` is full, removing it and moving
/// the rows above it down by one leaves one full row less, and line
/// clearing gives the same board before and after.
pub proof fn lemma_clearing_one_row(grid: Grid, row: int)
    requires
        grid.wf(),
        0 <= row < grid.height(),
        row_full(grid.rows[row]),
    ensures
        grid.shifted_down(row, 1).wf(),
        grid.full_rows() == grid.shifted_down(row, 1).full_rows() + 1,
        grid.compacted() == grid.shifted_down(row, 1).compacted(),
{
    let height = grid.rows.len() as int;
    let above = grid.rows.subrange(0, row);
    let full = seq![grid.rows[row]];
    let below = grid.rows.subrange(row + 1, height);
    let top = seq![empty_row(grid.width())];
    let shifted = grid.shifted_down(row, 1);
    assert(grid.rows =~= above + full + below);
    assert(shifted.rows =~= top + above + below);
    assert(shifted.rows[0] == empty_row(grid.width()));
    assert forall|r: int| 0 <= r < shifted.rows.len() implies (#[trigger] shifted.rows[r]).len()
        == grid.width() by {
        if 1 <= r <= row {
            assert(shifted.rows[r] == grid.rows[r - 1]);
        } else if r > row {
            assert(shifted.rows[r] == grid.rows[r]);
        }
    }
    Seq::filter_distributes_over_add(above + full, below, row_kept());
    Seq::filter_distributes_over_add(above, full, row_kept());
    Seq::filter_distributes_over_add(top + above, below, row_kept());
    Seq::filter_distributes_over_add(top, above, row_kept());
    assert(full.filter(row_kept()) =~= Seq::empty()) by {
        reveal_with_fuel(Seq::filter, 2);
        assert(full.drop_last() =~= Seq::empty());
    }
    assert(top.filter(row_kept()) =~= top) by {
        assert(top[0][0] is None);
        lemma_all_kept(top);
    }
    let kept = above.filter(row_kept()) + below.filter(row_kept());
    assert(grid.rows.filter(row_kept()) =~= kept);
    assert(shifted.rows.filter(row_kept()) =~= top + kept);
    above.lemma_filter_len(row_kept());
    below.lemma_filter_len(row_kept());
    assert(grid.compacted().rows =~= shifted.compacted().rows);
}

} // verus!
