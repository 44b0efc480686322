//! The board: a grid of cells, each empty or holding a settled block.
//! A settled block is known by the cell that it is in.

use crate::config::{BOARD_HEIGHT, BOARD_WIDTH, MAX_DIMENSION};
use crate::shape::{grid_of, Cell, PieceType, Position};
use vstd::prelude::*;

verus! {

/// A board as the contracts see it: its rows from the top down, each cell
/// empty or holding the kind of the piece that the block came from.
pub struct Grid {
    /// The rows, top row first.
    pub rows: Seq<Seq<Option<PieceType>>>,
}

/// A row of `width` empty cells.
pub open spec fn empty_row(width: nat) -> Seq<Option<PieceType>> {
    Seq::new(width, |c: int| None::<PieceType>)
}

/// Whether every cell of `row` is occupied.
pub open spec fn row_full(row: Seq<Option<PieceType>>) -> bool {
    forall|c: int| 0 <= c < row.len() ==> (#[trigger] row[c]) is Some
}

impl Grid {
    /// The board of the given size with every cell empty.
    pub open spec fn empty(width: nat, height: nat) -> Grid {
        Grid { rows: Seq::new(height, |r: int| empty_row(width)) }
    }

    /// The number of rows.
    pub open spec fn height(self) -> nat {
        self.rows.len()
    }

    /// The number of columns.
    pub open spec fn width(self) -> nat {
        if self.rows.len() > 0 {
            self.rows[0].len()
        } else {
            0
        }
    }

    /// At least one row and one column, no more than `MAX_DIMENSION` of
    /// either, and all rows of one length.
    pub open spec fn wf(self) -> bool {
        &&& 0 < self.height() <= MAX_DIMENSION
        &&& 0 < self.width() <= MAX_DIMENSION
        &&& forall|r: int|
            0 <= r < self.rows.len() ==> (#[trigger] self.rows[r]).len() == self.width()
    }

    /// Whether `c` is a cell of the board.
    pub open spec fn in_bounds(self, c: Cell) -> bool {
        0 <= c.col < self.width() && 0 <= c.row < self.height()
    }

    /// What the cell `c` holds.
    pub open spec fn at(self, c: Cell) -> Option<PieceType> {
        self.rows[c.row][c.col]
    }

    /// Whether `c` is a cell of the board that holds a block.
    pub open spec fn occupied(self, c: Cell) -> bool {
        self.in_bounds(c) && self.at(c) is Some
    }

    /// Whether a block of the falling piece may be at `c`: in a column of
    /// the board, not below the bottom row and not in a cell that holds a
    /// block. Above the top row every column is free.
    pub open spec fn admits(self, c: Cell) -> bool {
        &&& 0 <= c.col < self.width()
        &&& c.row < self.height()
        &&& c.row >= 0 ==> self.at(c) is None
    }

    /// The board with a block of `kind` in each of its cells that is among
    /// `blocks`.
    pub open spec fn with_blocks(self, blocks: Seq<Cell>, kind: PieceType) -> Grid {
        Grid {
            rows: Seq::new(
                self.rows.len(),
                |r: int|
                    Seq::new(
                        self.rows[r].len(),
                        |c: int|
                            if blocks.contains(Cell { col: c, row: r }) {
                                Some(kind)
                            } else {
                                self.rows[r][c]
                            },
                    ),
            ),
        }
    }

    /// The board with a block of `kind` in the cell `c`.
    pub open spec fn placed(self, c: Cell, kind: PieceType) -> Grid {
        Grid { rows: self.rows.update(c.row, self.rows[c.row].update(c.col, Some(kind))) }
    }

    /// The board with every cell of row `row` empty.
    pub open spec fn row_cleared(self, row: int) -> Grid {
        Grid { rows: self.rows.update(row, empty_row(self.width())) }
    }

    /// The board without the `count` rows from `from_row` on, the rows
    /// above them moved down by `count`, and `count` empty rows at the top.
    pub open spec fn shifted_down(self, from_row: int, count: int) -> Grid {
        Grid {
            rows: Seq::new(count as nat, |r: int| empty_row(self.width())) + self.rows.subrange(
                0,
                from_row,
            ) + self.rows.subrange(from_row + count, self.rows.len() as int),
        }
    }
}

/// Why a board of a requested size was not made.
#[derive(Clone, Copy, Debug, PartialEq, Eq, Structural)]
pub enum BoardError {
    /// The width or the height is zero.
    Empty,
    /// The width or the height is above `MAX_DIMENSION`.
    TooLarge,
}

/// Why a block was not placed.
#[derive(Clone, Copy, Debug, PartialEq, Eq, Structural)]
pub enum PlaceError {
    /// The cell is not on the board.
    OutOfBounds,
    /// The cell already holds a block.
    Occupied,
}

/// The board.
#[derive(Debug)]
pub struct GameBoard {
    cells: Vec<Vec<Option<PieceType>>>,
}

impl View for GameBoard {
    type V = Grid;

    closed spec fn view(&self) -> Grid {
        Grid { rows: grid_of(self.cells) }
    }
}

/// A row of `width` empty cells.
fn blank_row(width: usize) -> (row: Vec<Option<PieceType>>)
    ensures
        row@ == empty_row(width as nat),
{
    let mut row: Vec<Option<PieceType>> = Vec::new();
    let mut c: usize = 0;
    while c < width
        invariant
            c <= width,
            row@.len() == c,
            forall|k: int| 0 <= k < c ==> row@[k] == None::<PieceType>,
        decreases width - c,
    {
        row.push(None);
        c += 1;
    }
    assert(row@ =~= empty_row(width as nat));
    row
}

/// The board of the given size with every cell empty.
fn blank(width: usize, height: usize) -> (board: GameBoard)
    ensures
        board@ == Grid::empty(width as nat, height as nat),
{
    let mut cells: Vec<Vec<Option<PieceType>>> = Vec::new();
    let mut r: usize = 0;
    while r < height
        invariant
            r <= height,
            cells@.len() == r,
            forall|k: int| 0 <= k < r ==> (#[trigger] cells@[k])@ == empty_row(width as nat),
        decreases height - r,
    {
        cells.push(blank_row(width));
        r += 1;
    }
    let board = GameBoard { cells };
    assert(board@.rows =~= Grid::empty(width as nat, height as nat).rows);
    board
}

impl GameBoard {
    /// The empty board of the default size.
    pub fn new() -> (board: GameBoard)
        ensures
            board@ == Grid::empty(BOARD_WIDTH as nat, BOARD_HEIGHT as nat),
            board@.wf(),
    {
        blank(BOARD_WIDTH, BOARD_HEIGHT)
    }

    /// The empty board of the given size, where both the width and the
    /// height are at least 1 and at most `MAX_DIMENSION`.
    pub fn with_size(width: usize, height: usize) -> (made: Result<GameBoard, BoardError>)
        ensures
            width == 0 || height == 0 ==> made == Err::<GameBoard, BoardError>(BoardError::Empty),
            width > 0 && height > 0 && (width > MAX_DIMENSION || height > MAX_DIMENSION) ==> made
                == Err::<GameBoard, BoardError>(BoardError::TooLarge),
            0 < width <= MAX_DIMENSION && 0 < height <= MAX_DIMENSION ==> made is Ok && made->Ok_0@
                == Grid::empty(width as nat, height as nat) && made->Ok_0@.wf(),
    {
        if width == 0 || height == 0 {
            Err(BoardError::Empty)
        } else if width > MAX_DIMENSION || height > MAX_DIMENSION {
            Err(BoardError::TooLarge)
        } else {
            Ok(blank(width, height))
        }
    }

    /// The number of columns.
    pub fn width(&self) -> (width: usize)
        requires
            self@.wf(),
        ensures
            width == self@.width(),
    {
        self.cells[0].len()
    }

    /// The number of rows.
    pub fn height(&self) -> (height: usize)
        ensures
            height == self@.height(),
    {
        self.cells.len()
    }

    /// Whether `p` is a cell of the board.
    pub fn in_bounds(&self, p: Position) -> (inside: bool)
        requires
            self@.wf(),
        ensures
            inside == self@.in_bounds(p@),
    {
        p.x >= 0 && p.y >= 0 && (p.x as usize) < self.width() && (p.y as usize) < self.height()
    }

    /// What the cell `p` holds: nothing where `p` is not on the board.
    pub fn get(&self, p: Position) -> (content: Option<PieceType>)
        requires
            self@.wf(),
        ensures
            content == if self@.in_bounds(p@) {
                self@.at(p@)
            } else {
                None
            },
    {
        if self.in_bounds(p) {
            self.cells[p.y as usize][p.x as usize]
        } else {
            None
        }
    }

    /// Whether a block of the falling piece may be at `p`.
    pub fn admits(&self, p: Position) -> (free: bool)
        requires
            self@.wf(),
        ensures
            free == self@.admits(p@),
    {
        if p.x < 0 || (p.x as usize) >= self.width() {
            false
        } else if p.y < 0 {
            true
        } else if (p.y as usize) >= self.height() {
            false
        } else {
            assert(self@.rows[p.y as int].len() == self@.width());
            self.cells[p.y as usize][p.x as usize].is_none()
        }
    }

    /// Whether `p` is a cell of the board that holds a block.
    pub fn occupied(&self, p: Position) -> (taken: bool)
        requires
            self@.wf(),
        ensures
            taken == self@.occupied(p@),
    {
        self.get(p).is_some()
    }

    /// Puts a block of `kind` into the cell `p`, which must be an empty cell
    /// of the board. Otherwise the board stays as it is.
    pub fn place(&mut self, p: Position, kind: PieceType) -> (done: Result<(), PlaceError>)
        requires
            old(self)@.wf(),
        ensures
            final(self)@.wf(),
            !old(self)@.in_bounds(p@) ==> done == Err::<(), PlaceError>(PlaceError::OutOfBounds)
                && final(self)@ == old(self)@,
            old(self)@.occupied(p@) ==> done == Err::<(), PlaceError>(PlaceError::Occupied)
                && final(self)@ == old(self)@,
            old(self)@.in_bounds(p@) && !old(self)@.occupied(p@) ==> done is Ok && final(self)@
                == old(self)@.placed(p@, kind),
    {
        if !self.in_bounds(p) {
            Err(PlaceError::OutOfBounds)
        } else if self.occupied(p) {
            Err(PlaceError::Occupied)
        } else {
            self.cells[p.y as usize][p.x as usize] = Some(kind);
            assert(self@.rows =~= old(self)@.placed(p@, kind).rows);
            Ok(())
        }
    }

    /// Whether `row` is a row of the board in which every cell is occupied.
    pub fn is_row_full(&self, row: usize) -> (full: bool)
        requires
            self@.wf(),
        ensures
            full == (row < self@.height() && row_full(self@.rows[row as int])),
    {
        if row >= self.height() {
            return false;
        }
        let width = self.width();
        assert(self@.rows[row as int].len() == width);
        let mut c: usize = 0;
        while c < width
            invariant
                row < self.cells@.len(),
                width == self.cells@[row as int]@.len(),
                c <= width,
                forall|k: int| 0 <= k < c ==> (#[trigger] self.cells@[row as int]@[k]) is Some,
            decreases width - c,
        {
            if self.cells[row][c].is_none() {
                return false;
            }
            c += 1;
        }
        true
    }

    /// Empties every cell of `row`. Where the board has no such row it
    /// stays as it is, and the answer is `false`.
    pub fn clear_row(&mut self, row: usize) -> (done: bool)
        requires
            old(self)@.wf(),
        ensures
            final(self)@.wf(),
            done == (row < old(self)@.height()),
            done ==> final(self)@ == old(self)@.row_cleared(row as int),
            !done ==> final(self)@ == old(self)@,
    {
        if row >= self.height() {
            return false;
        }
        let width = self.width();
        self.cells[row] = blank_row(width);
        assert(self@.rows =~= old(self)@.row_cleared(row as int).rows);
        true
    }

    /// Removes the `count` rows from `from_row` on, moves the rows above
    /// them down by `count` and fills the top with `count` empty rows.
    /// Where the board has no such rows it stays as it is, and the answer
    /// is `false`.
    pub fn shift_down(&mut self, from_row: usize, count: usize) -> (done: bool)
        requires
            old(self)@.wf(),
        ensures
            final(self)@.wf(),
            done == (from_row + count <= old(self)@.height()),
            done ==> final(self)@ == old(self)@.shifted_down(from_row as int, count as int),
            !done ==> final(self)@ == old(self)@,
    {
        let height = self.height();
        if from_row > height || count > height - from_row {
            return false;
        }
        let width = self.width();
        let mut moved: usize = 0;
        while moved < count
            invariant
                old(self)@.wf(),
                height == old(self)@.height(),
                width == old(self)@.width(),
                from_row + count <= height,
                moved <= count,
                self.cells@.len() == height,
                self@.rows == old(self)@.shifted_down(from_row as int, moved as int).rows,
            decreases count - moved,
        {
            let ghost before = self@.rows;
            self.cells.remove(from_row + moved);
            let ghost without = self@.rows;
            assert(without =~= before.remove(from_row + moved));
            self.cells.insert(0, blank_row(width));
            assert(self@.rows =~= without.insert(0, empty_row(width as nat)));
            moved += 1;
            assert(self@.rows =~= old(self)@.shifted_down(from_row as int, moved as int).rows);
        }
        assert(self@.rows == old(self)@.shifted_down(from_row as int, count as int).rows);
        true
    }

    /// The cells of the board, row by row from the top.
    pub fn snapshot(&self) -> (cells: Vec<Vec<Option<PieceType>>>)
        ensures
            grid_of(cells) == self@.rows,
    {
        let mut cells: Vec<Vec<Option<PieceType>>> = Vec::new();
        let mut r: usize = 0;
        while r < self.cells.len()
            invariant
                r <= self.cells@.len(),
                cells@.len() == r,
                forall|k: int| 0 <= k < r ==> (#[trigger] cells@[k])@ == self.cells@[k]@,
            decreases self.cells@.len() - r,
        {
            let mut row: Vec<Option<PieceType>> = Vec::new();
            let mut c: usize = 0;
            while c < self.cells[r].len()
                invariant
                    r < self.cells@.len(),
                    c <= self.cells@[r as int]@.len(),
                    row@.len() == c,
                    forall|k: int| 0 <= k < c ==> row@[k] == self.cells@[r as int]@[k],
                decreases self.cells@[r as int]@.len() - c,
            {
                row.push(self.cells[r][c]);
                c += 1;
            }
            assert(row@ =~= self.cells@[r as int]@);
            cells.push(row);
            r += 1;
        }
        assert(grid_of(cells) =~= self@.rows);
        cells
    }
}

/// The board query has one answer: two snapshots of a board are the same.
pub proof fn lemma_snapshot_repeatable(
    board: GameBoard,
    first: Vec<Vec<Option<PieceType>>>,
    second: Vec<Vec<Option<PieceType>>>,
)
    requires
        grid_of(first) == board@.rows,
        grid_of(second) == board@.rows,
    ensures
        grid_of(first) == grid_of(second),
{
}

} // verus!
