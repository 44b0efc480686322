//! Shape catalog: the seven piece kinds, their block layout and colour.

use rand::seq::SliceRandom;
use vstd::prelude::*;

verus! {

/// A grid coordinate, or a difference of two grid coordinates, as the
/// contracts see it. Columns grow along the row, rows grow downward;
/// row 0 is the top row of the board.
pub struct Cell {
    /// Column.
    pub col: int,
    /// Row.
    pub row: int,
}

/// A grid coordinate, or a difference of two, as the program holds it.
#[derive(Clone, Copy, Debug, PartialEq, Eq, Structural)]
pub struct Position {
    /// Column.
    pub x: i16,
    /// Row.
    pub y: i16,
}

impl View for Position {
    type V = Cell;

    open spec fn view(&self) -> Cell {
        Cell { col: self.x as int, row: self.y as int }
    }
}

/// The seven kinds of piece.
#[derive(Clone, Copy, Debug, PartialEq, Eq, Structural)]
pub enum PieceType {
    O,
    I,
    S,
    Z,
    L,
    J,
    T,
}

/// Display colours of the pieces.
#[derive(Clone, Copy, Debug, PartialEq, Eq, Structural)]
pub enum PieceColor {
    Yellow,
    Blue,
    Red,
    Green,
    Orange,
    Pink,
    Purple,
}

/// Direction of a quarter turn.
#[derive(Clone, Copy, Debug, PartialEq, Eq, Structural)]
pub enum Rotation {
    Clockwise,
    CounterClockwise,
}

/// `rand::rngs::ThreadRng`, the handle to the random number generator of
/// the thread. Nothing is known of what it holds.
#[verifier::external_type_specification]
#[verifier::external_body]
pub struct ExThreadRng(rand::rngs::ThreadRng);

/// `rand::thread_rng` hands out the generator of the thread. Nothing is
/// claimed of it. The generator is seeded from the operating system on its
/// first use in a thread, and the call panics where the system gives it no
/// seed.
pub assume_specification[ rand::thread_rng ]() -> rand::rngs::ThreadRng;

/// Picks one element of `kinds` with `rand::seq::SliceRandom::choose`. The
/// contract claims what the documentation of `choose` gives: nothing comes
/// back from an empty slice, and from any other slice one of its elements.
/// Which element, and what becomes of the generator, is left open.
#[verifier::external_body]
fn choose_kind(kinds: &[PieceType], rng: &mut rand::rngs::ThreadRng) -> (picked: Option<PieceType>)
    ensures
        kinds@.len() == 0 ==> picked is None,
        kinds@.len() > 0 ==> picked is Some && kinds@.contains(picked->0),
{
    kinds.choose(rng).copied()
}

impl PieceType {
    /// The seven kinds, in catalog order.
    pub open spec fn all_kinds() -> Seq<PieceType> {
        seq![
            PieceType::O,
            PieceType::I,
            PieceType::S,
            PieceType::Z,
            PieceType::L,
            PieceType::J,
            PieceType::T,
        ]
    }

    /// The layout of the kind in its default orientation, as rows of a
    /// rectangle: `true` where the piece has a block.
    pub open spec fn mask(self) -> Seq<Seq<bool>> {
        match self {
            PieceType::O => seq![seq![true, true], seq![true, true]],
            PieceType::I => seq![seq![true], seq![true], seq![true], seq![true]],
            PieceType::S => seq![seq![false, true, true], seq![true, true, false]],
            PieceType::Z => seq![seq![true, true, false], seq![false, true, true]],
            PieceType::L => seq![seq![true, false], seq![true, false], seq![true, true]],
            PieceType::J => seq![seq![false, true], seq![false, true], seq![true, true]],
            PieceType::T => seq![seq![true, true, true], seq![false, true, false]],
        }
    }

    /// The four blocks of the kind in its default orientation, relative to
    /// the piece's origin: the `true` cells of `mask`, row by row.
    pub open spec fn default_offsets(self) -> Seq<Cell> {
        match self {
            PieceType::O => seq![
                Cell { col: 0, row: 0 },
                Cell { col: 1, row: 0 },
                Cell { col: 0, row: 1 },
                Cell { col: 1, row: 1 },
            ],
            PieceType::I => seq![
                Cell { col: 0, row: 0 },
                Cell { col: 0, row: 1 },
                Cell { col: 0, row: 2 },
                Cell { col: 0, row: 3 },
            ],
            PieceType::S => seq![
                Cell { col: 1, row: 0 },
                Cell { col: 2, row: 0 },
                Cell { col: 0, row: 1 },
                Cell { col: 1, row: 1 },
            ],
            PieceType::Z => seq![
                Cell { col: 0, row: 0 },
                Cell { col: 1, row: 0 },
                Cell { col: 1, row: 1 },
                Cell { col: 2, row: 1 },
            ],
            PieceType::L => seq![
                Cell { col: 0, row: 0 },
                Cell { col: 0, row: 1 },
                Cell { col: 0, row: 2 },
                Cell { col: 1, row: 2 },
            ],
            PieceType::J => seq![
                Cell { col: 1, row: 0 },
                Cell { col: 1, row: 1 },
                Cell { col: 0, row: 2 },
                Cell { col: 1, row: 2 },
            ],
            PieceType::T => seq![
                Cell { col: 0, row: 0 },
                Cell { col: 1, row: 0 },
                Cell { col: 2, row: 0 },
                Cell { col: 1, row: 1 },
            ],
        }
    }

    /// The display colour of the kind.
    pub open spec fn color(self) -> PieceColor {
        match self {
            PieceType::O => PieceColor::Yellow,
            PieceType::I => PieceColor::Blue,
            PieceType::S => PieceColor::Red,
            PieceType::Z => PieceColor::Green,
            PieceType::L => PieceColor::Orange,
            PieceType::J => PieceColor::Pink,
            PieceType::T => PieceColor::Purple,
        }
    }

    /// Draws one of the seven kinds at random.
    pub fn random() -> (kind: PieceType)
        ensures
            PieceType::all_kinds().contains(kind),
    {
        let kinds = [
            PieceType::O,
            PieceType::I,
            PieceType::S,
            PieceType::Z,
            PieceType::L,
            PieceType::J,
            PieceType::T,
        ];
        assert(kinds@ =~= PieceType::all_kinds());
        let mut rng = rand::thread_rng();
        choose_kind(kinds.as_slice(), &mut rng).unwrap()
    }

    /// The layout of the kind in its default orientation.
    pub fn get_blocks(&self) -> (blocks: Vec<Vec<bool>>)
        ensures
            grid_of(blocks) == self.mask(),
    {
        let blocks = match self {
            PieceType::O => vec![vec![true, true], vec![true, true]],
            PieceType::I => vec![vec![true], vec![true], vec![true], vec![true]],
            PieceType::S => vec![vec![false, true, true], vec![true, true, false]],
            PieceType::Z => vec![vec![true, true, false], vec![false, true, true]],
            PieceType::L => vec![vec![true, false], vec![true, false], vec![true, true]],
            PieceType::J => vec![vec![false, true], vec![false, true], vec![true, true]],
            PieceType::T => vec![vec![true, true, true], vec![false, true, false]],
        };
        assert(grid_of(blocks) =~~= self.mask());
        blocks
    }

    /// The four blocks of the kind in its default orientation, relative to
    /// the piece's origin.
    pub fn offsets(&self) -> (blocks: [Position; 4])
        ensures
            cells_of(blocks@) == self.default_offsets(),
    {
        let blocks = match self {
            PieceType::O => [
                Position { x: 0, y: 0 },
                Position { x: 1, y: 0 },
                Position { x: 0, y: 1 },
                Position { x: 1, y: 1 },
            ],
            PieceType::I => [
                Position { x: 0, y: 0 },
                Position { x: 0, y: 1 },
                Position { x: 0, y: 2 },
                Position { x: 0, y: 3 },
            ],
            PieceType::S => [
                Position { x: 1, y: 0 },
                Position { x: 2, y: 0 },
                Position { x: 0, y: 1 },
                Position { x: 1, y: 1 },
            ],
            PieceType::Z => [
                Position { x: 0, y: 0 },
                Position { x: 1, y: 0 },
                Position { x: 1, y: 1 },
                Position { x: 2, y: 1 },
            ],
            PieceType::L => [
                Position { x: 0, y: 0 },
                Position { x: 0, y: 1 },
                Position { x: 0, y: 2 },
                Position { x: 1, y: 2 },
            ],
            PieceType::J => [
                Position { x: 1, y: 0 },
                Position { x: 1, y: 1 },
                Position { x: 0, y: 2 },
                Position { x: 1, y: 2 },
            ],
            PieceType::T => [
                Position { x: 0, y: 0 },
                Position { x: 1, y: 0 },
                Position { x: 2, y: 0 },
                Position { x: 1, y: 1 },
            ],
        };
        assert(cells_of(blocks@) =~= self.default_offsets());
        blocks
    }

    /// The display colour of the kind.
    pub fn get_color(&self) -> (color: PieceColor)
        ensures
            color == self.color(),
    {
        match self {
            PieceType::O => PieceColor::Yellow,
            PieceType::I => PieceColor::Blue,
            PieceType::S => PieceColor::Red,
            PieceType::Z => PieceColor::Green,
            PieceType::L => PieceColor::Orange,
            PieceType::J => PieceColor::Pink,
            PieceType::T => PieceColor::Purple,
        }
    }
}

/// The coordinates that a sequence of positions stands for.
pub open spec fn cells_of(positions: Seq<Position>) -> Seq<Cell> {
    Seq::new(positions.len(), |i: int| positions[i]@)
}

/// The rows of a rectangular arrangement of values, top row first.
pub open spec fn grid_of<T>(v: Vec<Vec<T>>) -> Seq<Seq<T>> {
    Seq::new(v@.len(), |i: int| v@[i]@)
}

/// A quarter turn clockwise of the arrangement `m`: its row `i` is column
/// `i` of `m`, read from the bottom row up. Its size goes by the first row
/// of `m`.
pub open spec fn quarter_turn<T>(m: Seq<Seq<T>>) -> Seq<Seq<T>> {
    if m.len() == 0 {
        m
    } else {
        Seq::new(m[0].len(), |i: int| Seq::new(m.len(), |j: int| m[m.len() - 1 - j][i]))
    }
}

/// Turns `v` a quarter turn clockwise. No row of `v` may be shorter than
/// its first row; what a longer row has beyond that length is dropped.
pub fn rotate<T>(v: Vec<Vec<T>>) -> (r: Vec<Vec<T>>)
    requires
        forall|i: int| 0 <= i < v@.len() ==> v@[0].len() <= (#[trigger] v@[i]).len(),
    ensures
        grid_of(r) == quarter_turn(grid_of(v)),
{
    if v.len() == 0 {
        return v;
    }
    let ghost given = grid_of(v);
    let height: usize = v.len();
    let width: usize = v[0].len();
    let mut rows = v;
    let mut cut: usize = 0;
    while cut < height
        invariant
            height == given.len(),
            rows@.len() == height,
            width == given[0].len(),
            cut <= height,
            forall|k: int| 0 <= k < height ==> width <= (#[trigger] given[k]).len(),
            forall|k: int|
                0 <= k < cut ==> (#[trigger] rows@[k])@ == given[k].subrange(0, width as int),
            forall|k: int| cut <= k < height ==> (#[trigger] rows@[k])@ == given[k],
        decreases height - cut,
    {
        rows[cut].truncate(width);
        cut += 1;
    }
    let mut turned: Vec<Vec<T>> = Vec::new();
    let mut left: usize = width;
    while left > 0
        invariant
            height == given.len(),
            height > 0,
            rows@.len() == height,
            width == given[0].len(),
            left <= width,
            forall|k: int| 0 <= k < height ==> width <= (#[trigger] given[k]).len(),
            forall|k: int|
                0 <= k < height ==> (#[trigger] rows@[k])@ == given[k].subrange(0, left as int),
            turned@.len() == width - left,
            forall|k: int|
                0 <= k < turned@.len() ==> (#[trigger] turned@[k])@ == quarter_turn(given)[left
                    + k],
        decreases left,
    {
        let mut column: Vec<T> = Vec::new();
        let mut below: usize = height;
        while below > 0
            invariant
                height == given.len(),
                rows@.len() == height,
                0 < left <= width,
                below <= height,
                forall|k: int| 0 <= k < height ==> width <= (#[trigger] given[k]).len(),
                forall|k: int|
                    0 <= k < below ==> (#[trigger] rows@[k])@ == given[k].subrange(0, left as int),
                forall|k: int|
                    below <= k < height ==> (#[trigger] rows@[k])@ == given[k].subrange(
                        0,
                        left - 1,
                    ),
                column@.len() == height - below,
                forall|k: int|
                    0 <= k < column@.len() ==> column@[k] == given[height - 1 - k][left - 1],
            decreases below,
        {
            below -= 1;
            assert(rows@[below as int]@ == given[below as int].subrange(0, left as int));
            let last = rows[below].pop();
            column.push(last.unwrap());
        }
        assert(column@ =~= quarter_turn(given)[left - 1]);
        turned.insert(0, column);
        left -= 1;
    }
    assert(grid_of(turned) =~= quarter_turn(given));
    turned
}

/// The default offsets of a kind are the cells of its layout that hold a
/// block: four of them, each once.
pub proof fn lemma_offsets_are_mask_cells(kind: PieceType)
    ensures
        kind.default_offsets().len() == 4,
        kind.default_offsets().no_duplicates(),
        forall|c: Cell|
            kind.default_offsets().contains(c) <==> {
                &&& 0 <= c.row < kind.mask().len()
                &&& 0 <= c.col < kind.mask()[c.row].len()
                &&& kind.mask()[c.row][c.col]
            },
{
    let offsets = kind.default_offsets();
    let mask = kind.mask();
    assert forall|c: Cell| offsets.contains(c) implies {
        &&& 0 <= c.row < mask.len()
        &&& 0 <= c.col < mask[c.row].len()
        &&& mask[c.row][c.col]
    } by {
        let i = choose|i: int| 0 <= i < offsets.len() && offsets[i] == c;
        assert(i == 0 || i == 1 || i == 2 || i == 3);
    }
    assert forall|c: Cell|
        {
            &&& 0 <= c.row < mask.len()
            &&& 0 <= c.col < mask[c.row].len()
            &&& mask[c.row][c.col]
        } implies offsets.contains(c) by {
        assert(offsets[0] == c || offsets[1] == c || offsets[2] == c || offsets[3] == c);
    }
}

} // verus!
