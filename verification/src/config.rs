//! Sizes and limits.

use vstd::prelude::*;

verus! {

/// Width of the default board, in cells.
pub const BOARD_WIDTH: usize = 10;

/// Height of the default board, in cells.
pub const BOARD_HEIGHT: usize = 24;

/// The largest width and the largest height that a board can have.
pub const MAX_DIMENSION: usize = 30_000;

/// The farthest that a block of a piece is from the piece's origin, along
/// either axis and in any orientation.
pub const MAX_SPAN: i16 = 3;

/// The farthest that the origin of a piece is from column 0 and from row 0.
/// A piece that occupies cells of a board is well within it.
pub const MAX_COORD: i16 = 32_000;

} // verus!
