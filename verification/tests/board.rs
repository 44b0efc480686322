use falling_blocks::board::{BoardError, GameBoard, PlaceError};
use falling_blocks::config::{BOARD_HEIGHT, BOARD_WIDTH, MAX_DIMENSION};
use falling_blocks::shape::{PieceType, Position};

type Cells = Vec<Vec<Option<PieceType>>>;

fn at(x: i16, y: i16) -> Position {
    Position { x, y }
}

fn board(width: usize, height: usize) -> GameBoard {
    GameBoard::with_size(width, height).unwrap()
}

/// A board from a drawing: one string per row, `.` for an empty cell and
/// the letter of a kind for a block.
fn draw(rows: &[&str]) -> GameBoard {
    let mut made = board(rows[0].len(), rows.len());
    for (y, row) in rows.iter().enumerate() {
        for (x, letter) in row.chars().enumerate() {
            if let Some(kind) = kind_of(letter) {
                assert_eq!(made.place(at(x as i16, y as i16), kind), Ok(()));
            }
        }
    }
    made
}

fn kind_of(letter: char) -> Option<PieceType> {
    match letter {
        'O' => Some(PieceType::O),
        'I' => Some(PieceType::I),
        'S' => Some(PieceType::S),
        'Z' => Some(PieceType::Z),
        'L' => Some(PieceType::L),
        'J' => Some(PieceType::J),
        'T' => Some(PieceType::T),
        _ => None,
    }
}

fn cells(rows: &[&str]) -> Cells {
    rows.iter().map(|row| row.chars().map(kind_of).collect()).collect()
}

#[test]
fn new_board_is_empty_and_of_the_default_size() {
    let made = GameBoard::new();
    assert_eq!(made.width(), 10);
    assert_eq!(made.height(), 24);
    assert_eq!(BOARD_WIDTH, 10);
    assert_eq!(BOARD_HEIGHT, 24);
    assert_eq!(made.snapshot(), vec![vec![None; 10]; 24]);
}

#[test]
fn with_size_makes_an_empty_board() {
    let made = board(4, 1);
    assert_eq!(made.width(), 4);
    assert_eq!(made.height(), 1);
    assert_eq!(made.snapshot(), vec![vec![None; 4]; 1]);
    let made = board(3, 7);
    assert_eq!(made.snapshot(), vec![vec![None; 3]; 7]);
}

#[test]
fn with_size_refuses_an_empty_board() {
    assert_eq!(GameBoard::with_size(0, 5).err(), Some(BoardError::Empty));
    assert_eq!(GameBoard::with_size(5, 0).err(), Some(BoardError::Empty));
    assert_eq!(GameBoard::with_size(0, 0).err(), Some(BoardError::Empty));
    assert_eq!(GameBoard::with_size(0, MAX_DIMENSION + 1).err(), Some(BoardError::Empty));
    assert_eq!(GameBoard::with_size(MAX_DIMENSION + 1, 0).err(), Some(BoardError::Empty));
}

#[test]
fn with_size_refuses_a_board_that_is_too_large() {
    assert_eq!(GameBoard::with_size(MAX_DIMENSION + 1, 1).err(), Some(BoardError::TooLarge));
    assert_eq!(GameBoard::with_size(1, MAX_DIMENSION + 1).err(), Some(BoardError::TooLarge));
    assert_eq!(GameBoard::with_size(usize::MAX, usize::MAX).err(), Some(BoardError::TooLarge));
    assert!(GameBoard::with_size(MAX_DIMENSION, 1).is_ok());
    assert!(GameBoard::with_size(1, MAX_DIMENSION).is_ok());
}

#[test]
fn in_bounds_at_the_edges() {
    let made = board(4, 3);
    assert!(made.in_bounds(at(0, 0)));
    assert!(made.in_bounds(at(3, 2)));
    assert!(!made.in_bounds(at(4, 0)));
    assert!(!made.in_bounds(at(0, 3)));
    assert!(!made.in_bounds(at(-1, 0)));
    assert!(!made.in_bounds(at(0, -1)));
    assert!(!made.in_bounds(at(i16::MIN, i16::MIN)));
    assert!(!made.in_bounds(at(i16::MAX, i16::MAX)));
}

#[test]
fn place_fills_one_cell() {
    let mut made = board(3, 2);
    assert_eq!(made.place(at(1, 1), PieceType::S), Ok(()));
    assert_eq!(made.snapshot(), cells(&["...", ".S."]));
    assert_eq!(made.get(at(1, 1)), Some(PieceType::S));
    assert_eq!(made.get(at(0, 1)), None);
    assert!(made.occupied(at(1, 1)));
    assert!(!made.occupied(at(1, 0)));
}

#[test]
fn place_refuses_a_cell_that_is_taken() {
    let mut made = draw(&["...", ".S."]);
    assert_eq!(made.place(at(1, 1), PieceType::T), Err(PlaceError::Occupied));
    assert_eq!(made.snapshot(), cells(&["...", ".S."]));
}

#[test]
fn place_refuses_a_cell_off_the_board() {
    let mut made = draw(&["...", ".S."]);
    for p in [at(3, 0), at(0, 2), at(-1, 0), at(0, -1), at(3, 2)] {
        assert_eq!(made.place(p, PieceType::T), Err(PlaceError::OutOfBounds));
    }
    assert_eq!(made.snapshot(), cells(&["...", ".S."]));
}

#[test]
fn get_and_occupied_off_the_board() {
    let made = draw(&["TT", "TT"]);
    for p in [at(2, 0), at(0, 2), at(-1, 0), at(0, -1)] {
        assert_eq!(made.get(p), None);
        assert!(!made.occupied(p));
    }
}

#[test]
fn admits_free_cells_and_the_space_above() {
    let made = draw(&["...", ".S."]);
    assert!(made.admits(at(0, 0)));
    assert!(made.admits(at(2, 1)));
    assert!(!made.admits(at(1, 1)));
    assert!(made.admits(at(1, -1)));
    assert!(made.admits(at(0, -300)));
    assert!(!made.admits(at(-1, 0)));
    assert!(!made.admits(at(3, 0)));
    assert!(!made.admits(at(-1, -1)));
    assert!(!made.admits(at(3, -1)));
    assert!(!made.admits(at(0, 2)));
}

#[test]
fn is_row_full_looks_at_every_cell() {
    let made = draw(&["...", "TT.", ".TT", "TTT"]);
    assert!(!made.is_row_full(0));
    assert!(!made.is_row_full(1));
    assert!(!made.is_row_full(2));
    assert!(made.is_row_full(3));
    assert!(!made.is_row_full(4));
    assert!(!made.is_row_full(usize::MAX));
}

#[test]
fn clear_row_empties_one_row() {
    let mut made = draw(&["T..", "TTT", ".TT"]);
    assert!(made.clear_row(1));
    assert_eq!(made.snapshot(), cells(&["T..", "...", ".TT"]));
    assert!(made.clear_row(0));
    assert_eq!(made.snapshot(), cells(&["...", "...", ".TT"]));
    assert!(!made.clear_row(3));
    assert_eq!(made.snapshot(), cells(&["...", "...", ".TT"]));
}

#[test]
fn shift_down_moves_the_rows_above() {
    let mut made = draw(&["O..", ".I.", "SSS", "..Z"]);
    assert!(made.shift_down(2, 1));
    assert_eq!(made.snapshot(), cells(&["...", "O..", ".I.", "..Z"]));
}

#[test]
fn shift_down_by_several_rows() {
    let mut made = draw(&["O..", ".I.", "SSS", "TTT", "..Z"]);
    assert!(made.shift_down(2, 2));
    assert_eq!(made.snapshot(), cells(&["...", "...", "O..", ".I.", "..Z"]));
    assert!(made.shift_down(0, 5));
    assert_eq!(made.snapshot(), cells(&["...", "...", "...", "...", "..."]));
}

#[test]
fn shift_down_by_nothing_or_too_far() {
    let mut made = draw(&["O..", ".I."]);
    assert!(made.shift_down(1, 0));
    assert!(made.shift_down(2, 0));
    assert_eq!(made.snapshot(), cells(&["O..", ".I."]));
    assert!(!made.shift_down(1, 2));
    assert!(!made.shift_down(3, 0));
    assert!(!made.shift_down(usize::MAX, usize::MAX));
    assert!(!made.shift_down(1, usize::MAX));
    assert_eq!(made.snapshot(), cells(&["O..", ".I."]));
}

#[test]
fn clear_lines_without_a_full_row() {
    let mut made = draw(&["...", "T..", ".TT"]);
    assert_eq!(made.clear_lines(), 0);
    assert_eq!(made.snapshot(), cells(&["...", "T..", ".TT"]));
}

#[test]
fn clear_lines_removes_one_full_row() {
    let mut made = draw(&["...", "O..", "TTT", ".Z."]);
    assert_eq!(made.clear_lines(), 1);
    assert_eq!(made.snapshot(), cells(&["...", "...", "O..", ".Z."]));
}

#[test]
fn clear_lines_removes_two_full_rows_at_once() {
    let mut made = draw(&["...", "O..", "III", "LLL"]);
    assert_eq!(made.clear_lines(), 2);
    assert_eq!(made.snapshot(), cells(&["...", "...", "...", "O.."]));
}

#[test]
fn clear_lines_moves_each_row_by_the_full_rows_below_it() {
    let mut made = draw(&["...", "O..", "III", ".S.", "LLL"]);
    assert_eq!(made.clear_lines(), 2);
    assert_eq!(made.snapshot(), cells(&["...", "...", "...", "O..", ".S."]));
}

#[test]
fn clear_lines_looks_again_at_a_row_that_was_filled_from_above() {
    let mut made = draw(&["J..", "TTT", "ZZZ", "SSS", "..L"]);
    assert_eq!(made.clear_lines(), 3);
    assert_eq!(made.snapshot(), cells(&["...", "...", "...", "J..", "..L"]));
}

#[test]
fn clear_lines_of_a_board_that_is_full() {
    let mut made = draw(&["TT", "TT", "TT"]);
    assert_eq!(made.clear_lines(), 3);
    assert_eq!(made.snapshot(), cells(&["..", "..", ".."]));
    assert_eq!(made.clear_lines(), 0);
}

#[test]
fn clear_lines_of_the_top_row() {
    let mut made = draw(&["TTT", "T..", ".TT"]);
    assert_eq!(made.clear_lines(), 1);
    assert_eq!(made.snapshot(), cells(&["...", "T..", ".TT"]));
}

#[test]
fn clear_lines_on_a_board_of_one_cell() {
    let mut made = draw(&["T"]);
    assert_eq!(made.clear_lines(), 1);
    assert_eq!(made.snapshot(), cells(&["."]));
}

#[test]
fn clear_lines_keeps_the_kinds_of_the_blocks() {
    let mut made = draw(&["OIS", "ZLJ", "T.T", "JJJ"]);
    assert_eq!(made.clear_lines(), 3);
    assert_eq!(made.snapshot(), cells(&["...", "...", "...", "T.T"]));
    let mut made = draw(&["OI.", "ZLJ", "T.S"]);
    assert_eq!(made.clear_lines(), 1);
    assert_eq!(made.snapshot(), cells(&["...", "OI.", "T.S"]));
}

#[test]
fn snapshot_twice_gives_the_same_cells() {
    let made = draw(&["OIS", "ZLJ", "T.T", "..."]);
    let first = made.snapshot();
    let second = made.snapshot();
    assert_eq!(first, second);
    assert_eq!(first, cells(&["OIS", "ZLJ", "T.T", "..."]));
}
