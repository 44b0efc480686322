use falling_blocks::shape::{rotate, PieceColor, PieceType, Position};

const KINDS: [PieceType; 7] = [
    PieceType::O,
    PieceType::I,
    PieceType::S,
    PieceType::Z,
    PieceType::L,
    PieceType::J,
    PieceType::T,
];

#[test]
fn get_blocks_gives_the_layout_of_each_kind() {
    assert_eq!(PieceType::O.get_blocks(), vec![vec![true, true], vec![true, true]]);
    assert_eq!(PieceType::I.get_blocks(), vec![vec![true], vec![true], vec![true], vec![true]]);
    assert_eq!(PieceType::S.get_blocks(), vec![vec![false, true, true], vec![true, true, false]]);
    assert_eq!(PieceType::Z.get_blocks(), vec![vec![true, true, false], vec![false, true, true]]);
    assert_eq!(
        PieceType::L.get_blocks(),
        vec![vec![true, false], vec![true, false], vec![true, true]]
    );
    assert_eq!(
        PieceType::J.get_blocks(),
        vec![vec![false, true], vec![false, true], vec![true, true]]
    );
    assert_eq!(PieceType::T.get_blocks(), vec![vec![true, true, true], vec![false, true, false]]);
}

#[test]
fn offsets_of_each_kind() {
    let at = |x: i16, y: i16| Position { x, y };
    assert_eq!(PieceType::O.offsets(), [at(0, 0), at(1, 0), at(0, 1), at(1, 1)]);
    assert_eq!(PieceType::I.offsets(), [at(0, 0), at(0, 1), at(0, 2), at(0, 3)]);
    assert_eq!(PieceType::S.offsets(), [at(1, 0), at(2, 0), at(0, 1), at(1, 1)]);
    assert_eq!(PieceType::Z.offsets(), [at(0, 0), at(1, 0), at(1, 1), at(2, 1)]);
    assert_eq!(PieceType::L.offsets(), [at(0, 0), at(0, 1), at(0, 2), at(1, 2)]);
    assert_eq!(PieceType::J.offsets(), [at(1, 0), at(1, 1), at(0, 2), at(1, 2)]);
    assert_eq!(PieceType::T.offsets(), [at(0, 0), at(1, 0), at(2, 0), at(1, 1)]);
}

#[test]
fn offsets_are_the_blocks_of_the_layout_row_by_row() {
    for kind in KINDS {
        let mut cells = Vec::new();
        for (y, row) in kind.get_blocks().iter().enumerate() {
            for (x, filled) in row.iter().enumerate() {
                if *filled {
                    cells.push(Position { x: x as i16, y: y as i16 });
                }
            }
        }
        assert_eq!(cells, kind.offsets().to_vec(), "{:?}", kind);
    }
}

#[test]
fn every_kind_has_four_distinct_blocks() {
    for kind in KINDS {
        let offsets = kind.offsets();
        for i in 0..4 {
            for j in (i + 1)..4 {
                assert_ne!(offsets[i], offsets[j], "{:?}", kind);
            }
        }
    }
}

#[test]
fn get_color_of_each_kind() {
    assert_eq!(PieceType::O.get_color(), PieceColor::Yellow);
    assert_eq!(PieceType::I.get_color(), PieceColor::Blue);
    assert_eq!(PieceType::S.get_color(), PieceColor::Red);
    assert_eq!(PieceType::Z.get_color(), PieceColor::Green);
    assert_eq!(PieceType::L.get_color(), PieceColor::Orange);
    assert_eq!(PieceType::J.get_color(), PieceColor::Pink);
    assert_eq!(PieceType::T.get_color(), PieceColor::Purple);
}

#[test]
fn random_draws_every_kind_in_the_long_run() {
    let mut seen = [false; 7];
    for _ in 0..5000 {
        let kind = PieceType::random();
        let index = KINDS.iter().position(|k| *k == kind);
        assert!(index.is_some());
        seen[index.unwrap()] = true;
    }
    assert_eq!(seen, [true; 7]);
}

#[test]
fn rotate_turns_a_matrix_clockwise() {
    let turned = rotate(vec![vec![1, 2, 3], vec![4, 5, 6]]);
    assert_eq!(turned, vec![vec![4, 1], vec![5, 2], vec![6, 3]]);
}

#[test]
fn rotate_of_nothing_is_nothing() {
    let none: Vec<Vec<u8>> = Vec::new();
    assert_eq!(rotate(none), Vec::<Vec<u8>>::new());
    let no_columns: Vec<Vec<u8>> = vec![vec![], vec![]];
    assert_eq!(rotate(no_columns), Vec::<Vec<u8>>::new());
}

#[test]
fn rotate_goes_by_the_first_row() {
    let turned = rotate(vec![vec![1, 2], vec![3, 4, 5]]);
    assert_eq!(turned, vec![vec![3, 1], vec![4, 2]]);
}

#[test]
fn rotate_four_times_gives_the_matrix_back() {
    for kind in KINDS {
        let start = kind.get_blocks();
        let round = rotate(rotate(rotate(rotate(start.clone()))));
        assert_eq!(round, start, "{:?}", kind);
    }
}

#[test]
fn rotate_of_a_layout() {
    let turned = rotate(PieceType::T.get_blocks());
    assert_eq!(turned, vec![vec![false, true], vec![true, true], vec![false, true]]);
    let turned = rotate(PieceType::I.get_blocks());
    assert_eq!(turned, vec![vec![true, true, true, true]]);
}
