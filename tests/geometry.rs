use weblok::{
    check_mask, mask_to_coords, parse_mask, rot_piece_180, rot_piece_90, shape_offsets, MaskCell,
    Piece, Rotation, ShapeError, PIECE_COUNT,
};

fn rows(text: &[&str]) -> Vec<String> {
    text.iter().map(|s| s.to_string()).collect()
}

fn sorted(mut v: Vec<(i8, i8)>) -> Vec<(i8, i8)> {
    v.sort();
    v
}

const ROTATIONS: [Rotation; 4] = [
    Rotation::Zero,
    Rotation::Ninety,
    Rotation::OneEighty,
    Rotation::TwoSeventy,
];

#[test]
fn four_quarter_turns_give_the_mask_back() {
    let m = vec![vec![1u8, 2, 3], vec![4, 5, 6]];
    let once = rot_piece_90(&m);
    assert_eq!(once, vec![vec![3, 6], vec![2, 5], vec![1, 4]]);
    let back = rot_piece_90(&rot_piece_90(&rot_piece_90(&once)));
    assert_eq!(back, m);
}

#[test]
fn four_quarter_turns_of_every_piece() {
    for p in Piece::all() {
        let m = p.shape();
        let back = rot_piece_90(&rot_piece_90(&rot_piece_90(&rot_piece_90(&m))));
        assert_eq!(back, m);
    }
}

#[test]
fn two_quarter_turns_are_a_half_turn() {
    let m = vec![vec!['a', 'b', 'c'], vec!['d', 'e', 'f']];
    assert_eq!(rot_piece_180(&m), vec![vec!['f', 'e', 'd'], vec!['c', 'b', 'a']]);
    assert_eq!(rot_piece_90(&rot_piece_90(&m)), rot_piece_180(&m));
}

#[test]
fn cell_count_is_the_same_in_every_rotation() {
    let expected = [1, 2, 3, 3, 4, 4, 4, 4, 4, 5, 5, 5, 5, 5, 5, 5, 5, 5, 5, 5, 5];
    for (p, n) in Piece::all().into_iter().zip(expected) {
        for rot in ROTATIONS {
            assert_eq!(p.offsets(rot).offsets.len(), n, "{:?} {:?}", p, rot);
        }
    }
}

#[test]
fn offsets_of_u_are_scanned_column_by_column() {
    let o = Piece::FiveU.offsets(Rotation::Zero);
    assert_eq!(o.offsets, vec![(0, 0), (0, 1), (1, 0), (2, 0), (2, 1)]);
    assert_eq!(o.pivot, (1, 0));
    let h = Piece::FiveU.offsets(Rotation::OneEighty);
    assert_eq!(h.offsets, vec![(0, 0), (0, 1), (1, 1), (2, 0), (2, 1)]);
    assert_eq!(h.pivot, (1, 1));
}

#[test]
fn offsets_of_l_in_each_rotation() {
    let p = Piece::ThreeL;
    assert_eq!(p.offsets(Rotation::Zero).offsets, vec![(0, 0), (0, 1), (1, 0)]);
    assert_eq!(p.offsets(Rotation::Zero).pivot, (0, 0));
    assert_eq!(p.offsets(Rotation::Ninety).offsets, vec![(0, 0), (0, 1), (1, 1)]);
    assert_eq!(p.offsets(Rotation::Ninety).pivot, (0, 1));
    assert_eq!(p.offsets(Rotation::OneEighty).offsets, vec![(0, 1), (1, 0), (1, 1)]);
    assert_eq!(p.offsets(Rotation::OneEighty).pivot, (1, 1));
    assert_eq!(p.offsets(Rotation::TwoSeventy).offsets, vec![(0, 0), (1, 0), (1, 1)]);
    assert_eq!(p.offsets(Rotation::TwoSeventy).pivot, (1, 0));
}

#[test]
fn offsets_are_deterministic() {
    for p in Piece::all() {
        for rot in ROTATIONS {
            assert_eq!(p.offsets(rot).offsets, p.offsets(rot).offsets);
        }
    }
}

#[test]
fn next_clockwise_cycles_through_all_rotations() {
    assert_eq!(Rotation::Zero.next_clockwise(), Rotation::Ninety);
    assert_eq!(Rotation::Ninety.next_clockwise(), Rotation::OneEighty);
    assert_eq!(Rotation::OneEighty.next_clockwise(), Rotation::TwoSeventy);
    assert_eq!(Rotation::TwoSeventy.next_clockwise(), Rotation::Zero);
}

#[test]
fn pieces_cycle_in_catalog_order() {
    let all = Piece::all();
    assert_eq!(all.len(), PIECE_COUNT);
    assert_eq!(all[0], Piece::One);
    assert_eq!(all[20], Piece::FiveZ);
    assert_eq!(Piece::FiveZ.next(), Piece::One);
    assert_eq!(Piece::One.next(), Piece::Two);
    assert_eq!(Piece::One.prev(), Piece::FiveZ);
    assert_eq!(Piece::FiveU.prev(), Piece::FiveT);
    for (i, p) in all.iter().enumerate() {
        assert_eq!(p.index(), i);
        assert_eq!(Piece::from_index(i), *p);
        assert_eq!(p.next().prev(), *p);
    }
}

#[test]
fn mask_scan_finds_cells_and_pivot() {
    let x = MaskCell::Solid;
    let o = MaskCell::Pivot;
    let e = MaskCell::Empty;
    let (cells, pivot) = mask_to_coords(&vec![vec![e, x], vec![x, o]]);
    assert_eq!(cells, vec![(0, 1), (1, 0), (1, 1)]);
    assert_eq!(pivot, (1, 1));
}

#[test]
fn every_catalog_shape_passes_the_check() {
    for p in Piece::all() {
        assert_eq!(check_mask(&p.shape()), Ok(()), "{:?}", p);
    }
}

#[test]
fn check_mask_names_each_fault() {
    let x = MaskCell::Solid;
    let o = MaskCell::Pivot;
    let e = MaskCell::Empty;
    assert_eq!(check_mask(&vec![]), Err(ShapeError::NoRows));
    assert_eq!(check_mask(&vec![vec![x, o], vec![x]]), Err(ShapeError::RaggedRows(2)));
    assert_eq!(check_mask(&vec![vec![x], vec![o, x]]), Err(ShapeError::RaggedRows(2)));
    assert_eq!(check_mask(&vec![vec![x], vec![o, x, x], vec![x, x]]), Err(ShapeError::RaggedRows(3)));
    assert_eq!(check_mask(&vec![vec![x, e], vec![x, x]]), Err(ShapeError::NoPivot));
    assert_eq!(check_mask(&vec![vec![o, o]]), Err(ShapeError::ManyPivots));
    assert_eq!(check_mask(&vec![vec![x, o, x]]), Ok(()));
}

#[test]
fn parse_mask_reads_and_checks() {
    let x = MaskCell::Solid;
    let o = MaskCell::Pivot;
    let e = MaskCell::Empty;
    assert_eq!(parse_mask(&rows(&["XOX", "X_X"])), Ok(vec![vec![x, o, x], vec![x, e, x]]));
    assert_eq!(parse_mask(&rows(&["XOX", "XQX"])), Err(ShapeError::InvalidChar('Q')));
    assert_eq!(parse_mask(&rows(&["XOX", "X_"])), Err(ShapeError::RaggedRows(3)));
    assert_eq!(parse_mask(&rows(&["X", "OX"])), Err(ShapeError::RaggedRows(2)));
    assert_eq!(parse_mask(&rows(&["X?", "O", "XZ"])), Err(ShapeError::InvalidChar('?')));
    assert_eq!(parse_mask(&rows(&["XO", "Xa!"])), Err(ShapeError::InvalidChar('a')));
    assert_eq!(parse_mask(&rows(&["XXX"])), Err(ShapeError::NoPivot));
    assert_eq!(parse_mask(&rows(&["XO", "OX"])), Err(ShapeError::ManyPivots));
    assert_eq!(parse_mask(&rows(&[])), Err(ShapeError::NoRows));
}

#[test]
fn shape_offsets_matches_the_catalog() {
    for rot in ROTATIONS {
        let o = shape_offsets(&rows(&["XOX", "X_X"]), rot).unwrap();
        let c = Piece::FiveU.offsets(rot);
        assert_eq!(o.offsets, c.offsets);
        assert_eq!(o.pivot, c.pivot);
    }
    let y = shape_offsets(&rows(&["_X", "XO", "_X", "_X"]), Rotation::Ninety).unwrap();
    assert_eq!(sorted(y.offsets), sorted(Piece::FiveY.offsets(Rotation::Ninety).offsets));
    assert!(matches!(
        shape_offsets(&rows(&["X!"]), Rotation::Zero),
        Err(ShapeError::InvalidChar('!'))
    ));
    assert!(matches!(
        shape_offsets(&rows(&["X", "OX"]), Rotation::Ninety),
        Err(ShapeError::RaggedRows(2))
    ));
}

#[test]
fn sketch_of_piece_offsets() {
    let s = Piece::FiveU.offsets(Rotation::Zero).repr();
    assert_eq!(s, "XXX--\nX-X--\n-----\n-----\n-----");
    let one = Piece::One.offsets(Rotation::Zero).repr();
    assert_eq!(one, "X----\n-----\n-----\n-----\n-----");
}

#[test]
fn pivot_is_one_of_the_offsets() {
    for p in Piece::all() {
        for rot in ROTATIONS {
            let o = p.offsets(rot);
            assert!(o.offsets.contains(&o.pivot), "{:?} {:?}", p, rot);
        }
    }
}

#[test]
fn clockwise_turn_gives_the_quarter_turned_mask() {
    for p in Piece::all() {
        let m = p.shape();
        let mut rot = Rotation::Zero;
        let mut turned = m.clone();
        for _ in 0..4 {
            let (cells, pivot) = mask_to_coords(&turned);
            assert_eq!(cells, p.offsets(rot).offsets, "{:?} {:?}", p, rot);
            assert_eq!(pivot, p.offsets(rot).pivot);
            rot = rot.next_clockwise();
            turned = rot_piece_90(&turned);
        }
    }
}
