use weblok::{coords_for_placement, Board, Grid, Occupancy, Piece, Rotation, Validity, DIM};

fn cells_of(board: &Board, color: Occupancy) -> Vec<(i8, i8)> {
    let mut v = vec![];
    for y in 0..DIM as i8 {
        for x in 0..DIM as i8 {
            if board.occupancies.get(x, y) == color {
                v.push((x, y));
            }
        }
    }
    v
}

#[test]
fn new_board_is_empty() {
    let b = Board::new();
    assert!(cells_of(&b, Occupancy::Empty).len() == DIM * DIM);
}

#[test]
fn u_at_half_turn_in_the_corner() {
    let mut b = Board::new();
    assert!(b.place(Occupancy::Green, Piece::FiveU, Rotation::OneEighty, 0, 0));
    assert_eq!(
        cells_of(&b, Occupancy::Green),
        vec![(0, 0), (2, 0), (0, 1), (1, 1), (2, 1)]
    );
    assert_eq!(cells_of(&b, Occupancy::Empty).len(), DIM * DIM - 5);

    for (x, y) in [(1, 0), (3, 0), (3, 1), (0, 2), (1, 2), (2, 2)] {
        let before = b.clone();
        assert!(!b.place(Occupancy::Green, Piece::One, Rotation::Zero, x, y), "({x}, {y})");
        assert_eq!(b, before);
    }

    let before = b.clone();
    assert!(b.place(Occupancy::Green, Piece::One, Rotation::Zero, 3, 2));
    assert_ne!(b, before);
    assert_eq!(b.occupancies.get(3, 2), Occupancy::Green);
}

#[test]
fn illegal_placement_leaves_board_unchanged() {
    let mut b = Board::new();
    assert!(b.place(Occupancy::Red, Piece::FourSquare, Rotation::Zero, 0, 0));
    let before = b.clone();
    // overlaps an occupied cell
    assert!(!b.place(Occupancy::Blue, Piece::FiveI, Rotation::Zero, 1, 1));
    assert_eq!(b, before);
    // runs off the board
    assert!(!b.place(Occupancy::Blue, Piece::FiveI, Rotation::Zero, 17, 19));
    assert_eq!(b, before);
    // anchored far off the board
    assert!(!b.place(Occupancy::Blue, Piece::FiveI, Rotation::Zero, 120, 120));
    assert!(!b.place(Occupancy::Blue, Piece::One, Rotation::Zero, -3, -128));
    assert_eq!(b, before);
    // no anchor
    assert!(!b.place(Occupancy::Blue, Piece::One, Rotation::Zero, 10, 10));
    assert_eq!(b, before);
}

#[test]
fn same_color_pieces_never_touch_flush() {
    let mut b = Board::new();
    let c = Occupancy::Yellow;
    let mut owner = vec![vec![0usize; DIM]; DIM];
    let moves = [
        (Piece::FiveL, Rotation::Zero, 0, 0),
        (Piece::FourT, Rotation::Ninety, 2, 2),
        (Piece::FiveX, Rotation::Zero, 3, 4),
        (Piece::Two, Rotation::Zero, 2, 1),
        (Piece::ThreeI, Rotation::Ninety, 6, 1),
        (Piece::FiveW, Rotation::OneEighty, 5, 6),
    ];
    for (k, (p, rot, col, row)) in moves.into_iter().enumerate() {
        if b.place(c, p, rot, col, row) {
            for (x, y) in coords_for_placement(p, rot, col, row) {
                owner[y as usize][x as usize] = k + 1;
            }
        }
    }
    let mut placed = 0;
    for y in 0..DIM {
        for x in 0..DIM {
            if owner[y][x] != 0 {
                placed += 1;
                if x + 1 < DIM && owner[y][x + 1] != 0 {
                    assert_eq!(owner[y][x], owner[y][x + 1]);
                }
                if y + 1 < DIM && owner[y + 1][x] != 0 {
                    assert_eq!(owner[y][x], owner[y + 1][x]);
                }
            }
        }
    }
    assert!(placed >= 5);
    assert_eq!(cells_of(&b, c).len(), placed);
}

#[test]
fn first_move_needs_a_board_corner() {
    let mut b = Board::new();
    assert!(!b.place(Occupancy::Blue, Piece::FiveX, Rotation::Zero, 5, 5));
    assert!(!b.place(Occupancy::Blue, Piece::One, Rotation::Zero, 1, 0));
    assert!(!b.place(Occupancy::Blue, Piece::FiveL, Rotation::Zero, 16, 18));
    assert!(b.place(Occupancy::Blue, Piece::FiveL, Rotation::OneEighty, 16, 18));
    assert_eq!(b.occupancies.get(19, 19), Occupancy::Blue);
    assert!(b.place(Occupancy::Red, Piece::One, Rotation::Zero, 0, 19));
    assert!(b.place(Occupancy::Green, Piece::Two, Rotation::Ninety, 19, 0));
}

#[test]
fn validity_map_on_an_empty_board() {
    let b = Board::new();
    let m = b.derive_validity_map(Occupancy::Green);
    for y in 0..DIM as i8 {
        for x in 0..DIM as i8 {
            let corner = (x == 0 || x == 19) && (y == 0 || y == 19);
            let want = if corner { Validity::Anchor } else { Validity::Valid };
            assert_eq!(m.get(x, y), want);
        }
    }
}

#[test]
fn validity_map_agrees_with_placement() {
    let mut b = Board::new();
    assert!(b.place(Occupancy::Green, Piece::FiveF, Rotation::Zero, 0, 0));
    assert!(b.place(Occupancy::Red, Piece::FiveV, Rotation::Zero, 17, 0));
    let m = b.derive_validity_map(Occupancy::Green);
    let mut anchors = 0;
    let mut invalid = 0;
    for y in 0..DIM as i8 {
        for x in 0..DIM as i8 {
            let mut trial = b.clone();
            let ok = trial.place(Occupancy::Green, Piece::One, Rotation::Zero, x, y);
            match m.get(x, y) {
                Validity::Invalid => {
                    invalid += 1;
                    assert!(!ok);
                }
                Validity::Anchor => {
                    anchors += 1;
                    assert!(ok);
                }
                Validity::Valid => assert!(!ok),
            }
        }
    }
    assert!(anchors > 3);
    assert!(invalid > 10);
    assert_eq!(m.get(1, 1), Validity::Invalid);
    assert_eq!(m.get(0, 0), Validity::Invalid);
    assert_eq!(m.get(3, 0), Validity::Anchor);
}

#[test]
fn vomit_placements_overwrites_every_cell() {
    let b = Board::new();
    let mut g: Grid<Validity> = Grid::new();
    g.set(5, 5, Validity::Invalid);
    b.vomit_placements(Occupancy::Green, &mut g);
    assert_eq!(g.get(5, 5), Validity::Valid);
    assert_eq!(g.get(19, 19), Validity::Anchor);
}

#[test]
fn is_placement_valid_on_given_cells() {
    let b = Board::new();
    assert!(b.is_placement_valid(Occupancy::Red, &vec![(0, 0), (1, 0)]));
    assert!(!b.is_placement_valid(Occupancy::Red, &vec![(5, 5), (6, 5)]));
    assert!(!b.is_placement_valid(Occupancy::Red, &vec![]));
    assert!(!b.is_placement_valid(Occupancy::Red, &vec![(0, 0), (-1, 0)]));
    assert!(!b.is_placement_valid(Occupancy::Red, &vec![(19, 19), (20, 19)]));
}

#[test]
fn coords_for_placement_adds_the_anchor() {
    assert_eq!(
        coords_for_placement(Piece::FiveU, Rotation::Zero, 4, 7),
        vec![(4, 7), (4, 8), (5, 7), (6, 7), (6, 8)]
    );
    assert_eq!(coords_for_placement(Piece::One, Rotation::Zero, -2, 3), vec![(-2, 3)]);
}

#[test]
fn grid_accessors() {
    let mut g: Grid<Occupancy> = Grid::new();
    assert_eq!(g.get_opt(-1, 0), None);
    assert_eq!(g.get_opt(0, 20), None);
    assert_eq!(g.get_opt(19, 19), Some(Occupancy::Empty));
    g.set(3, 4, Occupancy::Blue);
    assert_eq!(g.get(3, 4), Occupancy::Blue);
    assert_eq!(g.get_opt(3, 4), Some(Occupancy::Blue));
    assert_eq!(g.get(4, 3), Occupancy::Empty);
}

#[test]
fn board_text_has_one_character_per_cell() {
    let mut b = Board::new();
    assert!(b.place(Occupancy::Green, Piece::Two, Rotation::Zero, 0, 0));
    let text = b.occupancies.to_string();
    let lines: Vec<&str> = text.split('\n').collect();
    assert_eq!(lines.len(), DIM);
    assert_eq!(lines[0], format!("GG{}", "\u{b7}".repeat(18)));
    for line in &lines[1..] {
        assert_eq!(*line, "\u{b7}".repeat(20));
    }
}

#[test]
fn placements_text_marks_anchors_and_invalid_cells() {
    let mut b = Board::new();
    assert!(b.place(Occupancy::Green, Piece::One, Rotation::Zero, 0, 0));
    let text = b.placements_text(Occupancy::Green);
    let lines: Vec<&str> = text.split('\n').collect();
    assert_eq!(lines.len(), DIM);
    assert_eq!(lines[0], format!("XX{}O", "-".repeat(17)));
    assert_eq!(lines[1], format!("XO{}", "-".repeat(18)));
    assert_eq!(lines[19], format!("O{}O", "-".repeat(18)));
}

#[test]
fn occupancy_labels_and_turn_order() {
    assert_eq!(Occupancy::Green.to_string(), "G");
    assert_eq!(Occupancy::Red.to_string(), "R");
    assert_eq!(Occupancy::Blue.to_string(), "B");
    assert_eq!(Occupancy::Yellow.to_string(), "Y");
    assert_eq!(Occupancy::Empty.to_string(), "\u{b7}");
    assert_eq!(Occupancy::Green.next_color(), Occupancy::Red);
    assert_eq!(Occupancy::Yellow.next_color(), Occupancy::Green);
    assert_eq!(Occupancy::default(), Occupancy::Empty);
    assert_eq!(Validity::default(), Validity::Valid);
}
