use tetris::piece::{Position, Rotation, Tetr, Tetromino};

const ALL: [Tetromino; 7] = [
    Tetromino::I,
    Tetromino::O,
    Tetromino::T,
    Tetromino::S,
    Tetromino::Z,
    Tetromino::J,
    Tetromino::L,
];

fn cells(list: &[(i32, i32)]) -> Vec<Position> {
    list.iter().map(|&(x, y)| Position { x, y }).collect()
}

#[test]
fn start_positions_are_four_distinct_cells() {
    for t in ALL {
        let ps = t.start_positions();
        assert_eq!(ps.len(), 4);
        for i in 0..4 {
            for j in 0..4 {
                if i != j {
                    assert_ne!(ps[i], ps[j]);
                }
            }
        }
    }
}

#[test]
fn start_positions_match_the_spawn_layout() {
    assert_eq!(Tetromino::I.start_positions(), cells(&[(3, 21), (4, 21), (5, 21), (6, 21)]));
    assert_eq!(Tetromino::O.start_positions(), cells(&[(4, 21), (5, 21), (4, 22), (5, 22)]));
    assert_eq!(Tetromino::J.start_positions(), cells(&[(3, 22), (3, 21), (4, 21), (5, 21)]));
}

#[test]
fn four_spins_bring_every_piece_back() {
    for t in ALL {
        let mut tetr = Tetr::new(t);
        for _ in 0..4 {
            tetr.spin();
        }
        assert_eq!(tetr.positions, t.start_positions());
        assert_eq!(tetr.rotation, Rotation::Zero);
    }
}

#[test]
fn i_piece_turns_vertical() {
    let r = Tetromino::I.try_basic_rotation(&Tetromino::I.start_positions(), &Rotation::Zero);
    assert_eq!(r, cells(&[(5, 22), (5, 21), (5, 20), (5, 19)]));
}

#[test]
fn t_piece_rotation_from_ninety() {
    let from = cells(&[(4, 22), (4, 21), (4, 20), (5, 21)]);
    let r = Tetromino::T.try_basic_rotation(&from, &Rotation::Ninety);
    assert_eq!(r, cells(&[(5, 21), (4, 21), (3, 21), (4, 20)]));
}

#[test]
fn o_rotation_is_a_no_op_in_every_state() {
    let start = Tetromino::O.start_positions();
    for r in [Rotation::Zero, Rotation::Ninety, Rotation::OneEighty, Rotation::TwoHundredSeventy] {
        assert_eq!(Tetromino::O.try_basic_rotation(&start, &r), start);
    }
    let mut o = Tetr::new(Tetromino::O);
    o.spin();
    assert_eq!(o.positions, start);
    assert_eq!(o.rotation, Rotation::Ninety);
}

#[test]
fn spin_at_left_wall_shifts_right() {
    let mut tetr = Tetr {
        positions: cells(&[(0, 22), (0, 21), (0, 20), (0, 19)]),
        rotation: Rotation::Ninety,
        tetromino: Tetromino::I,
    };
    tetr.spin();
    assert_eq!(tetr.positions, cells(&[(3, 20), (2, 20), (1, 20), (0, 20)]));
    assert_eq!(tetr.rotation, Rotation::OneEighty);
}

#[test]
fn spin_at_right_wall_shifts_left() {
    let mut tetr = Tetr {
        positions: cells(&[(9, 19), (9, 20), (9, 21), (9, 22)]),
        rotation: Rotation::TwoHundredSeventy,
        tetromino: Tetromino::I,
    };
    tetr.spin();
    assert_eq!(tetr.positions, cells(&[(6, 21), (7, 21), (8, 21), (9, 21)]));
    assert_eq!(tetr.rotation, Rotation::Zero);
}

#[test]
fn move_left_at_wall_keeps_positions() {
    let start = cells(&[(0, 5), (1, 5), (2, 5), (1, 6)]);
    let mut tetr = Tetr { positions: start.clone(), rotation: Rotation::Zero, tetromino: Tetromino::T };
    tetr.move_left();
    assert_eq!(tetr.positions, start);
}

#[test]
fn move_right_at_wall_keeps_positions() {
    let start = cells(&[(7, 5), (8, 5), (9, 5), (8, 6)]);
    let mut tetr = Tetr { positions: start.clone(), rotation: Rotation::Zero, tetromino: Tetromino::T };
    tetr.move_right();
    assert_eq!(tetr.positions, start);
}

#[test]
fn free_moves_shift_one_column() {
    let mut tetr = Tetr::new(Tetromino::S);
    tetr.move_left();
    assert_eq!(tetr.positions, cells(&[(2, 21), (3, 21), (3, 22), (4, 22)]));
    tetr.move_right();
    tetr.move_right();
    assert_eq!(tetr.positions, cells(&[(4, 21), (5, 21), (5, 22), (6, 22)]));
    tetr.shift_down();
    assert_eq!(tetr.positions, cells(&[(4, 20), (5, 20), (5, 21), (6, 21)]));
}

#[test]
fn piece_names() {
    let names: Vec<String> = ALL.iter().map(|t| t.to_string()).collect();
    assert_eq!(names, vec!["I", "O", "T", "S", "Z", "J", "L"]);
}
