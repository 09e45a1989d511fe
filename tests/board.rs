use tetris::board::{check_field_under, TetrisGame};
use tetris::piece::{Position, Rotation, Tetr, Tetromino};

fn cells(list: &[(i32, i32)]) -> Vec<Position> {
    list.iter().map(|&(x, y)| Position { x, y }).collect()
}

fn piece(t: Tetromino, list: &[(i32, i32)]) -> Tetr {
    Tetr { positions: cells(list), rotation: Rotation::Zero, tetromino: t }
}

#[test]
fn new_board_is_empty() {
    let game = TetrisGame::default();
    assert_eq!(game.field.len(), 400);
    assert!(game.field.iter().all(|c| !c));
}

#[test]
fn cell_on_floor_rests() {
    let game = TetrisGame::default();
    assert!(check_field_under(&game, &cells(&[(4, 0), (5, 0), (4, 1), (5, 1)])));
}

#[test]
fn cell_above_occupied_rests() {
    let mut game = TetrisGame::default();
    game.merge(&cells(&[(6, 4)]));
    assert!(game.is_occupied(6, 4));
    assert!(check_field_under(&game, &cells(&[(5, 6), (6, 6), (6, 5), (7, 5)])));
    assert!(!check_field_under(&game, &cells(&[(5, 7), (6, 7), (6, 6), (7, 6)])));
}

#[test]
fn piece_in_air_does_not_rest() {
    let game = TetrisGame::default();
    assert!(!check_field_under(&game, &cells(&[(3, 21), (4, 21), (5, 21), (6, 21)])));
}

#[test]
fn merge_ignores_cells_off_the_grid() {
    let mut game = TetrisGame::default();
    game.merge(&cells(&[(-1, 0), (10, 3), (2, 40), (2, -1), (9, 39)]));
    assert_eq!(game.field.iter().filter(|c| **c).count(), 1);
    assert!(game.is_occupied(9, 39));
}

#[test]
fn one_full_row_is_cleared() {
    let mut game = TetrisGame::default();
    let mut locked = vec![
        piece(Tetromino::I, &[(0, 0), (1, 0), (2, 0), (3, 0)]),
        piece(Tetromino::I, &[(4, 0), (5, 0), (6, 0), (7, 0)]),
        piece(Tetromino::O, &[(8, 0), (9, 0), (8, 1), (9, 1)]),
        piece(Tetromino::T, &[(3, 1), (4, 1), (5, 1), (4, 2)]),
    ];
    for p in &locked {
        game.merge(&p.positions);
    }
    let cleared = game.clear_full_rows(&mut locked);
    assert_eq!(cleared, 1);
    assert!(game.field.iter().all(|c| !c));
    assert!(locked[0].positions.is_empty());
    assert!(locked[1].positions.is_empty());
    assert_eq!(locked[2].positions, cells(&[(8, 0), (9, 0)]));
    assert_eq!(locked[3].positions, cells(&[(3, 0), (4, 0), (5, 0), (4, 1)]));
}

#[test]
fn two_full_rows_with_a_gap() {
    let mut game = TetrisGame::default();
    let mut row0: Vec<(i32, i32)> = (0..10).map(|x| (x, 0)).collect();
    let row2: Vec<(i32, i32)> = (0..10).map(|x| (x, 2)).collect();
    row0.extend(row2);
    let mut locked = vec![
        piece(Tetromino::L, &row0),
        piece(Tetromino::J, &[(0, 1), (0, 3), (1, 3), (0, 5)]),
    ];
    for p in &locked {
        game.merge(&p.positions);
    }
    let cleared = game.clear_full_rows(&mut locked);
    assert_eq!(cleared, 2);
    assert!(locked[0].positions.is_empty());
    assert_eq!(locked[1].positions, cells(&[(0, 0), (0, 1), (1, 1), (0, 3)]));
    assert!(game.field.iter().all(|c| !c));
}

#[test]
fn no_full_row_leaves_everything() {
    let mut game = TetrisGame::default();
    let mut locked = vec![piece(Tetromino::I, &[(0, 0), (1, 0), (2, 0), (3, 0)])];
    game.merge(&locked[0].positions);
    let before = game.field.clone();
    assert_eq!(game.clear_full_rows(&mut locked), 0);
    assert_eq!(game.field, before);
    assert_eq!(locked[0].positions, cells(&[(0, 0), (1, 0), (2, 0), (3, 0)]));
}
