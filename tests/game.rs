use bevy_turborand::GlobalRng;
use tetris::board::TetrisGame;
use tetris::game::{FrameInput, GameState};
use tetris::piece::{Position, Rotation, Tetr, Tetromino};
use tetris::queue::TetroQueue;
use tetris::score::Score;

fn cells(list: &[(i32, i32)]) -> Vec<Position> {
    list.iter().map(|&(x, y)| Position { x, y }).collect()
}

fn idle() -> FrameInput {
    FrameInput { gravity: false, left: false, right: false, down: false, rotate: false, hard_drop: false }
}

#[test]
fn new_game_has_one_bag_queued() {
    let mut rng = GlobalRng::with_seed(7);
    let state = GameState::new(&mut rng);
    assert_eq!(state.queue.len(), 7);
    assert!(state.active.is_none());
    assert!(state.locked.is_empty());
    assert_eq!(state.game.score, Score { score: 0, level: 0 });
}

#[test]
fn first_frame_spawns_the_head_of_the_queue() {
    let mut rng = GlobalRng::with_seed(3);
    let mut state = GameState::new(&mut rng);
    let head = *state.queue.get(0).unwrap();
    let report = state.step(&idle(), &mut rng);
    assert!(!report.spawn_refused);
    let active = state.active.as_ref().unwrap();
    assert_eq!(active.tetromino, head);
    assert_eq!(active.positions, head.start_positions());
    assert_eq!(state.queue.len(), 6);
}

#[test]
fn gravity_moves_one_row() {
    let mut rng = GlobalRng::with_seed(3);
    let mut state = GameState::new(&mut rng);
    state.step(&idle(), &mut rng);
    let before = state.active.as_ref().unwrap().positions.clone();
    state.step(&FrameInput { gravity: true, ..idle() }, &mut rng);
    let after = &state.active.as_ref().unwrap().positions;
    for (a, b) in after.iter().zip(before.iter()) {
        assert_eq!(a.x, b.x);
        assert_eq!(a.y, b.y - 1);
    }
}

#[test]
fn hard_drop_locks_on_the_floor_and_spawns_next() {
    let mut rng = GlobalRng::with_seed(11);
    let mut state = GameState::new(&mut rng);
    state.step(&idle(), &mut rng);
    let first = state.active.as_ref().unwrap().tetromino;
    let next = *state.queue.get(0).unwrap();
    state.step(&FrameInput { hard_drop: true, ..idle() }, &mut rng);
    assert_eq!(state.locked.len(), 1);
    assert_eq!(state.locked[0].tetromino, first);
    assert_eq!(state.locked[0].positions.iter().map(|p| p.y).min(), Some(0));
    assert_eq!(state.active.as_ref().unwrap().tetromino, next);
    assert!(state.game.is_occupied(state.locked[0].positions[0].x, state.locked[0].positions[0].y));
}

#[test]
fn completed_row_is_cleared_and_scored() {
    let mut rng = GlobalRng::with_seed(5);
    let mut state = GameState {
        game: TetrisGame::default(),
        active: Some(Tetr {
            positions: cells(&[(8, 1), (9, 1), (8, 2), (9, 2)]),
            rotation: Rotation::Zero,
            tetromino: Tetromino::O,
        }),
        locked: vec![
            Tetr {
                positions: cells(&[(0, 0), (1, 0), (2, 0), (3, 0)]),
                rotation: Rotation::Zero,
                tetromino: Tetromino::I,
            },
            Tetr {
                positions: cells(&[(4, 0), (5, 0), (6, 0), (7, 0)]),
                rotation: Rotation::Zero,
                tetromino: Tetromino::I,
            },
        ],
        queue: TetroQueue::default(),
        glitch: 0,
        buffer_update: false,
    };
    let report = state.step(&FrameInput { gravity: true, ..idle() }, &mut rng);
    assert_eq!(report.cleared, 1);
    assert!(!report.leveled_up);
    assert!(!report.spawn_refused);
    assert_eq!(state.game.score, Score { score: 1, level: 0 });
    assert_eq!(state.glitch, 1);
    assert!(state.buffer_update);
    assert!(state.game.field.iter().all(|c| !c));
    assert_eq!(state.locked[2].positions, cells(&[(8, 0), (9, 0)]));
    // The empty queue gave the fallback O piece, then was refilled.
    assert_eq!(state.active.as_ref().unwrap().tetromino, Tetromino::O);
    assert_eq!(state.queue.len(), 7);
}

#[test]
fn occupied_spawn_cells_refuse_the_spawn() {
    let mut rng = GlobalRng::with_seed(5);
    let mut game = TetrisGame::default();
    game.merge(&cells(&[(4, 21)]));
    let mut queue = TetroQueue::default();
    queue.push(Tetromino::T);
    queue.push(Tetromino::I);
    let mut state = GameState {
        game,
        active: None,
        locked: Vec::new(),
        queue,
        glitch: 0,
        buffer_update: false,
    };
    let refused = state.spawn_new_piece(&mut rng);
    assert!(refused);
    assert!(state.active.is_none());
    assert_eq!(state.queue.len(), 1);
}

#[test]
fn level_up_is_reported() {
    let mut rng = GlobalRng::with_seed(5);
    let mut state = GameState {
        game: TetrisGame { field: vec![false; 400], score: Score { score: 4, level: 0 } },
        active: Some(Tetr {
            positions: cells(&[(8, 1), (9, 1), (8, 2), (9, 2)]),
            rotation: Rotation::Zero,
            tetromino: Tetromino::O,
        }),
        locked: vec![Tetr {
            positions: (0..8).map(|x| Position { x, y: 0 }).collect(),
            rotation: Rotation::Zero,
            tetromino: Tetromino::L,
        }],
        queue: TetroQueue::default(),
        glitch: 0,
        buffer_update: false,
    };
    let report = state.step(&FrameInput { gravity: true, ..idle() }, &mut rng);
    assert_eq!(report.cleared, 1);
    assert!(report.leveled_up);
    assert_eq!(state.game.score, Score { score: 0, level: 1 });
}

#[test]
fn long_run_keeps_grid_made_of_locked_cells() {
    let mut rng = GlobalRng::with_seed(42);
    let mut state = GameState::new(&mut rng);
    for frame in 0u32..2000 {
        let input = FrameInput {
            gravity: frame % 2 == 0,
            left: frame % 7 == 1,
            right: frame % 11 == 3,
            down: frame % 5 == 2,
            rotate: frame % 3 == 1,
            hard_drop: frame % 29 == 0,
        };
        state.step(&input, &mut rng);
        for y in 0..40 {
            for x in 0..10 {
                if state.game.is_occupied(x, y) {
                    assert!(state
                        .locked
                        .iter()
                        .any(|p| p.positions.iter().any(|c| c.x == x && c.y == y)));
                }
            }
        }
        if let Some(active) = &state.active {
            assert_eq!(active.positions.len(), 4);
            assert!(active.positions.iter().all(|c| c.x >= 0 && c.x < 10 && c.y >= 1));
        }
        assert!(state.game.score.score < state.game.score.goal());
    }
}
