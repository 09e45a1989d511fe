use bevy_turborand::GlobalRng;
use tetris::piece::Tetromino;
use tetris::queue::TetroQueue;

fn drain(q: &mut TetroQueue) -> Vec<Tetromino> {
    let mut out = Vec::new();
    while let Some(t) = q.pop() {
        out.push(t);
    }
    out
}

fn is_one_of_each(batch: &[Tetromino]) -> bool {
    batch.len() == 7
        && [Tetromino::I, Tetromino::O, Tetromino::T, Tetromino::S, Tetromino::Z, Tetromino::J, Tetromino::L]
            .iter()
            .all(|t| batch.iter().filter(|b| *b == t).count() == 1)
}

#[test]
fn first_index_draws_keep_bag_order() {
    let mut q = TetroQueue::default();
    q.fill_with_draws(&vec![0, 0, 0, 0, 0, 0, 0]);
    assert_eq!(
        drain(&mut q),
        vec![Tetromino::I, Tetromino::O, Tetromino::T, Tetromino::S, Tetromino::Z, Tetromino::J, Tetromino::L]
    );
}

#[test]
fn last_index_draws_reverse_bag() {
    let mut q = TetroQueue::default();
    q.fill_with_draws(&vec![6, 5, 4, 3, 2, 1, 0]);
    assert_eq!(
        drain(&mut q),
        vec![Tetromino::L, Tetromino::J, Tetromino::Z, Tetromino::S, Tetromino::T, Tetromino::O, Tetromino::I]
    );
}

#[test]
fn mixed_draws() {
    let mut q = TetroQueue::default();
    q.push(Tetromino::T);
    q.fill_with_draws(&vec![3, 0, 4, 1, 2, 0, 0]);
    assert_eq!(
        drain(&mut q),
        vec![Tetromino::T, Tetromino::S, Tetromino::I, Tetromino::L, Tetromino::T, Tetromino::J, Tetromino::O, Tetromino::Z]
    );
}

#[test]
fn random_fill_is_one_of_each() {
    for seed in 0..50u64 {
        let mut rng = GlobalRng::with_seed(seed);
        let mut q = TetroQueue::default();
        q.fill_queue(&mut rng);
        q.fill_queue(&mut rng);
        assert_eq!(q.len(), 14);
        let all = drain(&mut q);
        assert!(is_one_of_each(&all[..7]));
        assert!(is_one_of_each(&all[7..]));
    }
}

#[test]
fn push_pop_get() {
    let mut q = TetroQueue::default();
    assert_eq!(q.pop(), None);
    assert_eq!(q.get(0), None);
    q.push(Tetromino::Z);
    q.push(Tetromino::J);
    assert_eq!(q.len(), 2);
    assert_eq!(q.get(1), Some(&Tetromino::J));
    assert_eq!(q.get(2), None);
    assert_eq!(q.pop(), Some(Tetromino::Z));
    assert_eq!(q.len(), 1);
}
