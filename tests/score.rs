use tetris::score::Score;

#[test]
fn four_lines_at_level_zero_level_up() {
    let mut s = Score { score: 0, level: 0 };
    assert_eq!(s.goal(), 5);
    assert!(s.increase(4));
    assert_eq!(s, Score { score: 0, level: 1 });
}

#[test]
fn single_lines_level_up_on_the_fifth() {
    let mut s = Score { score: 0, level: 0 };
    for _ in 0..4 {
        assert!(!s.increase(1));
    }
    assert_eq!(s, Score { score: 4, level: 0 });
    assert!(s.increase(1));
    assert_eq!(s, Score { score: 0, level: 1 });
}

#[test]
fn points_per_clear() {
    let mut s = Score { score: 0, level: 1 };
    assert!(!s.increase(2));
    assert_eq!(s.score, 3);
    assert!(!s.increase(0));
    assert!(!s.increase(5));
    assert_eq!(s.score, 3);
    let mut t = Score { score: 0, level: 1 };
    assert!(!t.increase(3));
    assert_eq!(t.score, 5);
    assert!(t.increase(4));
    assert_eq!(t, Score { score: 0, level: 2 });
}

#[test]
fn goal_grows_by_five_per_level() {
    assert_eq!(Score { score: 0, level: 3 }.goal(), 20);
    assert_eq!(Score::default(), Score { score: 0, level: 0 });
}

#[test]
fn gravity_table() {
    let at = |level: u32| Score { score: 0, level }.timer();
    assert_eq!(at(0), 1_000_000);
    assert_eq!(at(1), 793_000);
    assert_eq!(at(10), 42_980);
    assert_eq!(at(18), 820);
    assert_eq!(at(19), 460);
    assert_eq!(at(250), 460);
    for level in 0..19 {
        assert!(at(level) > at(level + 1));
    }
}
