//! Score, level and the level's gravity interval.
use vstd::prelude::*;

verus! {

/// Cleared-line score and level. After every call of `increase` the score is
/// below the goal of the level.
#[derive(Clone, Copy, Debug, PartialEq, Eq, Structural)]
pub struct Score {
    pub score: u32,
    pub level: u32,
}

/// The score that completes level `level`.
pub open spec fn goal_of(level: int) -> int {
    5 * (level + 1)
}

/// The score for clearing `lines` rows at once.
pub open spec fn line_points(lines: u32) -> int {
    if lines == 1 {
        1
    } else if lines == 2 {
        3
    } else if lines == 3 {
        5
    } else if lines == 4 {
        8
    } else {
        0
    }
}

/// The highest level from which `increase` may still raise the level: up
/// to it, the score, the goal and the next goal all fit in `u32`.
pub const MAX_LEVEL: u32 = 858_993_456;

/// Time between two gravity steps at level `level`, in microseconds: a
/// table that falls from one second at level 0 to 460 microseconds from
/// level 19 on.
pub open spec fn gravity_micros(level: u32) -> int {
    if level == 0 {
        1_000_000
    } else if level == 1 {
        793_000
    } else if level == 2 {
        617_800
    } else if level == 3 {
        472_730
    } else if level == 4 {
        355_200
    } else if level == 5 {
        262_000
    } else if level == 6 {
        189_680
    } else if level == 7 {
        134_730
    } else if level == 8 {
        93_880
    } else if level == 9 {
        64_150
    } else if level == 10 {
        42_980
    } else if level == 11 {
        28_220
    } else if level == 12 {
        18_150
    } else if level == 13 {
        11_440
    } else if level == 14 {
        7_060
    } else if level == 15 {
        4_260
    } else if level == 16 {
        2_520
    } else if level == 17 {
        1_460
    } else if level == 18 {
        820
    } else {
        460
    }
}

impl Default for Score {
    fn default() -> (r: Score)
        ensures
            r == (Score { score: 0, level: 0 }),
    {
        Score { score: 0, level: 0 }
    }
}

impl Score {
    /// Adds the points for `cleared_lines` rows cleared at once. When the
    /// score reaches the goal of the level, the score restarts at 0, the
    /// level goes up by one and the result is `true`.
    pub fn increase(&mut self, cleared_lines: u32) -> (leveled_up: bool)
        requires
            old(self).level <= MAX_LEVEL,
            old(self).score <= u32::MAX - 8,
        ensures
            leveled_up == (old(self).score + line_points(cleared_lines) >= goal_of(
                old(self).level as int,
            )),
            leveled_up ==> *final(self) == (Score { score: 0, level: (old(self).level + 1) as u32 }),
            !leveled_up ==> *final(self) == (Score {
                score: (old(self).score + line_points(cleared_lines)) as u32,
                level: old(self).level,
            }),
            final(self).score < goal_of(final(self).level as int),
    {
        match cleared_lines {
            1 => self.score = self.score + 1,
            2 => self.score = self.score + 3,
            3 => self.score = self.score + 5,
            4 => self.score = self.score + 8,
            _ => {},
        }
        if self.score >= self.goal() {
            self.score = 0;
            self.level = self.level + 1;
            return true;
        }
        false
    }

    /// The score that completes the current level.
    pub fn goal(&self) -> (r: u32)
        requires
            self.level <= MAX_LEVEL + 1,
        ensures
            r == goal_of(self.level as int),
    {
        5 * (self.level + 1)
    }

    /// The gravity interval of the current level, in microseconds.
    pub fn timer(&self) -> (r: u64)
        ensures
            r == gravity_micros(self.level),
    {
        match self.level {
            0 => 1_000_000,
            1 => 793_000,
            2 => 617_800,
            3 => 472_730,
            4 => 355_200,
            5 => 262_000,
            6 => 189_680,
            7 => 134_730,
            8 => 93_880,
            9 => 64_150,
            10 => 42_980,
            11 => 28_220,
            12 => 18_150,
            13 => 11_440,
            14 => 7_060,
            15 => 4_260,
            16 => 2_520,
            17 => 1_460,
            18 => 820,
            _ => 460,
        }
    }
}

/// The gravity interval strictly shrinks from level to level up to level
/// 19, and stays the same from there on.
pub proof fn lemma_gravity_decreasing(a: u32, b: u32)
    requires
        a < b,
    ensures
        b <= 19 ==> gravity_micros(a) > gravity_micros(b),
        a >= 19 ==> gravity_micros(a) == gravity_micros(b),
{
}

} // verus!
