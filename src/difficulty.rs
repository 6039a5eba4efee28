use vstd::prelude::*;

verus! {

/// How hard a game is: the range the secret is drawn from and the number of
/// guesses allowed.
#[derive(Debug, Clone, Copy, PartialEq, Eq, Structural)]
pub enum Difficulty {
    Easy,
    Medium,
    Hard,
}

impl Difficulty {
    /// Smallest possible secret.
    pub open spec fn low(self) -> u32 {
        1
    }

    /// Largest possible secret.
    pub open spec fn high(self) -> u32 {
        match self {
            Difficulty::Easy => 100,
            Difficulty::Medium => 500,
            Difficulty::Hard => 1000,
        }
    }

    /// Number of guesses a fresh game allows.
    pub open spec fn max_attempts(self) -> u32 {
        match self {
            Difficulty::Easy => 10,
            Difficulty::Medium => 9,
            Difficulty::Hard => 8,
        }
    }

    /// The inclusive range of possible secrets.
    pub fn range(&self) -> (r: std::ops::RangeInclusive<u32>)
        ensures
            r@.start == self.low(),
            r@.end == self.high(),
            !r@.exhausted,
    {
        match self {
            Difficulty::Easy => 1..=100,
            Difficulty::Medium => 1..=500,
            Difficulty::Hard => 1..=1000,
        }
    }

    /// The number of guesses a fresh game allows.
    pub fn attempts(&self) -> (r: u32)
        ensures
            r == self.max_attempts(),
    {
        match self {
            Difficulty::Easy => 10,
            Difficulty::Medium => 9,
            Difficulty::Hard => 8,
        }
    }

    /// The difficulty at position `index` of the selector (easy, medium,
    /// hard); any other position selects easy.
    pub fn from_choice(index: i32) -> (r: Difficulty)
        ensures
            r == (if index == 1 {
                Difficulty::Medium
            } else if index == 2 {
                Difficulty::Hard
            } else {
                Difficulty::Easy
            }),
    {
        match index {
            1 => Difficulty::Medium,
            2 => Difficulty::Hard,
            _ => Difficulty::Easy,
        }
    }
}

} // verus!
