//! The bounded score domain: an integer rating in the closed set {0,...,5},
//! represented as a closed enumeration so that out-of-range values are
//! unrepresentable once constructed.

use vstd::prelude::*;

verus! {

/// Every failure the election engine can report.
#[derive(Debug, Clone)]
pub enum VotingError {
    /// A ballot entry carried an integer outside 0..=5.
    InvalidScore(i8),
    /// A ballot referenced a candidate that was never registered.
    InvalidOption(String),
    /// A candidate was registered twice.
    DuplicateOption(String),
    /// Fewer than two candidates are registered.
    InsufficientOptions,
    /// The two leading candidates have identical score distributions.
    FirstPlaceTie,
    /// The runoff composition is ambiguous: a perfect tie for second place
    /// that the leader does not dominate head-to-head.
    SecondPlaceTie,
}

/// A single voter's rating of a single candidate: exactly 0, 1, 2, 3, 4 or 5.
#[derive(Debug, Clone, Copy, PartialEq, Eq, Structural)]
pub enum Score {
    Zero,
    One,
    Two,
    Three,
    Four,
    Five,
}

/// The integer value a `Score` stands for.
pub open spec fn score_val(s: Score) -> int {
    match s {
        Score::Zero => 0,
        Score::One => 1,
        Score::Two => 2,
        Score::Three => 3,
        Score::Four => 4,
        Score::Five => 5,
    }
}

impl Score {
    /// Validated construction: accepts exactly the integers 0..=5 and
    /// rejects every other value, returning the offending value itself.
    pub fn try_from(v: i8) -> (r: Result<Score, i8>)
        ensures
            0 <= v <= 5 <==> r is Ok,
            r matches Ok(s) ==> score_val(s) == v as int,
            r matches Err(e) ==> e == v && !(0 <= v <= 5),
    {
        match v {
            0 => Ok(Score::Zero),
            1 => Ok(Score::One),
            2 => Ok(Score::Two),
            3 => Ok(Score::Three),
            4 => Ok(Score::Four),
            5 => Ok(Score::Five),
            n => Err(n),
        }
    }

    /// The integer value of this score.
    pub fn as_i8(self) -> (r: i8)
        ensures
            r as int == score_val(self),
    {
        match self {
            Score::Zero => 0,
            Score::One => 1,
            Score::Two => 2,
            Score::Three => 3,
            Score::Four => 4,
            Score::Five => 5,
        }
    }
}

/// A score's value always lies in the closed interval [0, 5].
pub broadcast proof fn lemma_score_val_bounds(s: Score)
    ensures
        0 <= #[trigger] score_val(s) <= 5,
{
}

} // verus!
