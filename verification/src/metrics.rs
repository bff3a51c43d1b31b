//! Per-candidate aggregate metrics: the running sum of all scores a
//! candidate has received and a frequency count for each of the six score
//! values, updated incrementally as ballots are accepted.

use vstd::prelude::*;
use crate::score::{Score, score_val};

verus! {

/// How many of the ballots record score `v` for candidate `k`.
pub open spec fn count_with_score(bs: Seq<Map<Seq<char>, int>>, k: Seq<char>, v: int) -> int
    decreases bs.len(),
{
    if bs.len() == 0 {
        0
    } else {
        count_with_score(bs.drop_last(), k, v) + if bs.last().contains_key(k) && bs.last()[k] == v {
            1int
        } else {
            0int
        }
    }
}

/// How many of the ballots record any score for candidate `k`.
pub open spec fn scored_count(bs: Seq<Map<Seq<char>, int>>, k: Seq<char>) -> int
    decreases bs.len(),
{
    if bs.len() == 0 {
        0
    } else {
        scored_count(bs.drop_last(), k) + if bs.last().contains_key(k) {
            1int
        } else {
            0int
        }
    }
}

/// The sum of all scores the ballots record for candidate `k`.
pub open spec fn total_score(bs: Seq<Map<Seq<char>, int>>, k: Seq<char>) -> int
    decreases bs.len(),
{
    if bs.len() == 0 {
        0
    } else {
        total_score(bs.drop_last(), k) + if bs.last().contains_key(k) {
            bs.last()[k]
        } else {
            0int
        }
    }
}

/// Every mapping in `bs` carries only values in 0..=5.
pub open spec fn all_scores_bounded(bs: Seq<Map<Seq<char>, int>>) -> bool {
    forall|i: int, k: Seq<char>|
        0 <= i < bs.len() && (#[trigger] bs[i].contains_key(k)) ==> 0 <= bs[i][k] <= 5
}

/// Counts are bounded by the number of ballots, and the total by five
/// times the number of ballots.
pub proof fn lemma_tally_bounds(bs: Seq<Map<Seq<char>, int>>, k: Seq<char>, v: int)
    requires
        all_scores_bounded(bs),
    ensures
        0 <= count_with_score(bs, k, v) <= bs.len(),
        0 <= scored_count(bs, k) <= bs.len(),
        0 <= total_score(bs, k) <= 5 * bs.len(),
    decreases bs.len(),
{
    if bs.len() > 0 {
        let d = bs.drop_last();
        assert(all_scores_bounded(d)) by {
            assert forall|i: int, kk: Seq<char>|
                0 <= i < d.len() && (#[trigger] d[i].contains_key(kk)) implies 0 <= d[i][kk] <= 5 by {
                assert(d[i] == bs[i]);
            }
        }
        lemma_tally_bounds(d, k, v);
        assert(bs[bs.len() - 1] == bs.last());
    }
}

/// How one more accepted ballot moves the tallies.
pub proof fn lemma_tally_push(bs: Seq<Map<Seq<char>, int>>, m: Map<Seq<char>, int>, k: Seq<char>)
    ensures
        forall|v: int|
            #[trigger] count_with_score(bs.push(m), k, v) == count_with_score(bs, k, v) + if m.contains_key(k) && m[k] == v {
                1int
            } else {
                0int
            },
        scored_count(bs.push(m), k) == scored_count(bs, k) + if m.contains_key(k) {
            1int
        } else {
            0int
        },
        total_score(bs.push(m), k) == total_score(bs, k) + if m.contains_key(k) {
            m[k]
        } else {
            0int
        },
{
    assert(bs.push(m).drop_last() =~= bs);
    assert(bs.push(m).last() == m);
}

/// A candidate no ballot mentions has empty tallies.
pub proof fn lemma_tally_absent(bs: Seq<Map<Seq<char>, int>>, k: Seq<char>)
    requires
        forall|i: int| 0 <= i < bs.len() ==> !(#[trigger] bs[i]).contains_key(k),
    ensures
        total_score(bs, k) == 0,
        scored_count(bs, k) == 0,
        forall|v: int| #[trigger] count_with_score(bs, k, v) == 0,
    decreases bs.len(),
{
    if bs.len() > 0 {
        let d = bs.drop_last();
        assert forall|i: int| 0 <= i < d.len() implies !(#[trigger] d[i]).contains_key(k) by {
            assert(d[i] == bs[i]);
        }
        lemma_tally_absent(d, k);
        assert(!bs[bs.len() - 1].contains_key(k));
        assert forall|v: int| #[trigger] count_with_score(bs, k, v) == 0 by {
            assert(count_with_score(d, k, v) == 0);
        }
    }
}

/// The total is the value-weighted sum of the frequency buckets, and the
/// bucket sum is the number of ballots that scored the candidate.
pub proof fn lemma_tally_decomposition(bs: Seq<Map<Seq<char>, int>>, k: Seq<char>)
    requires
        all_scores_bounded(bs),
    ensures
        total_score(bs, k) == 1 * count_with_score(bs, k, 1) + 2 * count_with_score(bs, k, 2)
            + 3 * count_with_score(bs, k, 3) + 4 * count_with_score(bs, k, 4)
            + 5 * count_with_score(bs, k, 5),
        scored_count(bs, k) == count_with_score(bs, k, 0) + count_with_score(bs, k, 1)
            + count_with_score(bs, k, 2) + count_with_score(bs, k, 3)
            + count_with_score(bs, k, 4) + count_with_score(bs, k, 5),
    decreases bs.len(),
{
    if bs.len() > 0 {
        let d = bs.drop_last();
        assert(all_scores_bounded(d)) by {
            assert forall|i: int, kk: Seq<char>|
                0 <= i < d.len() && (#[trigger] d[i].contains_key(kk)) implies 0 <= d[i][kk] <= 5 by {
                assert(d[i] == bs[i]);
            }
        }
        lemma_tally_decomposition(d, k);
        assert(bs[bs.len() - 1] == bs.last());
    }
}

/// A candidate's running aggregate: sum of received scores and one
/// frequency bucket per score value.
#[derive(Debug, Clone, Copy, PartialEq, Eq, Structural)]
pub struct ScoreMetrics {
    total: i32,
    zeros: u32,
    ones: u32,
    twos: u32,
    threes: u32,
    fours: u32,
    fives: u32,
}

impl ScoreMetrics {
    /// The running total of all scores received.
    pub closed spec fn spec_total(self) -> int {
        self.total as int
    }

    /// The frequency bucket for score value `v`.
    pub closed spec fn count_of(self, v: int) -> int {
        if v == 0 {
            self.zeros as int
        } else if v == 1 {
            self.ones as int
        } else if v == 2 {
            self.twos as int
        } else if v == 3 {
            self.threes as int
        } else if v == 4 {
            self.fours as int
        } else if v == 5 {
            self.fives as int
        } else {
            0
        }
    }

    /// These metrics are exactly the aggregate of what the ballots `bs`
    /// record for candidate `k`.
    pub open spec fn synced(self, bs: Seq<Map<Seq<char>, int>>, k: Seq<char>) -> bool {
        &&& self.spec_total() == total_score(bs, k)
        &&& forall|v: int| 0 <= v <= 5 ==> #[trigger] self.count_of(v) == count_with_score(bs, k, v)
    }

    /// All buckets empty, total zero.
    pub fn new() -> (r: ScoreMetrics)
        ensures
            r.spec_total() == 0,
            forall|v: int| #[trigger] r.count_of(v) == 0,
    {
        ScoreMetrics { total: 0, zeros: 0, ones: 0, twos: 0, threes: 0, fours: 0, fives: 0 }
    }

    /// Fold one score into the aggregate: add it to the total and bump
    /// the matching frequency bucket.
    pub fn record(&mut self, score: Score)
        requires
            old(self).spec_total() + 5 <= i32::MAX,
            old(self).count_of(score_val(score)) + 1 <= u32::MAX,
        ensures
            final(self).spec_total() == old(self).spec_total() + score_val(score),
            forall|v: int|
                #[trigger] final(self).count_of(v) == old(self).count_of(v) + if v == score_val(
                    score,
                ) {
                    1int
                } else {
                    0int
                },
    {
        self.total = self.total + score.as_i8() as i32;
        match score {
            Score::Zero => {
                self.zeros = self.zeros + 1;
            }
            Score::One => {
                self.ones = self.ones + 1;
            }
            Score::Two => {
                self.twos = self.twos + 1;
            }
            Score::Three => {
                self.threes = self.threes + 1;
            }
            Score::Four => {
                self.fours = self.fours + 1;
            }
            Score::Five => {
                self.fives = self.fives + 1;
            }
        }
    }

    /// The running total of all scores received.
    pub fn total(&self) -> (r: i32)
        ensures
            r as int == self.spec_total(),
    {
        self.total
    }

    /// How many ballots gave exactly the score `s`.
    pub fn count(&self, s: Score) -> (r: u32)
        ensures
            r as int == self.count_of(score_val(s)),
    {
        match s {
            Score::Zero => self.zeros,
            Score::One => self.ones,
            Score::Two => self.twos,
            Score::Three => self.threes,
            Score::Four => self.fours,
            Score::Five => self.fives,
        }
    }

    /// Whether two candidates' full six-bucket frequency distributions
    /// are identical ("perfect tie"): a strictly stronger condition than
    /// equal totals.
    pub fn same_distribution(&self, other: &ScoreMetrics) -> (r: bool)
        ensures
            r == forall|v: int| 0 <= v <= 5 ==> #[trigger] self.count_of(v) == other.count_of(v),
    {
        let r = self.zeros == other.zeros && self.ones == other.ones && self.twos == other.twos
            && self.threes == other.threes && self.fours == other.fours
            && self.fives == other.fives;
        proof {
            if r {
                assert forall|v: int| 0 <= v <= 5 implies #[trigger] self.count_of(v)
                    == other.count_of(v) by {}
            } else {
                if self.zeros != other.zeros {
                    assert(self.count_of(0) != other.count_of(0));
                } else if self.ones != other.ones {
                    assert(self.count_of(1) != other.count_of(1));
                } else if self.twos != other.twos {
                    assert(self.count_of(2) != other.count_of(2));
                } else if self.threes != other.threes {
                    assert(self.count_of(3) != other.count_of(3));
                } else if self.fours != other.fours {
                    assert(self.count_of(4) != other.count_of(4));
                } else {
                    assert(self.count_of(5) != other.count_of(5));
                }
            }
        }
        r
    }
}

} // verus!
