//! The mathematical model of winner determination: ranking, tie
//! detection, the head-to-head recount, and the final outcome, all as
//! pure functions of the registered identifiers and the ballot log.

use vstd::prelude::*;
use crate::metrics::{count_with_score, total_score};
use crate::ranking::{rank_order, RankKey};
use crate::score::VotingError;

verus! {

/// The ranking key candidate `k` presents, given the ballot log.
pub open spec fn spec_rank_key(bs: Seq<Map<Seq<char>, int>>, k: Seq<char>, idx: int) -> RankKey {
    RankKey {
        total: total_score(bs, k),
        c0: count_with_score(bs, k, 0),
        c1: count_with_score(bs, k, 1),
        c2: count_with_score(bs, k, 2),
        c3: count_with_score(bs, k, 3),
        c4: count_with_score(bs, k, 4),
        c5: count_with_score(bs, k, 5),
        idx: idx,
    }
}

/// One ranking key per candidate, in registration order.
pub open spec fn spec_entries(values: Seq<Seq<char>>, bs: Seq<Map<Seq<char>, int>>) -> Seq<
    RankKey,
> {
    Seq::new(values.len(), |i: int| spec_rank_key(bs, values[i], i))
}

/// The contest order over the candidates: the keys sorted by the
/// ranking comparator.
pub open spec fn spec_ranking(values: Seq<Seq<char>>, bs: Seq<Map<Seq<char>, int>>) -> Seq<
    RankKey,
> {
    spec_entries(values, bs).sort_by(rank_order())
}

/// The length of the run of candidates sharing `s[i]`'s total, looking
/// from rank `i` downward.
pub open spec fn tie_run_len(s: Seq<RankKey>, i: int) -> int
    recommends
        0 <= i < s.len(),
    decreases s.len() - i when 0 <= i < s.len()
{
    if i + 1 < s.len() && s[i + 1].total == s[i].total {
        1 + tie_run_len(s, i + 1)
    } else {
        1
    }
}

/// Two adjacent candidates whose full six-bucket frequency
/// distributions are identical: a genuine statistical tie, strictly
/// stronger than equal totals.
pub open spec fn perfect_pair(x: RankKey, y: RankKey) -> bool {
    &&& x.c0 == y.c0
    &&& x.c1 == y.c1
    &&& x.c2 == y.c2
    &&& x.c3 == y.c3
    &&& x.c4 == y.c4
    &&& x.c5 == y.c5
}

/// The pairwise recount between candidates `a` and `b`: each ballot
/// scoring both contributes one vote to the strictly higher side; a
/// ballot missing a score for either candidate is excluded entirely.
pub open spec fn h2h_votes(bs: Seq<Map<Seq<char>, int>>, a: Seq<char>, b: Seq<char>) -> (
    int,
    int,
)
    decreases bs.len(),
{
    if bs.len() == 0 {
        (0, 0)
    } else {
        let rest = h2h_votes(bs.drop_last(), a, b);
        let m = bs.last();
        if m.contains_key(a) && m.contains_key(b) {
            if m[a] > m[b] {
                (rest.0 + 1, rest.1)
            } else if m[a] < m[b] {
                (rest.0, rest.1 + 1)
            } else {
                rest
            }
        } else {
            rest
        }
    }
}

/// Head-to-head vote counts are non-negative and bounded by the number
/// of ballots.
pub proof fn lemma_h2h_bounds(bs: Seq<Map<Seq<char>, int>>, a: Seq<char>, b: Seq<char>)
    ensures
        0 <= h2h_votes(bs, a, b).0 <= bs.len(),
        0 <= h2h_votes(bs, a, b).1 <= bs.len(),
    decreases bs.len(),
{
    if bs.len() > 0 {
        lemma_h2h_bounds(bs.drop_last(), a, b);
    }
}

/// The leader at rank 0 strictly beats the candidate at rank `j`
/// head-to-head.
pub open spec fn leader_beats(
    values: Seq<Seq<char>>,
    bs: Seq<Map<Seq<char>, int>>,
    sorted: Seq<RankKey>,
    j: int,
) -> bool {
    let p = h2h_votes(bs, values[sorted[0].idx], values[sorted[j].idx]);
    p.0 > p.1
}

/// The leader strictly beats every member of the tied group at ranks
/// 1..=st head-to-head.
pub open spec fn leader_beats_all(
    values: Seq<Seq<char>>,
    bs: Seq<Map<Seq<char>, int>>,
    sorted: Seq<RankKey>,
    st: int,
) -> bool {
    forall|j: int| 1 <= j <= st ==> #[trigger] leader_beats(values, bs, sorted, j)
}

/// A decided runoff: the winner, the finalist pair, and the
/// head-to-head vote counts between them.
pub ghost struct RunoffModel {
    pub winner: Seq<char>,
    pub finalist1: Seq<char>,
    pub finalist2: Seq<char>,
    pub votes1: int,
    pub votes2: int,
}

/// What winner determination can come to.
pub ghost enum Outcome {
    /// A winner was decided.
    Decided(RunoffModel),
    /// Fewer than two candidates are registered.
    Insufficient,
    /// A perfect tie at the top of the order.
    FirstTie,
    /// An unresolvable perfect tie for the second finalist slot.
    SecondTie,
}

/// The decided outcome for finalists at ranks 0 and 1: the finalist
/// with strictly fewer pairwise votes loses; the rank-0 finalist wins
/// ties.
pub open spec fn spec_decided(
    values: Seq<Seq<char>>,
    bs: Seq<Map<Seq<char>, int>>,
    sorted: Seq<RankKey>,
) -> Outcome {
    let f1 = values[sorted[0].idx];
    let f2 = values[sorted[1].idx];
    let p = h2h_votes(bs, f1, f2);
    let w = if p.0 >= p.1 {
        f1
    } else {
        f2
    };
    Outcome::Decided(
        RunoffModel { winner: w, finalist1: f1, finalist2: f2, votes1: p.0, votes2: p.1 },
    )
}

/// Winner determination as a pure function of the registered
/// identifiers (in registration order) and the ballot log: sort by the
/// comparator, detect first- and second-place ties, resolve or fail as
/// the tie policy dictates, and otherwise decide by the head-to-head
/// recount between the top two.
pub open spec fn spec_outcome(values: Seq<Seq<char>>, bs: Seq<Map<Seq<char>, int>>) -> Outcome {
    if values.len() < 2 {
        Outcome::Insufficient
    } else {
        let sorted = spec_ranking(values, bs);
        let ft = tie_run_len(sorted, 0);
        if ft > 1 {
            if perfect_pair(sorted[0], sorted[1]) {
                Outcome::FirstTie
            } else {
                spec_decided(values, bs, sorted)
            }
        } else {
            let st = tie_run_len(sorted, 1);
            if st > 1 {
                if perfect_pair(sorted[1], sorted[2]) {
                    if leader_beats_all(values, bs, sorted, st) {
                        spec_decided(values, bs, sorted)
                    } else {
                        Outcome::SecondTie
                    }
                } else {
                    spec_decided(values, bs, sorted)
                }
            } else {
                spec_decided(values, bs, sorted)
            }
        }
    }
}

/// The contest order is a permutation of the per-candidate keys: it has
/// one key per candidate, and every key's registration index is in
/// range.
pub proof fn lemma_ranking_properties(values: Seq<Seq<char>>, bs: Seq<Map<Seq<char>, int>>)
    ensures
        spec_ranking(values, bs).len() == values.len(),
        forall|u: int|
            0 <= u < spec_ranking(values, bs).len() ==> 0 <= (#[trigger] spec_ranking(
                values,
                bs,
            )[u]).idx < values.len(),
{
    broadcast use vstd::seq_lib::group_to_multiset_ensures;

    let es = spec_entries(values, bs);
    es.lemma_sort_by_ensures(rank_order());
    let sorted = spec_ranking(values, bs);
    assert(es.len() == es.to_multiset().len());
    assert(sorted.len() == sorted.to_multiset().len());
    assert forall|u: int| 0 <= u < sorted.len() implies 0 <= (#[trigger] sorted[u]).idx
        < values.len() by {
        assert(sorted.contains(sorted[u]));
        assert(es.contains(sorted[u]));
        let i = choose|i: int| 0 <= i < es.len() && es[i] == sorted[u];
        assert(es[i].idx == i);
    }
}

/// The final output of a decided election.
#[derive(Debug)]
pub struct RunoffResult {
    /// The overall winner.
    pub winner: String,
    /// The top-ranked finalist entering the runoff.
    pub finalist1: String,
    /// The second finalist.
    pub finalist2: String,
    /// Ballots preferring finalist1 and finalist2, respectively, in the
    /// pairwise recount.
    pub head_to_head: (u32, u32),
}

impl View for RunoffResult {
    type V = RunoffModel;

    open spec fn view(&self) -> RunoffModel {
        RunoffModel {
            winner: self.winner@,
            finalist1: self.finalist1@,
            finalist2: self.finalist2@,
            votes1: self.head_to_head.0 as int,
            votes2: self.head_to_head.1 as int,
        }
    }
}

/// Whether an executable result reports exactly the modeled outcome.
pub open spec fn result_matches(r: Result<RunoffResult, VotingError>, o: Outcome) -> bool {
    match o {
        Outcome::Decided(m) => r matches Ok(res) && res@ == m,
        Outcome::Insufficient => r matches Err(e) && e is InsufficientOptions,
        Outcome::FirstTie => r matches Err(e) && e is FirstPlaceTie,
        Outcome::SecondTie => r matches Err(e) && e is SecondPlaceTie,
    }
}

/// A reporting record: two candidates and the count of ballots
/// preferring each in their pairwise recount.
#[derive(Debug, Clone)]
pub struct HeadToHeadMatchup {
    /// The first candidate (the declared winner, for auxiliary matchups).
    pub candidate1: String,
    /// The other candidate.
    pub candidate2: String,
    /// Ballots preferring `candidate1`.
    pub votes1: u32,
    /// Ballots preferring `candidate2`.
    pub votes2: u32,
}

/// The model of one reporting record.
pub ghost struct MatchupModel {
    pub candidate1: Seq<char>,
    pub candidate2: Seq<char>,
    pub votes1: int,
    pub votes2: int,
}

impl View for HeadToHeadMatchup {
    type V = MatchupModel;

    open spec fn view(&self) -> MatchupModel {
        MatchupModel {
            candidate1: self.candidate1@,
            candidate2: self.candidate2@,
            votes1: self.votes1 as int,
            votes2: self.votes2 as int,
        }
    }
}

/// The declared winner of a decided election.
pub open spec fn spec_winner_value(values: Seq<Seq<char>>, bs: Seq<Map<Seq<char>, int>>) -> Seq<
    char,
> {
    let sorted = spec_ranking(values, bs);
    let f1 = values[sorted[0].idx];
    let f2 = values[sorted[1].idx];
    let p = h2h_votes(bs, f1, f2);
    if p.0 >= p.1 {
        f1
    } else {
        f2
    }
}

/// The auxiliary matchups of a decided election: the winner against
/// each of the ranked runners-up at ranks 2 and 3 (rank 1 is the second
/// finalist, whose recount the main result already reports).
pub open spec fn spec_aux_matchups(values: Seq<Seq<char>>, bs: Seq<Map<Seq<char>, int>>) -> Seq<
    MatchupModel,
> {
    let sorted = spec_ranking(values, bs);
    let w = spec_winner_value(values, bs);
    let count: int = if values.len() >= 4 {
        2
    } else {
        values.len() - 2
    };
    Seq::new(
        count as nat,
        |j: int|
            {
                let rv = values[sorted[j + 2].idx];
                let p = h2h_votes(bs, w, rv);
                MatchupModel { candidate1: w, candidate2: rv, votes1: p.0, votes2: p.1 }
            },
    )
}

} // verus!
