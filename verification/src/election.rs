//! The election state: registered candidates with their running metrics,
//! and the append-only log of accepted ballots. Candidate identifiers are
//! unique; a ballot may only reference registered candidates; metrics are
//! always in sync with the ballot log.

use vstd::prelude::*;
use crate::ballot::{Ballot, has_key};
use crate::metrics::{
    ScoreMetrics, all_scores_bounded, count_with_score, lemma_tally_absent, lemma_tally_bounds,
    lemma_tally_push, total_score,
};
use crate::outcome::{
    h2h_votes, leader_beats, leader_beats_all, lemma_h2h_bounds, lemma_ranking_properties,
    perfect_pair, result_matches, spec_decided, spec_entries, spec_outcome, spec_rank_key,
    spec_ranking, tie_run_len, HeadToHeadMatchup, MatchupModel, Outcome, RunoffModel, RunoffResult,
    spec_aux_matchups, spec_winner_value,
};
use crate::ranking::{entry_keys, key_of, sort_entries, lemma_sorted_is_sort_by, RankEntry};
use crate::score::{Score, score_val, VotingError};

verus! {

/// The engine accepts at most this many ballots in one election; the
/// bound keeps every 32-bit tally far from overflow.
pub const MAX_BALLOTS: usize = 100000000;

/// Some element of `s` equals `k`.
pub open spec fn has_val(s: Seq<Seq<char>>, k: Seq<char>) -> bool {
    exists|i: int| 0 <= i < s.len() && #[trigger] s[i] == k
}

/// A registered candidate: its identifier, its running metrics, and the
/// registration sequence number used as the last tie-break key.
#[derive(Debug, Clone)]
pub struct VotingOption {
    value: String,
    metrics: ScoreMetrics,
    order: u64,
}

impl VotingOption {
    /// The candidate's identifier.
    pub closed spec fn spec_value(self) -> Seq<char> {
        self.value@
    }

    /// The candidate's identifier.
    pub fn value(&self) -> (r: &String)
        ensures
            r@ == self.spec_value(),
    {
        &self.value
    }
}

/// A full election: the candidate set and the accepted ballot log.
#[derive(Debug)]
pub struct Election {
    options: Vec<VotingOption>,
    ballots: Vec<Ballot>,
}

impl Election {
    /// The registered candidate identifiers, in registration order.
    pub closed spec fn option_values(self) -> Seq<Seq<char>> {
        self.options@.map_values(|o: VotingOption| o.value@)
    }

    /// The accepted ballots, each as its mapping.
    pub closed spec fn ballot_models(self) -> Seq<Map<Seq<char>, int>> {
        self.ballots@.map_values(|b: Ballot| b@)
    }

    /// The metrics stored for the candidate at registration index `i`.
    pub closed spec fn metrics_at(self, i: int) -> ScoreMetrics {
        self.options@[i].metrics
    }

    /// Whether identifier `k` is registered.
    pub open spec fn registered(self, k: Seq<char>) -> bool {
        has_val(self.option_values(), k)
    }

    /// The election invariant: identifiers unique, registration numbers
    /// consecutive, every ballot well-formed and referencing only
    /// registered candidates, the log bounded, and every candidate's
    /// metrics exactly the aggregate of the log.
    pub closed spec fn wf(self) -> bool {
        &&& forall|i: int, j: int|
            0 <= i < j < self.options@.len() ==> (#[trigger] self.options@[i]).value@ != (
            #[trigger] self.options@[j]).value@
        &&& forall|i: int|
            0 <= i < self.options@.len() ==> (#[trigger] self.options@[i]).order == i
        &&& forall|i: int| 0 <= i < self.ballots@.len() ==> (#[trigger] self.ballots@[i]).wf()
        &&& forall|i: int, k: Seq<char>|
            0 <= i < self.ballots@.len() && (#[trigger] self.ballot_models()[i].contains_key(k))
                ==> has_val(self.option_values(), k)
        &&& self.ballots@.len() <= MAX_BALLOTS
        &&& forall|i: int|
            0 <= i < self.options@.len() ==> (#[trigger] self.options@[i]).metrics.synced(
                self.ballot_models(),
                self.options@[i].value@,
            )
    }

    /// The invariant keeps each candidate's stored metrics exactly the
    /// aggregate of the ballot log.
    pub proof fn lemma_wf_metrics(self, i: int)
        requires
            self.wf(),
            0 <= i < self.option_values().len(),
        ensures
            self.metrics_at(i).synced(self.ballot_models(), self.option_values()[i]),
    {
    }

    /// Every value in every accepted ballot lies in 0..=5.
    pub proof fn lemma_models_bounded(self)
        requires
            self.wf(),
        ensures
            all_scores_bounded(self.ballot_models()),
    {
        let bm = self.ballot_models();
        assert forall|i: int, k: Seq<char>|
            0 <= i < bm.len() && (#[trigger] bm[i].contains_key(k)) implies 0 <= bm[i][k] <= 5 by {
            self.ballots@[i].lemma_view_scores();
            assert(bm[i] == self.ballots@[i]@);
        }
    }

    /// A new election: no candidates, no ballots.
    pub fn new() -> (r: Election)
        ensures
            r.wf(),
            r.option_values() == Seq::<Seq<char>>::empty(),
            r.ballot_models() == Seq::<Map<Seq<char>, int>>::empty(),
    {
        let r = Election { options: Vec::new(), ballots: Vec::new() };
        proof {
            assert(r.option_values() =~= Seq::<Seq<char>>::empty());
            assert(r.ballot_models() =~= Seq::<Map<Seq<char>, int>>::empty());
        }
        r
    }

    /// How many ballots have been accepted.
    pub fn ballot_count(&self) -> (n: usize)
        ensures
            n == self.ballot_models().len(),
    {
        self.ballots.len()
    }

    /// The registration index holding identifier `key`, if any.
    fn find_option(&self, key: &String) -> (r: Option<usize>)
        ensures
            match r {
                Some(j) => j < self.options@.len() && self.options@[j as int].value@ == key@,
                None => !self.registered(key@),
            },
    {
        let n = self.options.len();
        for t in 0..n
            invariant
                n == self.options@.len(),
                forall|u: int| 0 <= u < t ==> (#[trigger] self.options@[u]).value@ != key@,
        {
            if self.options[t].value == *key {
                return Some(t);
            }
        }
        proof {
            assert forall|i: int| 0 <= i < self.option_values().len()
                implies #[trigger] self.option_values()[i] != key@ by {
                assert(self.options@[i].value@ != key@);
            }
        }
        None
    }

    /// Register a candidate. Fails with `DuplicateOption` when the
    /// identifier is already present; otherwise appends the candidate
    /// with zeroed metrics and the next registration number.
    pub fn add_option(&mut self, option: String) -> (r: Result<(), VotingError>)
        requires
            old(self).wf(),
        ensures
            final(self).wf(),
            old(self).registered(option@) ==> {
                &&& r matches Err(e) && e matches VotingError::DuplicateOption(o) && o@ == option@
                &&& *final(self) == *old(self)
            },
            !old(self).registered(option@) ==> {
                &&& r is Ok
                &&& final(self).option_values() == old(self).option_values().push(option@)
                &&& final(self).ballot_models() == old(self).ballot_models()
            },
    {
        match self.find_option(&option) {
            Some(j) => {
                proof {
                    assert(self.option_values()[j as int] == option@);
                    assert(old(self).registered(option@));
                }
                let _ = j;
                Err(VotingError::DuplicateOption(option))
            }
            None => {
                let order = self.options.len() as u64;
                let ghost old_self = *self;
                self.options.push(
                    VotingOption { value: option, metrics: ScoreMetrics::new(), order },
                );
                proof {
                    let ov = old_self.option_values();
                    assert(self.option_values() =~= ov.push(option@));
                    assert forall|i: int, j: int|
                        0 <= i < j < self.options@.len() implies (
                        #[trigger] self.options@[i]).value@ != (#[trigger] self.options@[j]).value@ by {
                        if j == self.options@.len() - 1 {
                            assert(self.options@[i] == old_self.options@[i]);
                            if self.options@[i].value@ == option@ {
                                assert(ov[i] == option@);
                                assert(has_val(ov, option@));
                            }
                        } else {
                            assert(self.options@[i] == old_self.options@[i]);
                            assert(self.options@[j] == old_self.options@[j]);
                        }
                    }
                    assert(self.ballot_models() =~= old_self.ballot_models());
                    assert forall|i: int|
                        0 <= i < self.ballots@.len() && !old_self.ballot_models()[i].contains_key(
                            option@,
                        ) implies !(#[trigger] self.ballot_models()[i]).contains_key(option@) by {}
                    assert forall|i: int| 0 <= i < self.ballots@.len()
                        implies !(#[trigger] self.ballot_models()[i]).contains_key(option@) by {
                        if self.ballot_models()[i].contains_key(option@) {
                            assert(has_val(ov, option@));
                        }
                    }
                    lemma_tally_absent(self.ballot_models(), option@);
                    assert forall|i: int| 0 <= i < self.options@.len()
                        implies (#[trigger] self.options@[i]).metrics.synced(
                        self.ballot_models(),
                        self.options@[i].value@,
                    ) by {
                        if i < self.options@.len() - 1 {
                            assert(self.options@[i] == old_self.options@[i]);
                            assert(old_self.options@[i].metrics.synced(
                                old_self.ballot_models(),
                                old_self.options@[i].value@,
                            ));
                        }
                    }
                    assert forall|i: int, k: Seq<char>|
                        0 <= i < self.ballots@.len() && (
                        #[trigger] self.ballot_models()[i].contains_key(k))
                        implies has_val(self.option_values(), k) by {
                        assert(has_val(ov, k));
                        let w = choose|w: int| 0 <= w < ov.len() && #[trigger] ov[w] == k;
                        assert(self.option_values()[w] == k);
                    }
                }
                Ok(())
            }
        }
    }

    /// Accept a ballot: every referenced candidate must be registered.
    /// On success every entry's score is folded into that candidate's
    /// metrics and the ballot is appended to the log; on failure with
    /// `InvalidOption` nothing at all is changed (the ballot is rejected
    /// in full, never applied partway).
    pub fn cast_ballot(&mut self, ballot: Ballot) -> (r: Result<(), VotingError>)
        requires
            old(self).wf(),
            ballot.wf(),
            old(self).ballot_models().len() < MAX_BALLOTS,
        ensures
            final(self).wf(),
            final(self).option_values() == old(self).option_values(),
            r is Ok <==> forall|k: Seq<char>|
                #[trigger] ballot@.contains_key(k) ==> old(self).registered(k),
            r is Ok ==> final(self).ballot_models() == old(self).ballot_models().push(ballot@),
            r matches Err(e) ==> {
                &&& *final(self) == *old(self)
                &&& e matches VotingError::InvalidOption(id) && ballot@.contains_key(id@)
                    && !old(self).registered(id@) && exists|t: int|
                    {
                        &&& 0 <= t < ballot.entry_views().len()
                        &&& (#[trigger] ballot.entry_views()[t]).0 == id@
                        &&& forall|u: int|
                            0 <= u < t ==> old(self).registered(
                                (#[trigger] ballot.entry_views()[u]).0,
                            )
                    }
            },
    {
        proof {
            ballot.lemma_view_entries();
            ballot.lemma_wf_distinct();
        }
        let ghost evs = ballot.entry_views();
        let entries = ballot.scores();
        let m = entries.len();

        // First pass: resolve every entry to a registered candidate, or
        // reject the ballot before anything is touched.
        let mut idxs: Vec<usize> = Vec::new();
        for t in 0..m
            invariant
                *self == *old(self),
                self.wf(),
                ballot.wf(),
                m == entries@.len(),
                evs == crate::ballot::pair_views(entries@),
                evs == ballot.entry_views(),
                crate::ballot::distinct_keys(evs),
                ballot@ == crate::ballot::kv_map(evs),
                forall|k: Seq<char>| #[trigger] ballot@.contains_key(k) <==> has_key(evs, k),
                idxs@.len() == t,
                forall|u: int|
                    0 <= u < t ==> (#[trigger] idxs@[u]) < self.options@.len()
                        && self.options@[idxs@[u] as int].value@ == evs[u].0,
        {
            match self.find_option(&entries[t].0) {
                Some(j) => {
                    idxs.push(j);
                }
                None => {
                    proof {
                        let ghost w = entries@[t as int].0@;
                        assert(evs[t as int].0 == w);
                        assert(has_key(evs, w));
                        assert(ballot@.contains_key(w));
                        assert(!old(self).registered(w));
                        assert forall|u: int| 0 <= u < t implies old(self).registered(
                            (#[trigger] ballot.entry_views()[u]).0,
                        ) by {
                            let j = idxs@[u];
                            assert(self.options@[j as int].value@ == evs[u].0);
                            assert(self.option_values()[j as int] == evs[u].0);
                        }
                        assert((ballot.entry_views()[t as int]).0 == w);
                    }
                    return Err(VotingError::InvalidOption(entries[t].0.clone()));
                }
            }
        }

        // Second pass: fold every entry into its candidate's metrics.
        let ghost base = *self;
        let ghost bm = base.ballot_models();
        proof {
            self.lemma_models_bounded();
        }
        for t in 0..m
            invariant
                m == entries@.len(),
                evs == crate::ballot::pair_views(entries@),
                crate::ballot::distinct_keys(evs),
                ballot.wf(),
                ballot@ == crate::ballot::kv_map(evs),
                forall|k: Seq<char>| #[trigger] ballot@.contains_key(k) <==> has_key(evs, k),
                base == *old(self),
                base.wf(),
                bm == base.ballot_models(),
                bm.len() < MAX_BALLOTS,
                all_scores_bounded(bm),
                self.ballots == base.ballots,
                self.options@.len() == base.options@.len(),
                forall|u: int|
                    0 <= u < m ==> (#[trigger] idxs@[u]) < base.options@.len()
                        && base.options@[idxs@[u] as int].value@ == evs[u].0,
                idxs@.len() == m,
                forall|i: int|
                    0 <= i < self.options@.len() ==> (#[trigger] self.options@[i]).value@
                        == base.options@[i].value@ && self.options@[i].order
                        == base.options@[i].order,
                forall|i: int|
                    0 <= i < self.options@.len() ==> (#[trigger] self.options@[i]).metrics.spec_total()
                        == base.options@[i].metrics.spec_total() + if prefix_has(evs, t as int, self.options@[i].value@) {
                        ballot@[self.options@[i].value@]
                    } else {
                        0int
                    },
                forall|i: int, v: int|
                    0 <= i < self.options@.len() && 0 <= v <= 5 ==> (
                    #[trigger] self.options@[i].metrics.count_of(v))
                        == base.options@[i].metrics.count_of(v) + if prefix_has(evs, t as int, self.options@[i].value@)
                        && ballot@[self.options@[i].value@] == v {
                        1int
                    } else {
                        0int
                    },
        {
            let j = idxs[t];
            let s: Score = entries[t].1;
            let ghost k = evs[t as int].0;
            proof {
                assert(evs[t as int] == (entries@[t as int].0@, score_val(entries@[t as int].1)));
                crate::ballot::lemma_kv_map_index(evs, t as int);
                assert(ballot@.contains_key(k) && ballot@[k] == score_val(s));
                // This entry's key was not among the earlier entries.
                assert(!prefix_has(evs, t as int, k)) by {
                    if prefix_has(evs, t as int, k) {
                        let u = choose|u: int| 0 <= u < t && (#[trigger] evs[u]).0 == k;
                        assert(evs[u].0 == evs[t as int].0);
                    }
                }
                assert(base.options@[j as int].metrics.synced(bm, k));
                lemma_tally_bounds(bm, k, score_val(s));
                crate::score::lemma_score_val_bounds(s);
                assert(self.options@[j as int].metrics.spec_total()
                    == base.options@[j as int].metrics.spec_total());
                assert(base.options@[j as int].metrics.spec_total() == total_score(bm, k));
                assert(self.options@[j as int].metrics.count_of(score_val(s))
                    == count_with_score(bm, k, score_val(s)));
            }
            let ghost pre = self.options@;
            let o = &mut self.options[j];
            o.metrics.record(s);
            proof {
                assert(self.options@ =~= pre.update(j as int, *o));
                assert forall|i: int, v: int|
                    0 <= i < self.options@.len() && 0 <= v <= 5 implies (
                    #[trigger] self.options@[i].metrics.count_of(v))
                        == base.options@[i].metrics.count_of(v) + if prefix_has(evs, t + 1, self.options@[i].value@)
                        && ballot@[self.options@[i].value@] == v {
                        1int
                    } else {
                        0int
                    } by {
                    let ki = self.options@[i].value@;
                    if i == j {
                        assert(prefix_has(evs, t + 1, ki)) by {
                            assert((evs[t as int]).0 == ki);
                        }
                    } else {
                        assert(self.options@[i] == pre[i]);
                        assert(ki != k);
                        assert(prefix_has(evs, t + 1, ki) == prefix_has(evs, t as int, ki)) by {
                            if prefix_has(evs, t + 1, ki) {
                                let u = choose|u: int| 0 <= u < t + 1 && (#[trigger] evs[u]).0 == ki;
                                assert(u < t);
                                assert(prefix_has(evs, t as int, ki));
                            }
                            if prefix_has(evs, t as int, ki) {
                                let u = choose|u: int| 0 <= u < t && (#[trigger] evs[u]).0 == ki;
                                assert(0 <= u < t + 1 && evs[u].0 == ki);
                            }
                        }
                    }
                }
                assert forall|i: int|
                    0 <= i < self.options@.len() implies (
                    #[trigger] self.options@[i]).metrics.spec_total()
                        == base.options@[i].metrics.spec_total() + if prefix_has(evs, t + 1, self.options@[i].value@) {
                        ballot@[self.options@[i].value@]
                    } else {
                        0int
                    } by {
                    let ki = self.options@[i].value@;
                    if i == j {
                        assert(prefix_has(evs, t + 1, ki)) by {
                            assert((evs[t as int]).0 == ki);
                        }
                    } else {
                        assert(self.options@[i] == pre[i]);
                        assert(ki != k);
                        if prefix_has(evs, t + 1, ki) {
                            let u = choose|u: int| 0 <= u < t + 1 && (#[trigger] evs[u]).0 == ki;
                            assert(u < t);
                            assert(prefix_has(evs, t as int, ki));
                        }
                        if prefix_has(evs, t as int, ki) {
                            let u = choose|u: int| 0 <= u < t && (#[trigger] evs[u]).0 == ki;
                            assert(0 <= u < t + 1 && evs[u].0 == ki);
                        }
                    }
                }
            }
        }

        // Append the ballot to the log; the folded metrics are exactly
        // the aggregate of the extended log.
        let ghost mid = *self;
        self.ballots.push(ballot);
        proof {
            assert(self.ballot_models() =~= bm.push(ballot@));
            assert(self.option_values() =~= base.option_values());
            lemma_tally_push(bm, ballot@, Seq::<char>::empty());
            assert forall|i: int| 0 <= i < self.options@.len()
                implies (#[trigger] self.options@[i]).metrics.synced(
                self.ballot_models(),
                self.options@[i].value@,
            ) by {
                let ki = self.options@[i].value@;
                lemma_tally_push(bm, ballot@, ki);
                assert(self.options@[i] == mid.options@[i]);
                assert(prefix_has(evs, m as int, ki) == has_key(evs, ki));
                assert(base.options@[i].metrics.synced(bm, ki));
            }
            assert forall|i: int, k: Seq<char>|
                0 <= i < self.ballots@.len() && (#[trigger] self.ballot_models()[i].contains_key(k))
                implies has_val(self.option_values(), k) by {
                if i < self.ballots@.len() - 1 {
                    assert(base.ballot_models()[i].contains_key(k));
                    assert(has_val(base.option_values(), k));
                } else {
                    assert(self.ballot_models()[i] == ballot@);
                    assert(has_key(evs, k));
                    let u = choose|u: int| 0 <= u < evs.len() && (#[trigger] evs[u]).0 == k;
                    let j = idxs@[u];
                    assert(base.options@[j as int].value@ == k);
                    assert(base.option_values()[j as int] == k);
                    assert(has_val(base.option_values(), k));
                }
            }
            assert forall|k: Seq<char>| #[trigger] ballot@.contains_key(k)
                implies old(self).registered(k) by {
                let u = choose|u: int| 0 <= u < evs.len() && (#[trigger] evs[u]).0 == k;
                let j = idxs@[u];
                assert(base.options@[j as int].value@ == k);
                assert(base.option_values()[j as int] == k);
            }
        }
        Ok(())
    }
}

/// Some pair among the first `t` of `s` carries the key `k`.
pub open spec fn prefix_has(s: Seq<(Seq<char>, int)>, t: int, k: Seq<char>) -> bool {
    exists|u: int| 0 <= u < t && (#[trigger] s[u]).0 == k
}

/// Two aggregates present identical frequency buckets exactly when
/// their ranking keys form a perfect pair.
proof fn lemma_perfect_pair_iff(a: ScoreMetrics, ai: int, b: ScoreMetrics, bi: int)
    ensures
        perfect_pair(key_of(a, ai), key_of(b, bi)) <==> (forall|v: int|
            0 <= v <= 5 ==> #[trigger] a.count_of(v) == b.count_of(v)),
{
    if forall|v: int| 0 <= v <= 5 ==> #[trigger] a.count_of(v) == b.count_of(v) {
        assert(a.count_of(0) == b.count_of(0));
        assert(a.count_of(1) == b.count_of(1));
        assert(a.count_of(2) == b.count_of(2));
        assert(a.count_of(3) == b.count_of(3));
        assert(a.count_of(4) == b.count_of(4));
        assert(a.count_of(5) == b.count_of(5));
    }
}

impl Election {
    /// The pairwise recount between two candidates, read directly from
    /// the ballot log: each ballot scoring both contributes one vote to
    /// the strictly higher side; a ballot missing a score for either is
    /// excluded (abstention, not a vote for the lower option).
    #[verifier::loop_isolation(false)]
    fn get_head_to_head_votes(&self, option1: &String, option2: &String) -> (r: (u32, u32))
        requires
            self.wf(),
        ensures
            r.0 as int == h2h_votes(self.ballot_models(), option1@, option2@).0,
            r.1 as int == h2h_votes(self.ballot_models(), option1@, option2@).1,
    {
        let ghost bm = self.ballot_models();
        let mut v1: u32 = 0;
        let mut v2: u32 = 0;
        let n = self.ballots.len();
        for t in 0..n
            invariant
                v1 as int == h2h_votes(bm.subrange(0, t as int), option1@, option2@).0,
                v2 as int == h2h_votes(bm.subrange(0, t as int), option1@, option2@).1,
                v1 <= t,
                v2 <= t,
        {
            let ghost pre = bm.subrange(0, t as int);
            let ghost cur = bm.subrange(0, t + 1);
            let b = &self.ballots[t];
            proof {
                assert(cur.drop_last() =~= pre);
                assert(cur.last() == bm[t as int]);
                assert(bm[t as int] == self.ballots@[t as int]@);
            }
            let s1 = b.score_for(option1);
            let s2 = b.score_for(option2);
            match (s1, s2) {
                (Some(x), Some(y)) => {
                    let xv = x.as_i8();
                    let yv = y.as_i8();
                    if xv > yv {
                        v1 = v1 + 1;
                    } else if xv < yv {
                        v2 = v2 + 1;
                    }
                }
                _ => {
                    proof {
                        assert(!(bm[t as int].contains_key(option1@) && bm[t as int].contains_key(
                            option2@,
                        )));
                    }
                }
            }
        }
        proof {
            assert(bm.subrange(0, n as int) =~= bm);
        }
        (v1, v2)
    }

    /// The length of the run of candidates sharing the total at `start`.
    fn run_len(entries: &Vec<RankEntry>, start: usize) -> (r: usize)
        requires
            start < entries@.len(),
        ensures
            r as int == tie_run_len(entry_keys(entries@), start as int),
            1 <= r <= entries@.len() - start,
        decreases entries@.len() - start,
    {
        let n = entries.len();
        if start + 1 < n && entries[start + 1].metrics.total()
            == entries[start].metrics.total() {
            1 + Self::run_len(entries, start + 1)
        } else {
            1
        }
    }

    /// Build one sortable row per candidate and sort them into the
    /// contest order.
    #[verifier::loop_isolation(false)]
    fn ranked_entries(&self) -> (r: Vec<RankEntry>)
        requires
            self.wf(),
        ensures
            r@.len() == self.option_values().len(),
            entry_keys(r@) == spec_ranking(self.option_values(), self.ballot_models()),
            forall|u: int|
                0 <= u < r@.len() ==> (#[trigger] r@[u]).idx < self.option_values().len(),
    {
        let ghost values = self.option_values();
        let ghost bm = self.ballot_models();
        let n = self.options.len();
        let mut entries: Vec<RankEntry> = Vec::new();
        for i in 0..n
            invariant
                entries@.len() == i,
                forall|u: int|
                    0 <= u < i ==> (#[trigger] entries@[u]) == (RankEntry {
                        metrics: self.options@[u].metrics,
                        idx: u as usize,
                    }),
        {
            entries.push(RankEntry { metrics: self.options[i].metrics, idx: i });
        }
        proof {
            assert forall|u: int| 0 <= u < n implies #[trigger] entry_keys(entries@)[u]
                == spec_entries(values, bm)[u] by {
                let m = self.options@[u].metrics;
                assert(m.synced(bm, values[u]));
                assert(m.count_of(0) == count_with_score(bm, values[u], 0));
                assert(m.count_of(1) == count_with_score(bm, values[u], 1));
                assert(m.count_of(2) == count_with_score(bm, values[u], 2));
                assert(m.count_of(3) == count_with_score(bm, values[u], 3));
                assert(m.count_of(4) == count_with_score(bm, values[u], 4));
                assert(m.count_of(5) == count_with_score(bm, values[u], 5));
                assert(entry_keys(entries@)[u] == key_of(m, u));
                assert(spec_entries(values, bm)[u] == spec_rank_key(bm, values[u], u));
            }
            assert(entry_keys(entries@) =~= spec_entries(values, bm));
        }
        sort_entries(&mut entries);
        proof {
            lemma_sorted_is_sort_by(entry_keys(entries@), spec_entries(values, bm));
            lemma_ranking_properties(values, bm);
            assert forall|u: int| 0 <= u < entries@.len() implies (#[trigger] entries@[u]).idx
                < values.len() by {
                assert(entry_keys(entries@)[u] == entries@[u]@);
                assert(entries@[u]@.idx == entries@[u].idx as int);
            }
        }
        entries
    }

    /// Decide the runoff between the two top-ranked candidates: the
    /// winner is whichever of them the head-to-head recount favors,
    /// with the rank-0 finalist winning ties.
    fn decide(&self, entries: &Vec<RankEntry>) -> (r: Result<RunoffResult, VotingError>)
        requires
            self.wf(),
            2 <= entries@.len(),
            entries@.len() == self.option_values().len(),
            entry_keys(entries@) == spec_ranking(self.option_values(), self.ballot_models()),
            forall|u: int|
                0 <= u < entries@.len() ==> (#[trigger] entries@[u]).idx
                    < self.option_values().len(),
        ensures
            result_matches(
                r,
                spec_decided(
                    self.option_values(),
                    self.ballot_models(),
                    spec_ranking(self.option_values(), self.ballot_models()),
                ),
            ),
    {
        let ghost values = self.option_values();
        let ghost bm = self.ballot_models();
        let ghost sorted = spec_ranking(values, bm);
        proof {
            assert(entry_keys(entries@)[0] == entries@[0]@);
            assert(entry_keys(entries@)[1] == entries@[1]@);
        }
        let i1 = entries[0].idx;
        let i2 = entries[1].idx;
        let f1 = self.options[i1].value.clone();
        let f2 = self.options[i2].value.clone();
        proof {
            assert(f1@ == values[sorted[0].idx]);
            assert(f2@ == values[sorted[1].idx]);
            lemma_h2h_bounds(bm, f1@, f2@);
        }
        let p = self.get_head_to_head_votes(&f1, &f2);
        let winner = if p.0 >= p.1 {
            f1.clone()
        } else {
            f2.clone()
        };
        let res = RunoffResult { winner, finalist1: f1, finalist2: f2, head_to_head: p };
        proof {
            let m = spec_decided(values, bm, sorted);
            assert(m matches Outcome::Decided(mm) && res@ == mm);
        }
        Ok(res)
    }

    /// Determine the overall winner from the current state: sort the
    /// candidates by the ranking comparator, fail on a perfect tie at
    /// the top, resolve or reject a perfect tie for the second slot,
    /// and otherwise decide by the head-to-head recount between the two
    /// finalists. Read-only and deterministic: the result is a pure
    /// function of the registered candidates and the accepted ballots.
    #[verifier::loop_isolation(false)]
    pub fn determine_winner(&self) -> (r: Result<RunoffResult, VotingError>)
        requires
            self.wf(),
        ensures
            result_matches(r, spec_outcome(self.option_values(), self.ballot_models())),
    {
        let ghost values = self.option_values();
        let ghost bm = self.ballot_models();
        let n = self.options.len();
        if n < 2 {
            return Err(VotingError::InsufficientOptions);
        }
        let entries = self.ranked_entries();
        let ghost sorted = spec_ranking(values, bm);

        let ft = Self::run_len(&entries, 0);
        if ft > 1 {
            if entries[0].metrics.same_distribution(&entries[1].metrics) {
                proof {
                    lemma_perfect_pair_iff(
                        entries@[0].metrics,
                        entries@[0].idx as int,
                        entries@[1].metrics,
                        entries@[1].idx as int,
                    );
                    assert(entry_keys(entries@)[0] == entries@[0]@);
                    assert(entry_keys(entries@)[1] == entries@[1]@);
                    assert(perfect_pair(sorted[0], sorted[1]));
                }
                return Err(VotingError::FirstPlaceTie);
            }
            proof {
                lemma_perfect_pair_iff(
                    entries@[0].metrics,
                    entries@[0].idx as int,
                    entries@[1].metrics,
                    entries@[1].idx as int,
                );
                assert(entry_keys(entries@)[0] == entries@[0]@);
                assert(entry_keys(entries@)[1] == entries@[1]@);
                assert(!perfect_pair(sorted[0], sorted[1]));
            }
            return self.decide(&entries);
        }
        let st = Self::run_len(&entries, 1);
        if st > 1 {
            proof {
                assert(entry_keys(entries@)[1] == entries@[1]@);
                assert(entry_keys(entries@)[2] == entries@[2]@);
                lemma_perfect_pair_iff(
                    entries@[1].metrics,
                    entries@[1].idx as int,
                    entries@[2].metrics,
                    entries@[2].idx as int,
                );
            }
            if entries[1].metrics.same_distribution(&entries[2].metrics) {
                let f1v = self.options[entries[0].idx].value.clone();
                proof {
                    assert(entry_keys(entries@)[0] == entries@[0]@);
                    assert(f1v@ == values[sorted[0].idx]);
                }
                let mut j: usize = 1;
                while j <= st
                    invariant
                        1 <= j <= st + 1,
                        forall|u: int| 1 <= u < j ==> #[trigger] leader_beats(values, bm, sorted, u),
                    decreases st + 1 - j,
                {
                    proof {
                        assert(entry_keys(entries@)[j as int] == entries@[j as int]@);
                    }
                    let w = self.get_head_to_head_votes(
                        &f1v,
                        &self.options[entries[j].idx].value,
                    );
                    if w.0 <= w.1 {
                        proof {
                            assert(!leader_beats(values, bm, sorted, j as int));
                            assert(!leader_beats_all(values, bm, sorted, st as int));
                        }
                        return Err(VotingError::SecondPlaceTie);
                    }
                    proof {
                        assert(leader_beats(values, bm, sorted, j as int));
                    }
                    j = j + 1;
                }
                proof {
                    assert(leader_beats_all(values, bm, sorted, st as int));
                }
                return self.decide(&entries);
            }
            return self.decide(&entries);
        }
        self.decide(&entries)
    }

    /// Informational matchups for a decided election: the winner
    /// against each ranked runner-up at ranks 2 and 3 (rank 1 is the
    /// second finalist, whose recount the main result already
    /// reports). Reporting only; never affects the winner.
    #[verifier::loop_isolation(false)]
    pub fn auxiliary_matchups(&self) -> (r: Result<Vec<HeadToHeadMatchup>, VotingError>)
        requires
            self.wf(),
        ensures
            match spec_outcome(self.option_values(), self.ballot_models()) {
                Outcome::Decided(_) => r matches Ok(v) && {
                    let aux = spec_aux_matchups(self.option_values(), self.ballot_models());
                    &&& v@.len() == aux.len()
                    &&& forall|u: int| 0 <= u < aux.len() ==> (#[trigger] v@[u])@ == aux[u]
                },
                Outcome::Insufficient => r matches Err(e) && e is InsufficientOptions,
                Outcome::FirstTie => r matches Err(e) && e is FirstPlaceTie,
                Outcome::SecondTie => r matches Err(e) && e is SecondPlaceTie,
            },
    {
        let ghost values = self.option_values();
        let ghost bm = self.ballot_models();
        let ghost sorted = spec_ranking(values, bm);
        match self.determine_winner() {
            Err(e) => Err(e),
            Ok(res) => {
                let ghost aux = spec_aux_matchups(values, bm);
                let entries = self.ranked_entries();
                let n = self.options.len();
                let hi = if n < 4 {
                    n
                } else {
                    4
                };
                proof {
                    assert(res@.winner == spec_winner_value(values, bm));
                    assert(aux.len() == hi - 2);
                }
                let mut out: Vec<HeadToHeadMatchup> = Vec::new();
                for j in 2..hi
                    invariant
                        out@.len() == j - 2,
                        forall|u: int| 0 <= u < j - 2 ==> (#[trigger] out@[u])@ == aux[u],
                {
                    proof {
                        assert(entry_keys(entries@)[j as int] == entries@[j as int]@);
                    }
                    let rv = self.options[entries[j].idx].value.clone();
                    let p = self.get_head_to_head_votes(&res.winner, &rv);
                    proof {
                        lemma_h2h_bounds(bm, res.winner@, rv@);
                    }
                    out.push(
                        HeadToHeadMatchup {
                            candidate1: res.winner.clone(),
                            candidate2: rv,
                            votes1: p.0,
                            votes2: p.1,
                        },
                    );
                }
                Ok(out)
            }
        }
    }

    /// Per-candidate descriptive statistics, derivable at any time from
    /// the current metrics: identifier, aggregate metrics, and how many
    /// ballots scored the candidate. Independent of whether a winner
    /// can be determined.
    #[verifier::loop_isolation(false)]
    pub fn statistics(&self) -> (r: Vec<CandidateStats>)
        requires
            self.wf(),
        ensures
            r@.len() == self.option_values().len(),
            forall|i: int|
                0 <= i < r@.len() ==> {
                    let k = self.option_values()[i];
                    &&& (#[trigger] r@[i]).value@ == k
                    &&& r@[i].metrics.synced(self.ballot_models(), k)
                    &&& r@[i].scored_ballots as int == crate::metrics::scored_count(
                        self.ballot_models(),
                        k,
                    )
                },
    {
        let ghost values = self.option_values();
        let ghost bm = self.ballot_models();
        proof {
            self.lemma_models_bounded();
        }
        let n = self.options.len();
        let mut out: Vec<CandidateStats> = Vec::new();
        for i in 0..n
            invariant
                out@.len() == i,
                forall|u: int|
                    0 <= u < i ==> {
                        let k = values[u];
                        &&& (#[trigger] out@[u]).value@ == k
                        &&& out@[u].metrics.synced(bm, k)
                        &&& out@[u].scored_ballots as int == crate::metrics::scored_count(bm, k)
                    },
        {
            let o = &self.options[i];
            let ghost k = values[i as int];
            proof {
                assert(o.metrics.synced(bm, k));
                lemma_tally_bounds(bm, k, 0);
                lemma_tally_bounds(bm, k, 1);
                lemma_tally_bounds(bm, k, 2);
                lemma_tally_bounds(bm, k, 3);
                lemma_tally_bounds(bm, k, 4);
                lemma_tally_bounds(bm, k, 5);
                crate::metrics::lemma_tally_decomposition(bm, k);
                assert(o.metrics.count_of(0) == count_with_score(bm, k, 0));
                assert(o.metrics.count_of(1) == count_with_score(bm, k, 1));
                assert(o.metrics.count_of(2) == count_with_score(bm, k, 2));
                assert(o.metrics.count_of(3) == count_with_score(bm, k, 3));
                assert(o.metrics.count_of(4) == count_with_score(bm, k, 4));
                assert(o.metrics.count_of(5) == count_with_score(bm, k, 5));
            }
            let scored = o.metrics.count(Score::Zero) + o.metrics.count(Score::One)
                + o.metrics.count(Score::Two) + o.metrics.count(Score::Three) + o.metrics.count(
                Score::Four,
            ) + o.metrics.count(Score::Five);
            out.push(
                CandidateStats {
                    value: o.value.clone(),
                    metrics: o.metrics,
                    scored_ballots: scored,
                },
            );
        }
        out
    }
}

/// Per-candidate descriptive statistics for display and archival.
#[derive(Debug, Clone)]
pub struct CandidateStats {
    /// The candidate's identifier.
    pub value: String,
    /// The candidate's aggregate metrics: total and frequency buckets.
    pub metrics: ScoreMetrics,
    /// How many ballots recorded any score for this candidate.
    pub scored_ballots: u32,
}

} // verus!
