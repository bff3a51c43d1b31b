//! Ballots: an immutable mapping from candidate identifier to `Score`,
//! keys unique. A ballot need not score every candidate; an absent key
//! means "not rated by this voter", distinct from an explicit score of 0.

use vstd::prelude::*;
use crate::score::{Score, score_val, VotingError};

verus! {

/// The mapping a sequence of (key view, value) pairs stands for.
/// Later entries would win on a duplicate key; ballots never hold one.
pub open spec fn kv_map(s: Seq<(Seq<char>, int)>) -> Map<Seq<char>, int>
    decreases s.len(),
{
    if s.len() == 0 {
        Map::empty()
    } else {
        kv_map(s.drop_last()).insert(s.last().0, s.last().1)
    }
}

/// Some pair of `s` carries the key `k`.
pub open spec fn has_key(s: Seq<(Seq<char>, int)>, k: Seq<char>) -> bool {
    exists|t: int| 0 <= t < s.len() && (#[trigger] s[t]).0 == k
}

/// No two pairs share a key.
pub open spec fn distinct_keys(s: Seq<(Seq<char>, int)>) -> bool {
    forall|i: int, j: int| 0 <= i < j < s.len() ==> (#[trigger] s[i]).0 != (#[trigger] s[j]).0
}

/// The domain of `kv_map(s)` is exactly the set of keys occurring in `s`.
pub proof fn lemma_kv_map_domain(s: Seq<(Seq<char>, int)>)
    ensures
        forall|k: Seq<char>| #[trigger] kv_map(s).contains_key(k) <==> has_key(s, k),
    decreases s.len(),
{
    if s.len() > 0 {
        let d = s.drop_last();
        lemma_kv_map_domain(d);
        assert(kv_map(s) == kv_map(d).insert(s.last().0, s.last().1));
        assert forall|k: Seq<char>| #[trigger] kv_map(s).contains_key(k) implies has_key(s, k) by {
            if k == s.last().0 {
                assert((s[s.len() - 1]).0 == k);
            } else {
                assert(kv_map(d).contains_key(k));
                assert(has_key(d, k));
                let t = choose|t: int| 0 <= t < d.len() && (#[trigger] d[t]).0 == k;
                assert(d[t] == s[t]);
                assert((s[t]).0 == k);
            }
        }
        assert forall|k: Seq<char>| has_key(s, k) implies #[trigger] kv_map(s).contains_key(k) by {
            let t = choose|t: int| 0 <= t < s.len() && (#[trigger] s[t]).0 == k;
            if t < s.len() - 1 {
                assert((d[t]).0 == k);
                assert(has_key(d, k));
            }
        }
    }
}

/// With distinct keys, each pair's key maps to that pair's value.
pub proof fn lemma_kv_map_index(s: Seq<(Seq<char>, int)>, t: int)
    requires
        distinct_keys(s),
        0 <= t < s.len(),
    ensures
        kv_map(s).contains_key(s[t].0),
        kv_map(s)[s[t].0] == s[t].1,
    decreases s.len(),
{
    let d = s.drop_last();
    if t == s.len() - 1 {
        lemma_kv_map_domain(s);
        assert((s[t]).0 == s.last().0);
    } else {
        assert(distinct_keys(d));
        assert(d[t] == s[t]);
        lemma_kv_map_index(d, t);
        assert((s[t]).0 != (s[s.len() - 1]).0);
    }
}

/// Every value of `kv_map(s)` occurs as a pair's value in `s`.
pub proof fn lemma_kv_map_values(s: Seq<(Seq<char>, int)>, lo: int, hi: int)
    requires
        forall|t: int| 0 <= t < s.len() ==> lo <= (#[trigger] s[t]).1 <= hi,
    ensures
        forall|k: Seq<char>| #[trigger] kv_map(s).contains_key(k) ==> lo <= kv_map(s)[k] <= hi,
    decreases s.len(),
{
    if s.len() > 0 {
        let d = s.drop_last();
        assert forall|t: int| 0 <= t < d.len() implies lo <= (#[trigger] d[t]).1 <= hi by {
            assert(d[t] == s[t]);
        }
        lemma_kv_map_values(d, lo, hi);
        assert(lo <= (s[s.len() - 1]).1 <= hi);
        assert forall|k: Seq<char>| #[trigger] kv_map(s).contains_key(k)
            implies lo <= kv_map(s)[k] <= hi by {
            if k != s.last().0 {
                assert(kv_map(d).contains_key(k));
            }
        }
    }
}

/// The view of a ballot's stored pairs: key views with score values.
pub open spec fn pair_views(s: Seq<(String, Score)>) -> Seq<(Seq<char>, int)> {
    s.map_values(|p: (String, Score)| (p.0@, score_val(p.1)))
}

/// The view of raw input pairs: key views with raw integer values.
pub open spec fn raw_views(s: Seq<(String, i8)>) -> Seq<(Seq<char>, int)> {
    s.map_values(|p: (String, i8)| (p.0@, p.1 as int))
}

/// A voter's validated ratings: each candidate scored at most once.
#[derive(Debug, Clone)]
pub struct Ballot {
    entries: Vec<(String, Score)>,
}

impl View for Ballot {
    type V = Map<Seq<char>, int>;

    closed spec fn view(&self) -> Map<Seq<char>, int> {
        kv_map(pair_views(self.entries@))
    }
}

impl Ballot {
    /// The stored pairs, viewed as key/value pairs.
    pub closed spec fn entry_views(self) -> Seq<(Seq<char>, int)> {
        pair_views(self.entries@)
    }

    /// Well-formed: no candidate is scored twice.
    pub closed spec fn wf(self) -> bool {
        distinct_keys(pair_views(self.entries@))
    }

    /// A well-formed ballot's entry pairs carry pairwise distinct keys.
    pub proof fn lemma_wf_distinct(self)
        requires
            self.wf(),
        ensures
            distinct_keys(self.entry_views()),
    {
    }

    /// The ballot's mapping is built from its entry pairs.
    pub proof fn lemma_view_entries(self)
        ensures
            self@ == kv_map(self.entry_views()),
            forall|k: Seq<char>| #[trigger] self@.contains_key(k) <==> has_key(self.entry_views(), k),
    {
        lemma_kv_map_domain(pair_views(self.entries@));
    }

    /// Every score a ballot records lies in 0..=5.
    pub proof fn lemma_view_scores(self)
        ensures
            forall|k: Seq<char>| #[trigger] self@.contains_key(k) ==> 0 <= self@[k] <= 5,
    {
        let pv = pair_views(self.entries@);
        assert forall|t: int| 0 <= t < pv.len() implies 0 <= (#[trigger] pv[t]).1 <= 5 by {
            crate::score::lemma_score_val_bounds(self.entries@[t].1);
        }
        lemma_kv_map_values(pv, 0, 5);
    }

    /// Validated construction from raw (identifier, integer) pairs: every
    /// score must lie in 0..=5, and the whole construction fails with
    /// `InvalidScore` if any entry is out of range (all-or-nothing; no
    /// partial ballot is ever produced). An empty list is a valid ballot.
    pub fn new(scores_map: Vec<(String, i8)>) -> (r: Result<Ballot, VotingError>)
        requires
            forall|i: int, j: int|
                0 <= i < j < scores_map@.len() ==> scores_map@[i].0@ != scores_map@[j].0@,
        ensures
            (forall|t: int| 0 <= t < scores_map@.len() ==> 0 <= (#[trigger] scores_map@[t]).1 <= 5)
                <==> r is Ok,
            r matches Ok(b) ==> {
                &&& b.wf()
                &&& b.entry_views() == raw_views(scores_map@)
                &&& b@ == kv_map(raw_views(scores_map@))
            },
            r matches Err(e) ==> e matches VotingError::InvalidScore(v) && exists|t: int|
                {
                    &&& 0 <= t < scores_map@.len()
                    &&& (#[trigger] scores_map@[t]).1 == v
                    &&& !(0 <= v <= 5)
                    &&& forall|u: int| 0 <= u < t ==> 0 <= (#[trigger] scores_map@[u]).1 <= 5
                },
    {
        let mut entries: Vec<(String, Score)> = Vec::new();
        let n = scores_map.len();
        for t in 0..n
            invariant
                n == scores_map@.len(),
                entries@.len() == t,
                forall|i: int, j: int|
                    0 <= i < j < scores_map@.len() ==> scores_map@[i].0@ != scores_map@[j].0@,
                forall|u: int| 0 <= u < t ==> (#[trigger] entries@[u]).0@ == scores_map@[u].0@,
                forall|u: int| 0 <= u < t ==> score_val((#[trigger] entries@[u]).1) == scores_map@[u].1 as int,
                forall|u: int| 0 <= u < t ==> 0 <= (#[trigger] scores_map@[u]).1 <= 5,
        {
            let v = scores_map[t].1;
            match Score::try_from(v) {
                Ok(s) => {
                    entries.push((scores_map[t].0.clone(), s));
                }
                Err(bad) => {
                    return Err(VotingError::InvalidScore(bad));
                }
            }
        }
        let b = Ballot { entries };
        proof {
            assert(pair_views(b.entries@) =~= raw_views(scores_map@));
        }
        Ok(b)
    }

    /// The recorded (identifier, score) pairs.
    pub fn scores(&self) -> (r: &Vec<(String, Score)>)
        ensures
            pair_views(r@) == self.entry_views(),
    {
        &self.entries
    }

    /// This voter's score for `key`, or `None` where the ballot does not
    /// rate that candidate.
    pub fn score_for(&self, key: &String) -> (r: Option<Score>)
        requires
            self.wf(),
        ensures
            match r {
                Some(s) => self@.contains_key(key@) && score_val(s) == self@[key@],
                None => !self@.contains_key(key@),
            },
    {
        proof {
            self.lemma_view_entries();
        }
        let n = self.entries.len();
        for t in 0..n
            invariant
                self.wf(),
                n == self.entries@.len(),
                self@ == kv_map(self.entry_views()),
                forall|k: Seq<char>| #[trigger] self@.contains_key(k) <==> has_key(self.entry_views(), k),
                forall|u: int| 0 <= u < t ==> (#[trigger] self.entries@[u]).0@ != key@,
        {
            if self.entries[t].0 == *key {
                proof {
                    assert((pair_views(self.entries@)[t as int]).0 == key@);
                    lemma_kv_map_index(pair_views(self.entries@), t as int);
                }
                return Some(self.entries[t].1);
            }
        }
        proof {
            assert forall|t: int| 0 <= t < self.entry_views().len()
                implies (#[trigger] self.entry_views()[t]).0 != key@ by {
                assert(self.entries@[t].0@ != key@);
            }
            assert(!has_key(self.entry_views(), key@));
        }
        None
    }
}

} // verus!
