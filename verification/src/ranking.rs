//! The deterministic contest order over candidates: total score first,
//! then a cascade of tie-break keys, with registration order as the final
//! key. The comparator always yields a strict total order; genuine
//! statistical ties are detected separately from full distributions.

use vstd::prelude::*;
use vstd::relations::{sorted_by, total_ordering};
use vstd::seq_lib::lemma_sorted_unique;
use crate::metrics::ScoreMetrics;

verus! {

/// Everything the ranking comparator reads about one candidate:
/// total, the six frequency buckets, and the registration index.
pub ghost struct RankKey {
    pub total: int,
    pub c0: int,
    pub c1: int,
    pub c2: int,
    pub c3: int,
    pub c4: int,
    pub c5: int,
    pub idx: int,
}

/// The count of non-zero scores: breadth of support.
pub open spec fn nonzero_count(x: RankKey) -> int {
    x.c1 + x.c2 + x.c3 + x.c4 + x.c5
}

/// The contest order: `rank_le(x, y)` holds when `x` ranks at or above
/// `y`. Keys, in order: total descending; non-zero count descending;
/// count of fives descending; count of fours descending; count of zeros
/// ascending; count of ones ascending; registration index ascending.
/// The trailing bucket keys never decide between candidates of one
/// election (registration indexes differ); they make the order total on
/// all keys, which the sorting lemmas need.
pub open spec fn rank_le(x: RankKey, y: RankKey) -> bool {
    if x.total != y.total {
        x.total > y.total
    } else if nonzero_count(x) != nonzero_count(y) {
        nonzero_count(x) > nonzero_count(y)
    } else if x.c5 != y.c5 {
        x.c5 > y.c5
    } else if x.c4 != y.c4 {
        x.c4 > y.c4
    } else if x.c0 != y.c0 {
        x.c0 < y.c0
    } else if x.c1 != y.c1 {
        x.c1 < y.c1
    } else if x.idx != y.idx {
        x.idx < y.idx
    } else if x.c2 != y.c2 {
        x.c2 < y.c2
    } else {
        x.c3 <= y.c3
    }
}

/// The contest order as a first-class relation.
pub open spec fn rank_order() -> spec_fn(RankKey, RankKey) -> bool {
    |x: RankKey, y: RankKey| rank_le(x, y)
}

/// `rank_le` orders any two keys.
pub proof fn lemma_rank_le_total(x: RankKey, y: RankKey)
    ensures
        rank_le(x, y) || rank_le(y, x),
{
}

/// `rank_le` is antisymmetric: mutually ordered keys are equal.
pub proof fn lemma_rank_le_antisymmetric(x: RankKey, y: RankKey)
    requires
        rank_le(x, y),
        rank_le(y, x),
    ensures
        x == y,
{
    assert(x == RankKey {
        total: x.total,
        c0: x.c0,
        c1: x.c1,
        c2: x.c2,
        c3: x.c3,
        c4: x.c4,
        c5: x.c5,
        idx: x.idx,
    });
}

/// `rank_le` is transitive.
pub proof fn lemma_rank_le_transitive(x: RankKey, y: RankKey, z: RankKey)
    requires
        rank_le(x, y),
        rank_le(y, z),
    ensures
        rank_le(x, z),
{
}

/// The contest order is a total ordering in the sense of `vstd::relations`.
pub proof fn lemma_rank_total_ordering()
    ensures
        total_ordering(rank_order()),
{
    let r = rank_order();
    assert forall|x: RankKey, y: RankKey| #[trigger] r(x, y) && #[trigger] r(y, x) implies x == y by {
        lemma_rank_le_antisymmetric(x, y);
    }
    assert forall|x: RankKey, y: RankKey, z: RankKey|
        #[trigger] r(x, y) && #[trigger] r(y, z) implies r(x, z) by {
        lemma_rank_le_transitive(x, y, z);
    }
    assert forall|x: RankKey, y: RankKey| #[trigger] r(x, y) || #[trigger] r(y, x) by {
        lemma_rank_le_total(x, y);
    }
}

/// One sortable row: a candidate's metrics together with its
/// registration index.
#[derive(Debug, Clone, Copy)]
pub struct RankEntry {
    pub metrics: ScoreMetrics,
    pub idx: usize,
}

/// The ranking key a metrics aggregate presents at registration index `idx`.
pub open spec fn key_of(m: ScoreMetrics, idx: int) -> RankKey {
    RankKey {
        total: m.spec_total(),
        c0: m.count_of(0),
        c1: m.count_of(1),
        c2: m.count_of(2),
        c3: m.count_of(3),
        c4: m.count_of(4),
        c5: m.count_of(5),
        idx: idx,
    }
}

impl View for RankEntry {
    type V = RankKey;

    open spec fn view(&self) -> RankKey {
        key_of(self.metrics, self.idx as int)
    }
}

/// The keys a row sequence presents.
pub open spec fn entry_keys(s: Seq<RankEntry>) -> Seq<RankKey> {
    s.map_values(|e: RankEntry| e@)
}

/// Whether `a` ranks at or above `b` under the contest order.
pub fn entry_le(a: &RankEntry, b: &RankEntry) -> (r: bool)
    ensures
        r == rank_le(a@, b@),
{
    let at = a.metrics.total();
    let bt = b.metrics.total();
    if at != bt {
        return at > bt;
    }
    let an = nonzero_of(&a.metrics);
    let bn = nonzero_of(&b.metrics);
    if an != bn {
        return an > bn;
    }
    let a5 = a.metrics.count(crate::score::Score::Five);
    let b5 = b.metrics.count(crate::score::Score::Five);
    if a5 != b5 {
        return a5 > b5;
    }
    let a4 = a.metrics.count(crate::score::Score::Four);
    let b4 = b.metrics.count(crate::score::Score::Four);
    if a4 != b4 {
        return a4 > b4;
    }
    let a0 = a.metrics.count(crate::score::Score::Zero);
    let b0 = b.metrics.count(crate::score::Score::Zero);
    if a0 != b0 {
        return a0 < b0;
    }
    let a1 = a.metrics.count(crate::score::Score::One);
    let b1 = b.metrics.count(crate::score::Score::One);
    if a1 != b1 {
        return a1 < b1;
    }
    let a2 = a.metrics.count(crate::score::Score::Two);
    let b2 = b.metrics.count(crate::score::Score::Two);
    if a.idx != b.idx {
        return a.idx < b.idx;
    }
    if a2 != b2 {
        return a2 < b2;
    }
    let a3 = a.metrics.count(crate::score::Score::Three);
    let b3 = b.metrics.count(crate::score::Score::Three);
    a3 <= b3
}

/// The number of non-zero scores a candidate received.
fn nonzero_of(m: &ScoreMetrics) -> (r: u64)
    ensures
        r as int == nonzero_count(key_of(*m, 0)),
{
    m.count(crate::score::Score::One) as u64 + m.count(crate::score::Score::Two) as u64 + m.count(
        crate::score::Score::Three,
    ) as u64 + m.count(crate::score::Score::Four) as u64 + m.count(crate::score::Score::Five) as u64
}

/// Views pass through a pointwise update.
proof fn lemma_entry_keys_update(s: Seq<RankEntry>, i: int, e: RankEntry)
    requires
        0 <= i < s.len(),
    ensures
        entry_keys(s.update(i, e)) == entry_keys(s).update(i, e@),
{
    assert(entry_keys(s.update(i, e)) =~= entry_keys(s).update(i, e@));
}

/// Sort the rows by the contest order. The result is a permutation of
/// the input whose key sequence is sorted by `rank_le`.
#[verifier::loop_isolation(false)]
pub fn sort_entries(v: &mut Vec<RankEntry>)
    ensures
        final(v)@.len() == old(v)@.len(),
        sorted_by(entry_keys(final(v)@), rank_order()),
        entry_keys(final(v)@).to_multiset() == entry_keys(old(v)@).to_multiset(),
{
    broadcast use vstd::seq_lib::group_to_multiset_ensures;
    broadcast use vstd::seq_lib::to_multiset_update;

    let ghost vs0 = entry_keys(old(v)@);
    let n = v.len();
    if n < 2 {
        return;
    }
    for i in 1..n
        invariant
            v@.len() == n,
            entry_keys(v@).to_multiset() == vs0.to_multiset(),
            forall|x: int, y: int|
                0 <= x < y < i ==> rank_le(#[trigger] entry_keys(v@)[x], #[trigger] entry_keys(v@)[y]),
    {
        let mut j = i;
        while j > 0
            invariant
                0 <= j <= i < n,
                v@.len() == n,
                entry_keys(v@).to_multiset() == vs0.to_multiset(),
                forall|x: int, y: int|
                    0 <= x < y <= i && x != j && y != j ==> rank_le(
                        #[trigger] entry_keys(v@)[x],
                        #[trigger] entry_keys(v@)[y],
                    ),
                forall|y: int|
                    j < y <= i ==> rank_le(#[trigger] entry_keys(v@)[j as int], entry_keys(v@)[y]),
            decreases j,
        {
            if entry_le(&v[j - 1], &v[j]) {
                proof {
                    assert forall|x: int, y: int| 0 <= x < y <= i implies rank_le(
                        #[trigger] entry_keys(v@)[x],
                        #[trigger] entry_keys(v@)[y],
                    ) by {
                        if y == j && x < j {
                            if x < j - 1 {
                                lemma_rank_le_transitive(
                                    entry_keys(v@)[x],
                                    entry_keys(v@)[j - 1],
                                    entry_keys(v@)[j as int],
                                );
                            }
                        }
                    }
                }
                break;
            }
            let ghost before = v@;
            let a = v[j - 1];
            let b = v[j];
            v[j - 1] = b;
            v[j] = a;
            proof {
                lemma_rank_le_total(a@, b@);
                assert(rank_le(b@, a@));
                lemma_entry_keys_update(before, j - 1, b);
                lemma_entry_keys_update(before.update(j - 1, b), j as int, a);
                let ks0 = entry_keys(before);
                let ks2 = entry_keys(v@);
                assert(ks2 == ks0.update(j - 1, b@).update(j as int, a@));
                assert(ks0.update(j - 1, b@)[j as int] == ks0[j as int]);
                assert(ks2.to_multiset() =~= ks0.to_multiset());
                assert forall|x: int, y: int|
                    0 <= x < y <= i && x != j - 1 && y != j - 1 implies rank_le(
                    #[trigger] ks2[x],
                    #[trigger] ks2[y],
                ) by {
                    if x == j {
                        assert(ks2[x] == ks0[j - 1]);
                        assert(ks0[j - 1] == entry_keys(before)[j - 1]);
                    }
                    if y == j {
                        assert(ks2[y] == ks0[j - 1]);
                        if x < j - 1 {
                            assert(rank_le(ks0[x], ks0[j - 1]));
                        }
                    }
                }
                assert forall|y: int| j - 1 < y <= i implies rank_le(
                    ks2[j - 1],
                    #[trigger] ks2[y],
                ) by {
                    assert(ks2[j - 1] == b@);
                    if y == j {
                        assert(ks2[y] == a@);
                    } else {
                        assert(ks2[y] == ks0[y]);
                        assert(rank_le(ks0[j as int], ks0[y]));
                        lemma_rank_le_transitive(b@, a@, ks0[y]);
                    }
                }
            }
            j = j - 1;
        }
    }
}

/// A sequence sorted by the contest order and carrying the same keys as
/// `s2` is exactly `s2.sort_by(rank_order())`.
pub proof fn lemma_sorted_is_sort_by(s1: Seq<RankKey>, s2: Seq<RankKey>)
    requires
        sorted_by(s1, rank_order()),
        s1.to_multiset() == s2.to_multiset(),
    ensures
        s1 == s2.sort_by(rank_order()),
{
    lemma_rank_total_ordering();
    s2.lemma_sort_by_ensures(rank_order());
    lemma_sorted_unique(s1, s2.sort_by(rank_order()), rank_order());
}

} // verus!
