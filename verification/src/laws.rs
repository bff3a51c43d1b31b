//! The engine's global laws, stated and proved once: the metrics
//! invariant, and the determinism of winner determination.

use vstd::prelude::*;
use crate::election::Election;
use crate::metrics::{count_with_score, lemma_tally_decomposition, scored_count};
use crate::outcome::{result_matches, spec_outcome, Outcome, RunoffResult};
use crate::score::VotingError;

verus! {

/// Metrics invariant: after any sequence of successful casts, every
/// candidate's running total equals the value-weighted sum of its
/// frequency buckets, and the buckets sum to the number of ballots
/// that scored the candidate.
pub proof fn lemma_metrics_invariant(e: Election, i: int)
    requires
        e.wf(),
        0 <= i < e.option_values().len(),
    ensures
        e.metrics_at(i).spec_total() == 1 * e.metrics_at(i).count_of(1) + 2 * e.metrics_at(
            i,
        ).count_of(2) + 3 * e.metrics_at(i).count_of(3) + 4 * e.metrics_at(i).count_of(4) + 5
            * e.metrics_at(i).count_of(5),
        e.metrics_at(i).count_of(0) + e.metrics_at(i).count_of(1) + e.metrics_at(i).count_of(2)
            + e.metrics_at(i).count_of(3) + e.metrics_at(i).count_of(4) + e.metrics_at(i).count_of(
            5,
        ) == scored_count(e.ballot_models(), e.option_values()[i]),
{
    let bm = e.ballot_models();
    let k = e.option_values()[i];
    let m = e.metrics_at(i);
    e.lemma_wf_metrics(i);
    e.lemma_models_bounded();
    lemma_tally_decomposition(bm, k);
    assert(m.count_of(0) == count_with_score(bm, k, 0));
    assert(m.count_of(1) == count_with_score(bm, k, 1));
    assert(m.count_of(2) == count_with_score(bm, k, 2));
    assert(m.count_of(3) == count_with_score(bm, k, 3));
    assert(m.count_of(4) == count_with_score(bm, k, 4));
    assert(m.count_of(5) == count_with_score(bm, k, 5));
}

/// Determinism: two elections built from the same registration order
/// and the same ballot sequence yield the same result, including error
/// outcomes; in particular (taking `e1 == e2`), calling winner
/// determination twice with no intervening mutation returns identical
/// results.
pub proof fn lemma_winner_deterministic(
    e1: Election,
    e2: Election,
    r1: Result<RunoffResult, VotingError>,
    r2: Result<RunoffResult, VotingError>,
)
    requires
        e1.option_values() == e2.option_values(),
        e1.ballot_models() == e2.ballot_models(),
        result_matches(r1, spec_outcome(e1.option_values(), e1.ballot_models())),
        result_matches(r2, spec_outcome(e2.option_values(), e2.ballot_models())),
    ensures
        r1 is Ok <==> r2 is Ok,
        r1 matches Ok(a) ==> r2 matches Ok(b) && a@ == b@,
        r1 matches Err(ea) ==> r2 matches Err(eb) && (ea is InsufficientOptions
            <==> eb is InsufficientOptions) && (ea is FirstPlaceTie <==> eb is FirstPlaceTie) && (
        ea is SecondPlaceTie <==> eb is SecondPlaceTie),
{
    let o = spec_outcome(e1.option_values(), e1.ballot_models());
    match o {
        Outcome::Decided(_) => {}
        Outcome::Insufficient => {}
        Outcome::FirstTie => {}
        Outcome::SecondTie => {}
    }
}

} // verus!
