use star_vote::{Ballot, Election, Score, VotingError};

fn ballot_of(scores: &[(&str, i8)]) -> Ballot {
    Ballot::new(scores.iter().map(|(k, v)| (k.to_string(), *v)).collect()).unwrap()
}

fn election_of(options: &[&str]) -> Election {
    let mut e = Election::new();
    for opt in options {
        e.add_option(opt.to_string()).unwrap();
    }
    e
}

#[test]
fn score_values_round_trip() {
    for v in 0..=5i8 {
        let s = Score::try_from(v).unwrap();
        assert_eq!(s.as_i8(), v);
    }
    for v in [-128, -1, 6, 7, 127] {
        assert!(matches!(Score::try_from(v), Err(e) if e == v));
    }
}

#[test]
fn invalid_ballot_leaves_election_untouched() {
    // A ballot holding any invalid score is rejected in full: no ballot
    // value exists to cast, so nothing in the election can change.
    let e = election_of(&["A", "B"]);
    assert!(Ballot::new(vec![("A".to_string(), 3), ("B".to_string(), 9)]).is_err());
    assert_eq!(e.ballot_count(), 0);
    let stats = e.statistics();
    assert_eq!(stats[0].metrics.total(), 0);
    assert_eq!(stats[1].metrics.total(), 0);
}

#[test]
fn unknown_candidate_leaves_election_untouched() {
    // The offending entry comes after a valid one, so a partial
    // application would have bumped A's metrics before failing on C.
    let mut e = election_of(&["A", "B"]);
    let b = ballot_of(&[("A", 5), ("C", 1)]);
    let r = e.cast_ballot(b);
    assert!(matches!(r, Err(VotingError::InvalidOption(_))));
    assert_eq!(e.ballot_count(), 0);
    let stats = e.statistics();
    for s in &stats {
        assert_eq!(s.metrics.total(), 0);
        assert_eq!(s.scored_ballots, 0);
    }
}

#[test]
fn metrics_match_cast_history() {
    let mut e = election_of(&["A", "B"]);
    e.cast_ballot(ballot_of(&[("A", 4), ("B", 5)])).unwrap();
    e.cast_ballot(ballot_of(&[("A", 5)])).unwrap();
    e.cast_ballot(ballot_of(&[("A", 4), ("B", 0)])).unwrap();
    let stats = e.statistics();

    assert_eq!(stats[0].value, "A");
    assert_eq!(stats[0].metrics.total(), 13);
    assert_eq!(stats[0].metrics.count(Score::Four), 2);
    assert_eq!(stats[0].metrics.count(Score::Five), 1);
    assert_eq!(stats[0].scored_ballots, 3);
    // total == sum of value * frequency
    let a = &stats[0].metrics;
    let weighted: i64 = (1..=5i8)
        .map(|v| v as i64 * a.count(Score::try_from(v).unwrap()) as i64)
        .sum();
    assert_eq!(a.total() as i64, weighted);

    assert_eq!(stats[1].value, "B");
    assert_eq!(stats[1].metrics.total(), 5);
    assert_eq!(stats[1].metrics.count(Score::Zero), 1);
    assert_eq!(stats[1].metrics.count(Score::Five), 1);
    assert_eq!(stats[1].scored_ballots, 2);
}

#[test]
fn winner_determination_is_idempotent() {
    let mut e = election_of(&["A", "B", "C"]);
    e.cast_ballot(ballot_of(&[("A", 5), ("B", 4), ("C", 1)])).unwrap();
    e.cast_ballot(ballot_of(&[("A", 2), ("B", 4), ("C", 3)])).unwrap();
    let r1 = e.determine_winner().unwrap();
    let r2 = e.determine_winner().unwrap();
    assert_eq!(r1.winner, r2.winner);
    assert_eq!(r1.finalist1, r2.finalist1);
    assert_eq!(r1.finalist2, r2.finalist2);
    assert_eq!(r1.head_to_head, r2.head_to_head);
}

#[test]
fn same_inputs_same_outcome() {
    let build = || {
        let mut e = election_of(&["A", "B", "C"]);
        e.cast_ballot(ballot_of(&[("A", 5), ("B", 5), ("C", 0)])).unwrap();
        e.cast_ballot(ballot_of(&[("A", 3), ("B", 4), ("C", 2)])).unwrap();
        e
    };
    let r1 = build().determine_winner().unwrap();
    let r2 = build().determine_winner().unwrap();
    assert_eq!(r1.winner, r2.winner);
    assert_eq!(r1.head_to_head, r2.head_to_head);

    let mut tied = election_of(&["A", "B"]);
    tied.cast_ballot(ballot_of(&[("A", 5), ("B", 5)])).unwrap();
    let mut tied2 = election_of(&["A", "B"]);
    tied2.cast_ballot(ballot_of(&[("A", 5), ("B", 5)])).unwrap();
    assert!(matches!(tied.determine_winner(), Err(VotingError::FirstPlaceTie)));
    assert!(matches!(tied2.determine_winner(), Err(VotingError::FirstPlaceTie)));
}

#[test]
fn four_identical_max_ballots_tie() {
    let mut e = election_of(&["A", "B", "C", "D"]);
    for _ in 0..4 {
        e.cast_ballot(ballot_of(&[("A", 5), ("B", 5), ("C", 5), ("D", 5)])).unwrap();
    }
    assert!(matches!(e.determine_winner(), Err(VotingError::FirstPlaceTie)));
}

#[test]
fn insufficient_options_despite_ballots() {
    let mut e = Election::new();
    e.add_option("A".to_string()).unwrap();
    e.cast_ballot(ballot_of(&[("A", 5)])).unwrap();
    assert!(matches!(e.determine_winner(), Err(VotingError::InsufficientOptions)));
}

#[test]
fn missing_score_excluded_from_head_to_head_but_counted_in_stats() {
    let mut e = election_of(&["A", "B"]);
    e.cast_ballot(ballot_of(&[("A", 5), ("B", 4)])).unwrap();
    // This voter rated only B; the ballot cannot enter the A/B recount.
    e.cast_ballot(ballot_of(&[("B", 5)])).unwrap();
    let r = e.determine_winner().unwrap();
    // Totals rank B (9) over A (5); the only comparable ballot prefers A.
    assert_eq!(r.finalist1, "B");
    assert_eq!(r.finalist2, "A");
    assert_eq!(r.head_to_head, (0, 1));
    assert_eq!(r.winner, "A");
    // The one-sided ballot still counts in B's statistics.
    let stats = e.statistics();
    assert_eq!(stats[0].value, "A");
    assert_eq!(stats[0].scored_ballots, 1);
    assert_eq!(stats[1].value, "B");
    assert_eq!(stats[1].scored_ballots, 2);
    assert_eq!(stats[1].metrics.total(), 9);
}

#[test]
fn second_place_tie_resolved_when_leader_dominates() {
    // B and C end perfectly tied for second; A beats both head-to-head,
    // so the runoff composition is immaterial and A advances with B.
    let mut e = election_of(&["A", "B", "C"]);
    e.cast_ballot(ballot_of(&[("A", 5), ("B", 3), ("C", 3)])).unwrap();
    e.cast_ballot(ballot_of(&[("A", 4), ("B", 3), ("C", 3)])).unwrap();
    let r = e.determine_winner().unwrap();
    assert_eq!(r.winner, "A");
    assert_eq!(r.finalist1, "A");
    assert_eq!(r.finalist2, "B");
}

#[test]
fn second_place_tie_unresolvable_without_dominance() {
    // B and C are perfectly tied for second and the leader A does not
    // strictly beat them head-to-head, so no runoff can be composed.
    let mut e = election_of(&["A", "B", "C"]);
    e.cast_ballot(ballot_of(&[("A", 2), ("B", 3), ("C", 3)])).unwrap();
    e.cast_ballot(ballot_of(&[("A", 5), ("B", 3), ("C", 3)])).unwrap();
    e.cast_ballot(ballot_of(&[("A", 0), ("B", 0), ("C", 0)])).unwrap();
    let r = e.determine_winner();
    match r {
        Err(VotingError::SecondPlaceTie) => {}
        other => panic!("expected a second-place tie, got {:?}", other),
    }
}

#[test]
fn auxiliary_matchups_report_remaining_ranks() {
    let mut e = election_of(&["A", "B", "C"]);
    e.cast_ballot(ballot_of(&[("A", 5), ("B", 4), ("C", 0)])).unwrap();
    e.cast_ballot(ballot_of(&[("A", 4), ("B", 3), ("C", 0)])).unwrap();
    e.cast_ballot(ballot_of(&[("A", 4), ("B", 3), ("C", 0)])).unwrap();
    e.cast_ballot(ballot_of(&[("A", 3), ("B", 2), ("C", 0)])).unwrap();
    let aux = e.auxiliary_matchups().unwrap();
    assert_eq!(aux.len(), 1);
    assert_eq!(aux[0].candidate1, "A");
    assert_eq!(aux[0].candidate2, "C");
    assert_eq!(aux[0].votes1, 4);
    assert_eq!(aux[0].votes2, 0);
}

#[test]
fn auxiliary_matchups_fail_like_the_main_result() {
    let mut e = Election::new();
    e.add_option("A".to_string()).unwrap();
    assert!(matches!(e.auxiliary_matchups(), Err(VotingError::InsufficientOptions)));
}

#[test]
fn breadth_of_support_breaks_equal_totals() {
    // Totals are equal but the distributions differ: A has broader
    // support (two non-zero scores to B's one), so A leads without a
    // first-place tie being declared.
    let mut e = election_of(&["A", "B"]);
    e.cast_ballot(ballot_of(&[("A", 2), ("B", 4)])).unwrap();
    e.cast_ballot(ballot_of(&[("A", 2), ("B", 0)])).unwrap();
    let r = e.determine_winner().unwrap();
    assert_eq!(r.finalist1, "A");
}
