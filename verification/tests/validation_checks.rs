use star_vote::{validate_ballot, validate_vote_request, CreateVoteRequest, ValidationError};

fn request(options: &[&str], hours: i32, minutes: i32) -> CreateVoteRequest {
    CreateVoteRequest {
        csrf_token: String::new(),
        captcha_token: String::new(),
        title: "Lunch spot".to_string(),
        description: "Where to go".to_string(),
        options: options.iter().map(|o| o.to_string()).collect(),
        duration_hours: hours,
        duration_minutes: minutes,
        user_fingerprint: String::new(),
    }
}

#[test]
fn acceptable_request_passes() {
    assert!(validate_vote_request(&request(&["Sushi", "Tacos"], 1, 30)).is_ok());
}

#[test]
fn title_too_long_rejected() {
    let mut r = request(&["A", "B"], 1, 0);
    r.title = "x".repeat(101);
    assert!(matches!(validate_vote_request(&r), Err(ValidationError::TitleTooLong)));
    r.title = "x".repeat(100);
    assert!(validate_vote_request(&r).is_ok());
}

#[test]
fn description_too_long_rejected() {
    let mut r = request(&["A", "B"], 1, 0);
    r.description = "y".repeat(501);
    assert!(matches!(validate_vote_request(&r), Err(ValidationError::DescriptionTooLong)));
}

#[test]
fn option_count_limits_enforced() {
    let many: Vec<String> = (0..21).map(|i| format!("opt{}", i)).collect();
    let mut r = request(&[], 1, 0);
    r.options = many;
    assert!(matches!(validate_vote_request(&r), Err(ValidationError::TooManyOptions)));
    let r = request(&["only"], 1, 0);
    assert!(matches!(validate_vote_request(&r), Err(ValidationError::TooFewOptions)));
}

#[test]
fn case_insensitive_duplicates_rejected() {
    let r = request(&["Alpha", "Beta", "ALPHA"], 1, 0);
    match validate_vote_request(&r) {
        Err(ValidationError::DuplicateOption(s)) => assert_eq!(s, "Alpha"),
        other => panic!("expected a duplicate-option error, got {:?}", other),
    }
}

#[test]
fn empty_and_oversized_options_rejected() {
    let r = request(&["A", ""], 1, 0);
    assert!(matches!(validate_vote_request(&r), Err(ValidationError::EmptyOption)));
    let long = "z".repeat(41);
    let r = request(&["A", long.as_str()], 1, 0);
    assert!(matches!(validate_vote_request(&r), Err(ValidationError::OptionTooLong)));
}

#[test]
fn duration_limits_enforced() {
    assert!(matches!(
        validate_vote_request(&request(&["A", "B"], 0, 0)),
        Err(ValidationError::DurationTooShort)
    ));
    assert!(matches!(
        validate_vote_request(&request(&["A", "B"], 168, 0)),
        Err(ValidationError::DurationTooLong)
    ));
    assert!(matches!(
        validate_vote_request(&request(&["A", "B"], 167, 60)),
        Err(ValidationError::DurationTooLong)
    ));
    assert!(validate_vote_request(&request(&["A", "B"], 167, 59)).is_ok());
}

fn raw_scores(pairs: &[(&str, i8)]) -> Vec<(String, i8)> {
    pairs.iter().map(|(k, v)| (k.to_string(), *v)).collect()
}

fn names(list: &[&str]) -> Vec<String> {
    list.iter().map(|s| s.to_string()).collect()
}

#[test]
fn ballot_with_valid_scores_passes() {
    let scores = raw_scores(&[("A", 0), ("B", 5)]);
    assert!(validate_ballot(&scores, &names(&["A", "B"])).is_ok());
}

#[test]
fn ballot_score_out_of_range_rejected() {
    let scores = raw_scores(&[("A", 0), ("B", 6)]);
    assert!(matches!(
        validate_ballot(&scores, &names(&["A", "B"])),
        Err(ValidationError::InvalidScore(6))
    ));
    let scores = raw_scores(&[("A", -2)]);
    assert!(matches!(
        validate_ballot(&scores, &names(&["A"])),
        Err(ValidationError::InvalidScore(-2))
    ));
}

#[test]
fn ballot_with_unknown_option_rejected() {
    let scores = raw_scores(&[("A", 3), ("C", 2)]);
    match validate_ballot(&scores, &names(&["A", "B"])) {
        Err(ValidationError::InvalidBallot(msg)) => {
            assert_eq!(msg, "Invalid option: C");
        }
        other => panic!("expected an invalid-ballot error, got {:?}", other),
    }
}

#[test]
fn ballot_missing_an_option_rejected() {
    let scores = raw_scores(&[("A", 3)]);
    match validate_ballot(&scores, &names(&["A", "B"])) {
        Err(ValidationError::InvalidBallot(msg)) => {
            assert_eq!(msg, "Missing score for option: B");
        }
        other => panic!("expected an invalid-ballot error, got {:?}", other),
    }
}
