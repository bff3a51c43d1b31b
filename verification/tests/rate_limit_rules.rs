use star_vote::{
    check_rate_limit_decision, entry_expired, remaining_attempts, CaptchaVerifier, RateDecision,
    RateLimit,
};

#[test]
fn first_attempt_opens_a_window() {
    let d = check_rate_limit_decision(None, 1000, 15, 5);
    assert_eq!(
        d,
        RateDecision::Allowed(RateLimit { attempts: 1, first_attempt: 1000, last_attempt: 1000 })
    );
}

#[test]
fn attempts_accumulate_within_the_window() {
    let l = RateLimit { attempts: 2, first_attempt: 1000, last_attempt: 1003 };
    let d = check_rate_limit_decision(Some(&l), 1005, 15, 5);
    assert_eq!(
        d,
        RateDecision::Allowed(RateLimit { attempts: 3, first_attempt: 1000, last_attempt: 1005 })
    );
}

#[test]
fn full_window_rejects_with_wait_time() {
    let l = RateLimit { attempts: 5, first_attempt: 1000, last_attempt: 1004 };
    let d = check_rate_limit_decision(Some(&l), 1005, 15, 5);
    assert_eq!(d, RateDecision::Limited(10));
    // At the very end of the window the wait never drops below a minute.
    let d = check_rate_limit_decision(Some(&l), 1015, 15, 5);
    assert_eq!(d, RateDecision::Limited(1));
}

#[test]
fn lapsed_window_starts_over() {
    let l = RateLimit { attempts: 5, first_attempt: 1000, last_attempt: 1004 };
    let d = check_rate_limit_decision(Some(&l), 1016, 15, 5);
    assert_eq!(
        d,
        RateDecision::Allowed(RateLimit { attempts: 1, first_attempt: 1016, last_attempt: 1016 })
    );
}

#[test]
fn stale_entries_expire_after_two_windows() {
    let l = RateLimit { attempts: 1, first_attempt: 1000, last_attempt: 1000 };
    assert!(!entry_expired(&l, 1030, 15));
    assert!(entry_expired(&l, 1031, 15));
}

#[test]
fn remaining_attempts_report_window_state() {
    let l = RateLimit { attempts: 2, first_attempt: 1000, last_attempt: 1001 };
    assert_eq!(remaining_attempts(Some(&l), 1005, 15, 5), (3, 10));
    assert_eq!(remaining_attempts(Some(&l), 1020, 15, 5), (5, 0));
    assert_eq!(remaining_attempts(None, 1005, 15, 5), (5, 0));
}

#[test]
fn blank_captcha_secret_disables_verification() {
    assert!(CaptchaVerifier::new().secret().is_none());
    assert!(CaptchaVerifier::new_with_secret("   ".to_string()).secret().is_none());
    let v = CaptchaVerifier::new_with_secret(" some-shared-key ".to_string());
    assert_eq!(v.secret().as_deref(), Some(" some-shared-key "));
}
