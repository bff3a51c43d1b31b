//! The rate limiter's decision rules, as pure functions of the clock
//! reading and the per-key state. The surrounding layer owns the map,
//! the lock and the clock; it hands in the current time (in minutes)
//! and stores back the state these functions return.

use vstd::prelude::*;

verus! {

/// Attempts seen for one key: how many, and when the window opened
/// and was last touched. Times are minutes on the caller's clock.
#[derive(Debug, Clone, Copy, PartialEq, Eq, Structural)]
pub struct RateLimit {
    /// Attempts within the current window.
    pub attempts: u32,
    /// When the window opened.
    pub first_attempt: i64,
    /// The most recent attempt.
    pub last_attempt: i64,
}

/// What the limiter decides for one more attempt.
#[derive(Debug, Clone, Copy, PartialEq, Eq, Structural)]
pub enum RateDecision {
    /// The attempt passes; store this state for the key.
    Allowed(RateLimit),
    /// The attempt is rejected; the caller should wait this many
    /// minutes (at least one).
    Limited(i64),
}

/// Clock readings and windows stay far from the ends of the 64-bit
/// range, so the window arithmetic cannot overflow.
pub open spec fn clock_in_range(t: int) -> bool {
    -0x2000_0000_0000_0000 < t < 0x2000_0000_0000_0000
}

/// Decide one attempt for a key: within a full window the attempt is
/// rejected with the minutes left (never less than one); a window that
/// has lapsed starts over; otherwise the attempt is counted.
pub fn check_rate_limit_decision(
    entry: Option<&RateLimit>,
    now: i64,
    window: i64,
    max_attempts: u32,
) -> (r: RateDecision)
    requires
        clock_in_range(now as int),
        0 <= window,
        clock_in_range(window as int),
        entry matches Some(l) ==> clock_in_range(l.first_attempt as int),
    ensures
        match entry {
            None => r == RateDecision::Allowed(
                RateLimit { attempts: 1, first_attempt: now, last_attempt: now },
            ),
            Some(l) => {
                if now - l.first_attempt <= window && l.attempts >= max_attempts {
                    r matches RateDecision::Limited(w) && w as int == if l.first_attempt + window
                        - now >= 1 {
                        l.first_attempt + window - now
                    } else {
                        1int
                    }
                } else if now - l.first_attempt > window {
                    r == RateDecision::Allowed(
                        RateLimit { attempts: 1, first_attempt: now, last_attempt: now },
                    )
                } else {
                    r == RateDecision::Allowed(
                        RateLimit {
                            attempts: (l.attempts + 1) as u32,
                            first_attempt: l.first_attempt,
                            last_attempt: now,
                        },
                    )
                }
            },
        },
{
    match entry {
        None => RateDecision::Allowed(
            RateLimit { attempts: 1, first_attempt: now, last_attempt: now },
        ),
        Some(l) => {
            if now - l.first_attempt <= window && l.attempts >= max_attempts {
                let wait = l.first_attempt + window - now;
                RateDecision::Limited(if wait >= 1 {
                    wait
                } else {
                    1
                })
            } else if now - l.first_attempt > window {
                RateDecision::Allowed(
                    RateLimit { attempts: 1, first_attempt: now, last_attempt: now },
                )
            } else {
                RateDecision::Allowed(
                    RateLimit {
                        attempts: l.attempts + 1,
                        first_attempt: l.first_attempt,
                        last_attempt: now,
                    },
                )
            }
        }
    }
}

/// Whether a key's state is stale enough to drop: its window opened
/// more than two windows ago.
pub fn entry_expired(l: &RateLimit, now: i64, window: i64) -> (r: bool)
    requires
        clock_in_range(now as int),
        0 <= window,
        clock_in_range(window as int),
        clock_in_range(l.first_attempt as int),
    ensures
        r == (now - l.first_attempt > 2 * window),
{
    now - l.first_attempt > 2 * window
}

/// How many attempts a key has left and how long its window still
/// runs: within a window, whatever the cap leaves over; otherwise the
/// full cap with nothing to wait for.
pub fn remaining_attempts(
    entry: Option<&RateLimit>,
    now: i64,
    window: i64,
    max_attempts: u32,
) -> (r: (u32, i64))
    requires
        clock_in_range(now as int),
        0 <= window,
        clock_in_range(window as int),
        entry matches Some(l) ==> clock_in_range(l.first_attempt as int),
    ensures
        match entry {
            Some(l) => {
                if now - l.first_attempt <= window {
                    r.0 as int == (if l.attempts <= max_attempts {
                        max_attempts - l.attempts
                    } else {
                        0int
                    }) && r.1 as int == l.first_attempt + window - now
                } else {
                    r == (max_attempts, 0i64)
                }
            },
            None => r == (max_attempts, 0i64),
        },
{
    match entry {
        Some(l) => {
            if now - l.first_attempt <= window {
                let left = if l.attempts <= max_attempts {
                    max_attempts - l.attempts
                } else {
                    0
                };
                (left, l.first_attempt + window - now)
            } else {
                (max_attempts, 0)
            }
        }
        None => (max_attempts, 0),
    }
}

} // verus!
