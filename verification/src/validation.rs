//! Request-level validation the service layer runs before anything
//! reaches the election engine: size limits, case-insensitive duplicate
//! detection, and the voting-window bounds.

use vstd::prelude::*;
use vstd::string::StringExecFns;
use crate::election::has_val;
use crate::models::CreateVoteRequest;

verus! {

/// Longest accepted title, in bytes.
pub const MAX_TITLE_LENGTH: usize = 100;

/// Longest accepted description, in bytes.
pub const MAX_DESCRIPTION_LENGTH: usize = 500;

/// Longest accepted candidate identifier, in bytes.
pub const MAX_OPTION_LENGTH: usize = 40;

/// Most candidates a vote may register.
pub const MAX_OPTIONS: usize = 20;

/// Fewest candidates a vote must register.
pub const MIN_OPTIONS: usize = 2;

/// Lowest valid score.
pub const MIN_SCORE: i8 = 0;

/// Highest valid score.
pub const MAX_SCORE: i8 = 5;

/// What request validation can reject.
#[derive(Debug)]
pub enum ValidationError {
    /// The title exceeds `MAX_TITLE_LENGTH` bytes.
    TitleTooLong,
    /// The description exceeds `MAX_DESCRIPTION_LENGTH` bytes.
    DescriptionTooLong,
    /// Some candidate identifier exceeds `MAX_OPTION_LENGTH` bytes.
    OptionTooLong,
    /// More than `MAX_OPTIONS` candidates.
    TooManyOptions,
    /// Fewer than `MIN_OPTIONS` candidates.
    TooFewOptions,
    /// The voting window exceeds 6 days, 23 hours, 59 minutes.
    DurationTooLong,
    /// The voting window is under one minute.
    DurationTooShort,
    /// A ballot entry carried an integer outside the score range.
    InvalidScore(i8),
    /// Two candidate identifiers coincide ignoring letter case.
    DuplicateOption(String),
    /// An empty candidate identifier.
    EmptyOption,
    /// A ballot that cannot be matched to the vote's candidates.
    InvalidBallot(String),
}

/// What `str::to_lowercase` returns for the given characters.
pub uninterp spec fn lower_of(s: Seq<char>) -> Seq<char>;

/// Relies on str::to_lowercase: the result depends on the input
/// characters alone (the Unicode lowercase mapping, no locale).
#[verifier::external_body]
fn lowercase(s: &str) -> (r: String)
    ensures
        r@ == lower_of(s@),
{
    s.to_lowercase()
}

/// The UTF-8 byte length of a string's characters, as `str::len`
/// reports it, which is what the size limits are measured in.
pub open spec fn byte_len(s: Seq<char>) -> int {
    (vstd::utf8::encode_utf8(s).len() as usize) as int
}

/// Identifiers at positions `i` and some other position coincide once
/// lowercased.
pub open spec fn ci_dup_at(options: Seq<Seq<char>>, i: int) -> bool {
    exists|j: int| 0 <= j < options.len() && j != i && lower_of(#[trigger] options[j]) == lower_of(options[i])
}

/// No two identifiers coincide once lowercased.
pub open spec fn no_ci_dups(options: Seq<Seq<char>>) -> bool {
    forall|i: int| 0 <= i < options.len() ==> !#[trigger] ci_dup_at(options, i)
}

/// Every identifier is non-empty.
pub open spec fn all_nonempty(options: Seq<Seq<char>>) -> bool {
    forall|i: int| 0 <= i < options.len() ==> (#[trigger] options[i]).len() != 0
}

/// Every identifier fits the per-option byte limit.
pub open spec fn all_within_length(options: Seq<Seq<char>>) -> bool {
    forall|i: int| 0 <= i < options.len() ==> byte_len(#[trigger] options[i]) <= MAX_OPTION_LENGTH as int
}

/// A window of zero length.
pub open spec fn duration_too_short(hours: int, minutes: int) -> bool {
    hours == 0 && minutes == 0
}

/// A window beyond 6 days, 23 hours, 59 minutes. Stated directly over
/// the hour count: 6 days and 23 hours are 167 hours.
pub open spec fn duration_too_long(hours: int, minutes: int) -> bool {
    hours >= 168 || (hours == 167 && minutes > 59)
}

/// The views of the request's candidate identifiers.
pub open spec fn option_views(options: Seq<String>) -> Seq<Seq<char>> {
    options.map_values(|o: String| o@)
}

/// Whether a request passes every check.
pub open spec fn request_acceptable(req: CreateVoteRequest) -> bool {
    &&& byte_len(req.title@) <= MAX_TITLE_LENGTH as int
    &&& byte_len(req.description@) <= MAX_DESCRIPTION_LENGTH as int
    &&& req.options@.len() <= MAX_OPTIONS as int
    &&& req.options@.len() >= MIN_OPTIONS as int
    &&& no_ci_dups(option_views(req.options@))
    &&& all_nonempty(option_views(req.options@))
    &&& all_within_length(option_views(req.options@))
    &&& !duration_too_short(req.duration_hours as int, req.duration_minutes as int)
    &&& !duration_too_long(req.duration_hours as int, req.duration_minutes as int)
}

/// Validate a request to open a vote. The checks run in a fixed order
/// and the first failing one names the error; a request passing all of
/// them is accepted.
#[verifier::loop_isolation(false)]
pub fn validate_vote_request(request: &CreateVoteRequest) -> (r: Result<(), ValidationError>)
    ensures
        r is Ok <==> request_acceptable(*request),
        r matches Err(e) ==> {
            let ovs = option_views(request.options@);
            let hours = request.duration_hours as int;
            let minutes = request.duration_minutes as int;
            ||| (e is TitleTooLong && byte_len(request.title@) > MAX_TITLE_LENGTH as int)
            ||| (e is DescriptionTooLong && byte_len(request.title@) <= MAX_TITLE_LENGTH as int
                && byte_len(request.description@) > MAX_DESCRIPTION_LENGTH as int)
            ||| (e is TooManyOptions && byte_len(request.title@) <= MAX_TITLE_LENGTH as int
                && byte_len(request.description@) <= MAX_DESCRIPTION_LENGTH as int && ovs.len()
                > MAX_OPTIONS as int)
            ||| (e is TooFewOptions && byte_len(request.title@) <= MAX_TITLE_LENGTH as int
                && byte_len(request.description@) <= MAX_DESCRIPTION_LENGTH as int && ovs.len()
                <= MAX_OPTIONS as int && ovs.len() < MIN_OPTIONS as int)
            ||| (e matches ValidationError::DuplicateOption(s) && byte_len(request.title@)
                <= MAX_TITLE_LENGTH as int && byte_len(request.description@)
                <= MAX_DESCRIPTION_LENGTH as int && MIN_OPTIONS as int <= ovs.len()
                <= MAX_OPTIONS as int && exists|i: int|
                {
                    &&& 0 <= i < ovs.len()
                    &&& #[trigger] ci_dup_at(ovs, i)
                    &&& forall|u: int| 0 <= u < i ==> !#[trigger] ci_dup_at(ovs, u)
                    &&& s@ == ovs[i]
                })
            ||| (e is EmptyOption && byte_len(request.title@) <= MAX_TITLE_LENGTH as int
                && byte_len(request.description@) <= MAX_DESCRIPTION_LENGTH as int
                && MIN_OPTIONS as int <= ovs.len() <= MAX_OPTIONS as int && no_ci_dups(ovs)
                && !all_nonempty(ovs))
            ||| (e is OptionTooLong && byte_len(request.title@) <= MAX_TITLE_LENGTH as int
                && byte_len(request.description@) <= MAX_DESCRIPTION_LENGTH as int
                && MIN_OPTIONS as int <= ovs.len() <= MAX_OPTIONS as int && no_ci_dups(ovs)
                && all_nonempty(ovs) && !all_within_length(ovs))
            ||| (e is DurationTooShort && byte_len(request.title@) <= MAX_TITLE_LENGTH as int
                && byte_len(request.description@) <= MAX_DESCRIPTION_LENGTH as int
                && MIN_OPTIONS as int <= ovs.len() <= MAX_OPTIONS as int && no_ci_dups(ovs)
                && all_nonempty(ovs) && all_within_length(ovs) && duration_too_short(
                hours,
                minutes,
            ))
            ||| (e is DurationTooLong && byte_len(request.title@) <= MAX_TITLE_LENGTH as int
                && byte_len(request.description@) <= MAX_DESCRIPTION_LENGTH as int
                && MIN_OPTIONS as int <= ovs.len() <= MAX_OPTIONS as int && no_ci_dups(ovs)
                && all_nonempty(ovs) && all_within_length(ovs) && !duration_too_short(
                hours,
                minutes,
            ) && duration_too_long(hours, minutes))
        },
{
    let ghost ovs = option_views(request.options@);
    if request.title.as_str().len() > MAX_TITLE_LENGTH {
        return Err(ValidationError::TitleTooLong);
    }
    if request.description.as_str().len() > MAX_DESCRIPTION_LENGTH {
        return Err(ValidationError::DescriptionTooLong);
    }
    let n = request.options.len();
    if n > MAX_OPTIONS {
        return Err(ValidationError::TooManyOptions);
    }
    if n < MIN_OPTIONS {
        return Err(ValidationError::TooFewOptions);
    }

    // Lowercase every identifier once, then look for the first one
    // whose lowercase form recurs anywhere else.
    let mut lows: Vec<String> = Vec::new();
    for i in 0..n
        invariant
            n == request.options@.len(),
            ovs == option_views(request.options@),
            lows@.len() == i,
            forall|u: int| 0 <= u < i ==> (#[trigger] lows@[u])@ == lower_of(ovs[u]),
    {
        lows.push(lowercase(request.options[i].as_str()));
    }
    for i in 0..n
        invariant
            n == request.options@.len(),
            ovs == option_views(request.options@),
            lows@.len() == n,
            forall|u: int| 0 <= u < n ==> (#[trigger] lows@[u])@ == lower_of(ovs[u]),
            forall|u: int| 0 <= u < i ==> !#[trigger] ci_dup_at(ovs, u),
    {
        let mut dup = false;
        for j in 0..n
            invariant
                n == request.options@.len(),
                ovs == option_views(request.options@),
                i < n,
                lows@.len() == n,
                forall|u: int| 0 <= u < n ==> (#[trigger] lows@[u])@ == lower_of(ovs[u]),
                dup ==> ci_dup_at(ovs, i as int),
                !dup ==> forall|w: int|
                    0 <= w < j && w != i ==> lower_of(#[trigger] ovs[w]) != lower_of(ovs[i as int]),
        {
            if j != i && lows[j] == lows[i] {
                dup = true;
            }
        }
        if dup {
            return Err(ValidationError::DuplicateOption(request.options[i].clone()));
        }
        proof {
            assert(!ci_dup_at(ovs, i as int));
        }
    }

    for i in 0..n
        invariant
            n == request.options@.len(),
            ovs == option_views(request.options@),
            forall|u: int| 0 <= u < i ==> (#[trigger] ovs[u]).len() != 0,
    {
        if request.options[i].as_str().is_empty() {
            proof {
                assert(ovs[i as int] == request.options@[i as int]@);
                assert(ovs[i as int].len() == 0);
                assert(!all_nonempty(ovs));
            }
            return Err(ValidationError::EmptyOption);
        }
    }
    for i in 0..n
        invariant
            n == request.options@.len(),
            ovs == option_views(request.options@),
            forall|u: int| 0 <= u < i ==> byte_len(#[trigger] ovs[u]) <= MAX_OPTION_LENGTH as int,
    {
        if request.options[i].as_str().len() > MAX_OPTION_LENGTH {
            proof {
                assert(ovs[i as int] == request.options@[i as int]@);
                assert(byte_len(ovs[i as int]) > MAX_OPTION_LENGTH as int);
                assert(!all_within_length(ovs));
            }
            return Err(ValidationError::OptionTooLong);
        }
    }

    if request.duration_hours == 0 && request.duration_minutes == 0 {
        return Err(ValidationError::DurationTooShort);
    }
    if request.duration_hours >= 168 || (request.duration_hours == 167
        && request.duration_minutes > 59) {
        return Err(ValidationError::DurationTooLong);
    }
    Ok(())
}

/// The key views of raw (identifier, score) pairs.
pub open spec fn key_views(s: Seq<(String, i8)>) -> Seq<Seq<char>> {
    s.map_values(|p: (String, i8)| p.0@)
}

/// Every raw score lies in the accepted range.
pub open spec fn all_scores_in_range(s: Seq<(String, i8)>) -> bool {
    forall|t: int| 0 <= t < s.len() ==> MIN_SCORE as int <= (#[trigger] s[t]).1 <= MAX_SCORE as int
}

/// Whether `key` occurs among `options`.
fn list_contains(options: &Vec<String>, key: &String) -> (r: bool)
    ensures
        r == has_val(option_views(options@), key@),
{
    let n = options.len();
    for i in 0..n
        invariant
            n == options@.len(),
            forall|u: int| 0 <= u < i ==> (#[trigger] options@[u])@ != key@,
    {
        if options[i] == *key {
            proof {
                assert(option_views(options@)[i as int] == key@);
            }
            return true;
        }
    }
    proof {
        assert forall|u: int| 0 <= u < option_views(options@).len()
            implies #[trigger] option_views(options@)[u] != key@ by {
            assert(options@[u]@ != key@);
        }
    }
    false
}

/// Validate a raw ballot against a vote's candidate list: every score
/// must lie in the accepted range, every scored identifier must be a
/// registered candidate, and every candidate must be scored. The
/// checks run in that order and the first failure names the error.
#[verifier::loop_isolation(false)]
pub fn validate_ballot(scores: &Vec<(String, i8)>, options: &Vec<String>) -> (r: Result<
    (),
    ValidationError,
>)
    ensures
        r is Ok <==> {
            &&& all_scores_in_range(scores@)
            &&& forall|t: int|
                0 <= t < scores@.len() ==> has_val(
                    option_views(options@),
                    (#[trigger] scores@[t]).0@,
                )
            &&& forall|i: int|
                0 <= i < options@.len() ==> has_val(
                    key_views(scores@),
                    (#[trigger] options@[i])@,
                )
        },
        r matches Err(e) ==> {
            ||| (e matches ValidationError::InvalidScore(v) && exists|t: int|
                {
                    &&& 0 <= t < scores@.len()
                    &&& (#[trigger] scores@[t]).1 == v
                    &&& !(MIN_SCORE as int <= v as int <= MAX_SCORE as int)
                    &&& forall|u: int|
                        0 <= u < t ==> MIN_SCORE as int <= (#[trigger] scores@[u]).1
                            <= MAX_SCORE as int
                })
            ||| (e matches ValidationError::InvalidBallot(msg) && all_scores_in_range(scores@)
                && exists|t: int|
                {
                    &&& 0 <= t < scores@.len()
                    &&& !has_val(option_views(options@), (#[trigger] scores@[t]).0@)
                    &&& forall|u: int|
                        0 <= u < t ==> has_val(option_views(options@), (#[trigger] scores@[u]).0@)
                    &&& msg@ == "Invalid option: "@ + scores@[t].0@
                })
            ||| (e matches ValidationError::InvalidBallot(msg) && all_scores_in_range(scores@)
                && (forall|t: int|
                    0 <= t < scores@.len() ==> has_val(
                        option_views(options@),
                        (#[trigger] scores@[t]).0@,
                    )) && exists|i: int|
                {
                    &&& 0 <= i < options@.len()
                    &&& !has_val(key_views(scores@), (#[trigger] options@[i])@)
                    &&& forall|u: int|
                        0 <= u < i ==> has_val(key_views(scores@), (#[trigger] options@[u])@)
                    &&& msg@ == "Missing score for option: "@ + options@[i]@
                })
        },
{
    let m = scores.len();
    for t in 0..m
        invariant
            forall|u: int|
                0 <= u < t ==> MIN_SCORE as int <= (#[trigger] scores@[u]).1 <= MAX_SCORE as int,
    {
        let v = scores[t].1;
        if v < MIN_SCORE || v > MAX_SCORE {
            return Err(ValidationError::InvalidScore(v));
        }
    }
    for t in 0..m
        invariant
            forall|u: int|
                0 <= u < t ==> has_val(option_views(options@), (#[trigger] scores@[u]).0@),
    {
        if !list_contains(options, &scores[t].0) {
            let mut msg = "Invalid option: ".to_owned();
            msg.append(scores[t].0.as_str());
            return Err(ValidationError::InvalidBallot(msg));
        }
    }
    let n = options.len();
    for i in 0..n
        invariant
            forall|u: int| 0 <= u < i ==> has_val(key_views(scores@), (#[trigger] options@[u])@),
    {
        let mut found = false;
        for t in 0..m
            invariant
                i < n,
                found ==> has_val(key_views(scores@), options@[i as int]@),
                !found ==> forall|u: int|
                    0 <= u < t ==> (#[trigger] scores@[u]).0@ != options@[i as int]@,
        {
            if scores[t].0 == options[i] {
                proof {
                    assert(key_views(scores@)[t as int] == scores@[t as int].0@);
                }
                found = true;
            }
        }
        if !found {
            proof {
                assert forall|u: int| 0 <= u < key_views(scores@).len()
                    implies #[trigger] key_views(scores@)[u] != options@[i as int]@ by {
                    assert(scores@[u].0@ != options@[i as int]@);
                }
                assert(!has_val(key_views(scores@), options@[i as int]@));
            }
            let mut msg = "Missing score for option: ".to_owned();
            msg.append(options[i].as_str());
            return Err(ValidationError::InvalidBallot(msg));
        }
    }
    Ok(())
}

} // verus!
