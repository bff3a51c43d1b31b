//! A Score-Then-Automatic-Runoff (STAR) election engine.
//!
//! Voters rate every candidate on a bounded integer scale; the two
//! highest-scoring candidates become finalists, and a pairwise recount of
//! the ballots between the finalists decides the winner, with a cascade of
//! deterministic tie-break rules when totals collide.

mod ballot;
mod captcha;
mod config;
mod election;
mod error;
mod fingerprint;
mod laws;
mod metrics;
mod models;
mod moderation;
mod outcome;
mod ranking;
mod rate_limit;
mod score;
mod styles;
mod validation;

pub use ballot::Ballot;
pub use captcha::CaptchaVerifier;
pub use config::Config;
pub use election::CandidateStats;
pub use election::Election;
pub use election::VotingOption;
pub use election::MAX_BALLOTS;
pub use error::Error;
pub use error::ErrorCode;
pub use error::ErrorResponse;
pub use fingerprint::generate_browser_fingerprint;
pub use fingerprint::generate_server_fingerprint;
pub use metrics::ScoreMetrics;
pub use models::CreateVoteRequest;
pub use models::HeadToHeadResult;
pub use models::VoteState;
pub use moderation::check_combined_options_for_profanity;
pub use outcome::HeadToHeadMatchup;
pub use outcome::RunoffResult;
pub use rate_limit::check_rate_limit_decision;
pub use rate_limit::entry_expired;
pub use rate_limit::remaining_attempts;
pub use rate_limit::RateDecision;
pub use rate_limit::RateLimit;
pub use score::Score;
pub use score::VotingError;
pub use styles::alert_style;
pub use styles::button_primary;
pub use styles::combine_classes;
pub use validation::validate_ballot;
pub use validation::validate_vote_request;
pub use validation::ValidationError;
