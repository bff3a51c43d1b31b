//! Plain data carried between the engine and the surrounding service
//! layer. Serialization of these structures for transport or storage is
//! the outer layer's concern.

use vstd::prelude::*;

verus! {

/// The lifecycle state of a vote as the storage layer tracks it.
#[derive(Debug, Clone, PartialEq, Eq, Structural)]
pub enum VoteState {
    /// Open for ballots.
    Active,
    /// Ended; results computed.
    Concluded,
    /// Scheduled for removal.
    PendingDeletion,
}

/// A request to open a new vote.
#[derive(Debug, Clone)]
pub struct CreateVoteRequest {
    /// The anti-forgery token the service layer checks.
    pub csrf_token: String,
    /// The CAPTCHA token the service layer verifies.
    pub captcha_token: String,
    /// The vote's title.
    pub title: String,
    /// The vote's description.
    pub description: String,
    /// The candidate identifiers to register.
    pub options: Vec<String>,
    /// Voting window, hours part.
    pub duration_hours: i32,
    /// Voting window, minutes part.
    pub duration_minutes: i32,
    /// The submitting user's fingerprint.
    pub user_fingerprint: String,
}

/// The head-to-head summary a result response reports.
#[derive(Debug, Clone)]
pub struct HeadToHeadResult {
    /// The top-ranked finalist.
    pub finalist1: String,
    /// The second finalist.
    pub finalist2: String,
    /// Ballots preferring `finalist1`.
    pub finalist1_votes: u32,
    /// Ballots preferring `finalist2`.
    pub finalist2_votes: u32,
}

} // verus!
