//! The answers to queries.

use vstd::prelude::*;

use crate::expiration::Expiration;
use crate::msg::Vote;

verus! {

/// Where a proposal stands in its life.
#[derive(Clone, Copy, Debug, PartialEq, Eq, Structural)]
pub enum Status {
    /// Voting is going on.
    Open,
    /// The threshold was reached; the proposal waits to be executed.
    Passed,
    /// The actions were handed out. Final.
    Executed,
    /// The voting period ended below the threshold. Final.
    Rejected,
}

impl Status {
    /// The name of the status as it is shown in attributes.
    pub open spec fn name(self) -> Seq<char> {
        match self {
            Status::Open => "Open"@,
            Status::Passed => "Passed"@,
            Status::Executed => "Executed"@,
            Status::Rejected => "Rejected"@,
        }
    }

    /// The name of the status as it is shown in attributes, as a string.
    pub fn label(&self) -> (s: String)
        ensures
            s@ == self.name(),
    {
        match self {
            Status::Open => "Open".to_string(),
            Status::Passed => "Passed".to_string(),
            Status::Executed => "Executed".to_string(),
            Status::Rejected => "Rejected".to_string(),
        }
    }

    /// Whether a proposal in this status may, in one step, be found in
    /// `next`: it stays, or goes from open to passed or rejected, or from
    /// passed to executed.
    pub open spec fn may_become(self, next: Status) -> bool {
        ||| self == next
        ||| self == Status::Open && (next == Status::Passed || next == Status::Rejected)
        ||| self == Status::Passed && next == Status::Executed
    }

    /// Whether nothing can change this status any more.
    pub open spec fn is_final(self) -> bool {
        self == Status::Executed || self == Status::Rejected
    }
}

/// The rule by which proposals pass.
#[derive(Clone, Copy, Debug, PartialEq, Eq, Structural)]
pub enum ThresholdResponse {
    /// A proposal passes once `weight` of the roster's `total_weight` has
    /// said yes.
    AbsoluteCount { weight: u64, total_weight: u64 },
}

/// A proposal as a query shows it.
#[derive(Clone, Debug, PartialEq)]
pub struct ProposalResponse<T> {
    pub id: u64,
    pub title: String,
    pub description: String,
    pub msgs: Vec<T>,
    /// The status as of the block of the query.
    pub status: Status,
    pub expires: Expiration,
    pub threshold: ThresholdResponse,
}

/// A page of proposals.
#[derive(Clone, Debug, PartialEq)]
pub struct ProposalListResponse<T> {
    pub proposals: Vec<ProposalResponse<T>>,
}

/// One recorded vote.
#[derive(Clone, Debug, PartialEq)]
pub struct VoteInfo {
    pub voter: String,
    pub vote: Vote,
    pub weight: u64,
}

/// The recorded vote of one voter on one proposal, if there is one.
#[derive(Clone, Debug, PartialEq)]
pub struct VoteResponse {
    pub vote: Option<VoteInfo>,
}

/// A page of recorded votes.
#[derive(Clone, Debug, PartialEq)]
pub struct VoteListResponse {
    pub votes: Vec<VoteInfo>,
}

/// A member and its weight.
#[derive(Clone, Debug, PartialEq)]
pub struct VoterDetail {
    pub addr: String,
    pub weight: u64,
}

/// The weight of a member; nothing for anybody else.
#[derive(Clone, Debug, PartialEq)]
pub struct VoterResponse {
    pub weight: Option<u64>,
}

/// A page of members.
#[derive(Clone, Debug, PartialEq)]
pub struct VoterListResponse {
    pub voters: Vec<VoterDetail>,
}

/// The answer to a query, by the kind of the query.
#[derive(Clone, Debug, PartialEq)]
pub enum QueryResponse<T> {
    Threshold(ThresholdResponse),
    Proposal(ProposalResponse<T>),
    ProposalList(ProposalListResponse<T>),
    Vote(VoteResponse),
    VoteList(VoteListResponse),
    Voter(VoterResponse),
    VoterList(VoterListResponse),
}

impl View for VoteInfo {
    type V = (Seq<char>, Vote, u64);

    open spec fn view(&self) -> (Seq<char>, Vote, u64) {
        (self.voter@, self.vote, self.weight)
    }
}

impl View for VoterDetail {
    type V = (Seq<char>, u64);

    open spec fn view(&self) -> (Seq<char>, u64) {
        (self.addr@, self.weight)
    }
}

} // verus!
