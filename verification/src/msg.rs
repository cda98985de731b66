//! The messages that the multisig takes.

use vstd::prelude::*;

use crate::expiration::{Duration, Expiration};

verus! {

/// The mutating messages with every field of the interface, the ignored
/// `earliest` included.
#[derive(Clone, Debug, PartialEq)]
pub enum Cw3ExecuteMsg<T> {
    Propose {
        title: String,
        description: String,
        msgs: Vec<T>,
        earliest: Option<Expiration>,
        latest: Option<Expiration>,
    },
    Vote { proposal_id: u64, vote: Vote },
    Execute { proposal_id: u64 },
    Close { proposal_id: u64 },
}

/// What sets a multisig up: the roster, the weight that passes a proposal,
/// and the longest time a proposal may stay open.
#[derive(Clone, Debug, PartialEq)]
pub struct InstantiateMsg {
    pub voters: Vec<Voter>,
    pub threshold_weight: u64,
    pub max_voting_period: Duration,
}

/// A member of the roster.
#[derive(Clone, Debug, PartialEq)]
pub struct Voter {
    pub addr: String,
    pub weight: u64,
}

/// A member's choice on a proposal.
#[derive(Clone, Copy, Debug, PartialEq, Eq, Structural)]
pub enum Vote {
    /// Marks support for the proposal.
    Yes,
    /// Marks opposition to the proposal.
    No,
    /// Marks participation without support or opposition.
    Abstain,
    /// Treated as a No.
    Veto,
}

/// The mutating messages.
#[derive(Clone, Debug, PartialEq)]
pub enum ExecuteMsg<T> {
    Propose {
        title: String,
        description: String,
        msgs: Vec<T>,
        /// The proposal opens at once and closes here, or after the longest
        /// voting period where this is later or absent.
        latest: Option<Expiration>,
    },
    Vote { proposal_id: u64, vote: Vote },
    Execute { proposal_id: u64 },
    Close { proposal_id: u64 },
}

/// The queries.
#[derive(Clone, Debug, PartialEq)]
#[allow(inconsistent_fields)]
pub enum QueryMsg {
    /// Answered with a `ThresholdResponse`.
    Threshold {},
    /// Answered with a `ProposalResponse`.
    Proposal { proposal_id: u64 },
    /// Answered with a `ProposalListResponse`, ids ascending.
    ListProposals { start_after: Option<u64>, limit: Option<u32> },
    /// Answered with a `ProposalListResponse`, ids descending.
    ReverseProposals { start_before: Option<u64>, limit: Option<u32> },
    /// Answered with a `VoteResponse`.
    Vote { proposal_id: u64, voter: String },
    /// Answered with a `VoteListResponse`.
    ListVotes { proposal_id: u64, start_after: Option<String>, limit: Option<u32> },
    /// Answered with a `VoterResponse`.
    Voter { address: String },
    /// Answered with a `VoterListResponse`.
    ListVoters { start_after: Option<String>, limit: Option<u32> },
}

impl View for Voter {
    type V = (Seq<char>, u64);

    open spec fn view(&self) -> (Seq<char>, u64) {
        (self.addr@, self.weight)
    }
}

} // verus!
