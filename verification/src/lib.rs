//! A weighted multisignature governance engine.
//!
//! A fixed roster of members, each with a positive voting weight, proposes
//! and votes on batches of opaque actions. A proposal whose accumulated "yes"
//! weight reaches the configured threshold may be executed exactly once; one
//! that expires without reaching it may be closed.
//!
//! [`state`] holds the records and the life cycle of a single proposal,
//! [`model`] says what each operation makes of a store, [`contract`] and
//! [`queries`] carry the operations out on a [`Store`], and [`laws`] proves
//! what holds of every store that they leave behind.

pub mod contract;
pub mod error;
pub mod expiration;
pub mod keys;
pub mod laws;
pub mod model;
pub mod msg;
pub mod queries;
pub mod query;
pub mod response;
pub mod roster;
pub mod state;
pub mod text;

pub use crate::error::{ContractError, StdError};
pub use crate::expiration::{BlockInfo, Duration, Expiration, Timestamp};
pub use crate::msg::{Cw3ExecuteMsg, ExecuteMsg, InstantiateMsg, QueryMsg, Vote, Voter};
pub use crate::query::{
    ProposalListResponse, ProposalResponse, QueryResponse, Status, ThresholdResponse, VoteInfo,
    VoteListResponse, VoteResponse, VoterDetail, VoterListResponse, VoterResponse,
};
pub use crate::response::{Attribute, Env, MessageInfo, Response};
pub use crate::state::{Config, Proposal, Store};
