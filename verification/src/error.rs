//! What the operations fail with.

use vstd::prelude::*;

verus! {

/// Failures of the store and of machine arithmetic. They end the whole
/// operation and are not meant to be handled one by one.
#[derive(Clone, Copy, Debug, PartialEq, Eq, Structural)]
pub enum StdError {
    /// A record that the operation needs is not in the store.
    NotFound {},
    /// A stored key does not hold the eight bytes of a proposal id.
    CorruptedKey {},
    /// A sum does not fit in 64 bits.
    Overflow {},
}

/// Everything an operation of the multisig can fail with.
#[derive(Clone, Copy, Debug, PartialEq, Eq, Structural)]
pub enum ContractError {
    Std(StdError),
    /// The threshold weight is zero.
    ZeroWeight {},
    /// The roster's weights sum to less than the threshold.
    UnreachableWeight {},
    /// The roster is empty.
    NoVoters {},
    /// A member of the roster has weight zero.
    VoterZeroWeight {},
    /// The caller is not a member.
    Unauthorized {},
    /// The proposal is no longer open for voting.
    NotOpen {},
    /// The proposal's voting period is over.
    Expired {},
    /// The proposal's voting period is not over yet.
    NotExpired {},
    /// The requested expiration is of another kind than the voting period.
    WrongExpiration {},
    /// The caller's "yes" is already recorded on the proposal.
    AlreadyVoted {},
    /// Only a passed proposal that was not executed yet can be executed.
    WrongExecuteStatus {},
    /// A passed, executed or rejected proposal cannot be closed.
    WrongCloseStatus {},
}

impl StdError {
    /// The text that describes this failure.
    pub open spec fn text(self) -> Seq<char> {
        match self {
            StdError::NotFound {} => "record not found"@,
            StdError::CorruptedKey {} => "Corrupted data found. 8 byte expected."@,
            StdError::Overflow {} => "arithmetic overflow"@,
        }
    }

    /// The text that describes this failure, as a string.
    pub fn message(&self) -> (s: String)
        ensures
            s@ == self.text(),
    {
        match self {
            StdError::NotFound {} => "record not found".to_string(),
            StdError::CorruptedKey {} => "Corrupted data found. 8 byte expected.".to_string(),
            StdError::Overflow {} => "arithmetic overflow".to_string(),
        }
    }
}

impl ContractError {
    /// The text that describes this failure.
    pub open spec fn text(self) -> Seq<char> {
        match self {
            ContractError::Std(e) => e.text(),
            ContractError::ZeroWeight {} => "Required weight cannot be zero"@,
            ContractError::UnreachableWeight {} => {
                "Not possible to reach required (passing) weight"@
            },
            ContractError::NoVoters {} => "No voters"@,
            ContractError::VoterZeroWeight {} => "Voters cannot have zero weight"@,
            ContractError::Unauthorized {} => "Unauthorized"@,
            ContractError::NotOpen {} => "Proposal is not open"@,
            ContractError::Expired {} => "Proposal voting period has expired"@,
            ContractError::NotExpired {} => "Proposal must expire before you can close it"@,
            ContractError::WrongExpiration {} => "Wrong expiration option"@,
            ContractError::AlreadyVoted {} => "Already voted on this proposal"@,
            ContractError::WrongExecuteStatus {} => {
                "Proposal must have passed and not yet been executed"@
            },
            ContractError::WrongCloseStatus {} => "Cannot close completed or passed proposals"@,
        }
    }

    /// The text that describes this failure, as a string.
    pub fn message(&self) -> (s: String)
        ensures
            s@ == self.text(),
    {
        match self {
            ContractError::Std(e) => e.message(),
            ContractError::ZeroWeight {} => "Required weight cannot be zero".to_string(),
            ContractError::UnreachableWeight {} => {
                "Not possible to reach required (passing) weight".to_string()
            },
            ContractError::NoVoters {} => "No voters".to_string(),
            ContractError::VoterZeroWeight {} => "Voters cannot have zero weight".to_string(),
            ContractError::Unauthorized {} => "Unauthorized".to_string(),
            ContractError::NotOpen {} => "Proposal is not open".to_string(),
            ContractError::Expired {} => "Proposal voting period has expired".to_string(),
            ContractError::NotExpired {} => {
                "Proposal must expire before you can close it".to_string()
            },
            ContractError::WrongExpiration {} => "Wrong expiration option".to_string(),
            ContractError::AlreadyVoted {} => "Already voted on this proposal".to_string(),
            ContractError::WrongExecuteStatus {} => {
                "Proposal must have passed and not yet been executed".to_string()
            },
            ContractError::WrongCloseStatus {} => {
                "Cannot close completed or passed proposals".to_string()
            },
        }
    }
}

} // verus!
