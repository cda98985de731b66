//! The multisig as mathematics: what each operation makes of a store.

use vstd::prelude::*;

use crate::error::{ContractError, StdError};
use crate::expiration::{BlockInfo, Duration, Expiration};
use crate::msg::{ExecuteMsg, Vote, Voter};
use crate::roster::{enrolled, positive, total, weight_of, Roster};
use crate::state::{drafted, lemma_index_of, Config, ProposalView, StoreModel};

verus! {

/// The members that a set-up message lists, as a roster.
pub open spec fn listed(voters: Seq<Voter>) -> Roster {
    voters.map_values(|v: Voter| v@)
}

/// The rules of a multisig with the members `list`, or why there can be no
/// such multisig: the threshold is zero, nobody is listed, somebody listed
/// has weight zero, the weights do not sum in 64 bits, or they sum to less
/// than the threshold.
pub open spec fn config_for(
    list: Roster,
    threshold_weight: u64,
    max_voting_period: Duration,
) -> Result<Config, ContractError> {
    if threshold_weight == 0 {
        Err(ContractError::ZeroWeight {})
    } else if list.len() == 0 {
        Err(ContractError::NoVoters {})
    } else if !positive(list) {
        Err(ContractError::VoterZeroWeight {})
    } else if total(list) > u64::MAX {
        Err(ContractError::Std(StdError::Overflow {}))
    } else if total(list) < threshold_weight {
        Err(ContractError::UnreachableWeight {})
    } else {
        Ok(Config { threshold_weight, total_weight: total(list) as u64, max_voting_period })
    }
}

/// The store after the multisig was set up with the members `list`, or why
/// it is not set up. Each member is filed in the roster, the first listed
/// first; one that is listed twice keeps the weight listed last.
pub open spec fn after_instantiate<T>(
    s: StoreModel<T>,
    list: Roster,
    threshold_weight: u64,
    max_voting_period: Duration,
) -> Result<StoreModel<T>, ContractError> {
    match config_for(list, threshold_weight, max_voting_period) {
        Err(e) => Err(e),
        Ok(cfg) => Ok(StoreModel { config: Some(cfg), voters: enrolled(s.voters, list), ..s }),
    }
}

/// The store after `sender` has opened a proposal in `block`, or why none
/// is opened. The new proposal gets the next id and stands last.
pub open spec fn after_propose<T>(
    s: StoreModel<T>,
    block: BlockInfo,
    sender: Seq<char>,
    title: Seq<char>,
    description: Seq<char>,
    msgs: Seq<T>,
    latest: Option<Expiration>,
) -> Result<StoreModel<T>, ContractError> {
    match s.config {
        None => Err(ContractError::Std(StdError::NotFound {})),
        Some(cfg) => match drafted(
            cfg,
            block,
            sender,
            weight_of(s.voters, sender),
            title,
            description,
            msgs,
            latest,
        ) {
            Err(e) => Err(e),
            Ok(p) => if s.proposal_count == u64::MAX {
                Err(ContractError::Std(StdError::Overflow {}))
            } else {
                Ok(
                    StoreModel {
                        proposal_count: (s.proposal_count + 1) as u64,
                        proposals: s.proposals.push(((s.proposal_count + 1) as u64, p)),
                        ..s
                    },
                )
            },
        },
    }
}

/// The store after the member `sender` has cast `vote` on proposal `id` in
/// `block`, or why the vote is refused.
pub open spec fn after_vote<T>(
    s: StoreModel<T>,
    block: BlockInfo,
    sender: Seq<char>,
    id: u64,
    vote: Vote,
) -> Result<StoreModel<T>, ContractError> {
    match weight_of(s.voters, sender) {
        None => Err(ContractError::Unauthorized {}),
        Some(vote_power) => if !s.has_proposal(id) {
            Err(ContractError::Std(StdError::NotFound {}))
        } else {
            match s.config {
                None => Err(ContractError::Std(StdError::NotFound {})),
                Some(cfg) => match s.proposal(id).after_vote(
                    sender,
                    vote_power,
                    vote,
                    block,
                    cfg.threshold_weight,
                ) {
                    Err(e) => Err(e),
                    Ok(p) => Ok(s.with_proposal(id, p)),
                },
            }
        },
    }
}

/// The store after the actions of proposal `id` were handed out, or why
/// they are not.
pub open spec fn after_execute<T>(s: StoreModel<T>, id: u64) -> Result<
    StoreModel<T>,
    ContractError,
> {
    if !s.has_proposal(id) {
        Err(ContractError::Std(StdError::NotFound {}))
    } else {
        match s.config {
            None => Err(ContractError::Std(StdError::NotFound {})),
            Some(cfg) => match s.proposal(id).after_execute(cfg.threshold_weight) {
                Err(e) => Err(e),
                Ok(p) => Ok(s.with_proposal(id, p)),
            },
        }
    }
}

/// The store after proposal `id` was closed in `block`, or why it is not.
pub open spec fn after_close<T>(s: StoreModel<T>, block: BlockInfo, id: u64) -> Result<
    StoreModel<T>,
    ContractError,
> {
    if !s.has_proposal(id) {
        Err(ContractError::Std(StdError::NotFound {}))
    } else {
        match s.config {
            None => Err(ContractError::Std(StdError::NotFound {})),
            Some(cfg) => match s.proposal(id).after_close(block, cfg.threshold_weight) {
                Err(e) => Err(e),
                Ok(p) => Ok(s.with_proposal(id, p)),
            },
        }
    }
}

/// A store in which the entry at the first place of `id` was replaced is
/// the store with the new proposal in the place of proposal `id`.
pub proof fn lemma_entry_replaced<T>(
    before: StoreModel<T>,
    after: StoreModel<T>,
    id: u64,
    i: int,
    now: ProposalView<T>,
)
    requires
        before.has_proposal(id),
        before.index_of(id) == i,
        0 <= i < before.proposals.len(),
        after == (StoreModel {
            proposals: before.proposals.update(i, (before.proposals[i].0, now)),
            ..before
        }),
    ensures
        before.proposals[i].0 == id,
        after == before.with_proposal(id, now),
        after.has_proposal(id),
        after.index_of(id) == i,
        after.proposal(id) == now,
        before.proposal(id) == before.proposals[i].1,
{
    let w = choose|k: int|
        0 <= k < before.proposals.len() && (#[trigger] before.proposals[k]).0 == id;
    assert(exists|k: int| before.stands_at(id, k)) by {
        lemma_first_place(before, id, w);
    }
    assert(before.stands_at(id, i));
    assert(after.stands_at(id, i)) by {
        assert forall|j: int| 0 <= j < i implies (#[trigger] after.proposals[j]).0 != id by {
            assert(after.proposals[j] == before.proposals[j]);
        }
    }
    lemma_index_of(after, id, i);
}

/// An id that stands somewhere stands somewhere first.
pub proof fn lemma_first_place<T>(s: StoreModel<T>, id: u64, k: int)
    requires
        0 <= k < s.proposals.len(),
        s.proposals[k].0 == id,
    ensures
        exists|i: int| s.stands_at(id, i),
    decreases k,
{
    if exists|j: int| 0 <= j < k && (#[trigger] s.proposals[j]).0 == id {
        let j = choose|j: int| 0 <= j < k && (#[trigger] s.proposals[j]).0 == id;
        lemma_first_place(s, id, j);
    } else {
        assert(s.stands_at(id, k));
    }
}

/// Replacing a proposal by one that agrees with roster and threshold
/// leaves a well-formed store well-formed.
pub proof fn lemma_replaced_wf<T>(
    before: StoreModel<T>,
    after: StoreModel<T>,
    i: int,
    now: ProposalView<T>,
)
    requires
        before.wf(),
        before.config is Some,
        0 <= i < before.proposals.len(),
        after == (StoreModel {
            proposals: before.proposals.update(i, (before.proposals[i].0, now)),
            ..before
        }),
        now.consistent(before.voters, before.threshold()),
    ensures
        after.wf(),
{
    assert forall|a: int, b: int| 0 <= a < b < after.proposals.len() implies (
    #[trigger] after.proposals[a]).0 < (#[trigger] after.proposals[b]).0 by {
        assert(after.proposals[a].0 == before.proposals[a].0);
        assert(after.proposals[b].0 == before.proposals[b].0);
    }
    assert forall|a: int| 0 <= a < after.proposals.len() implies 1 <= (
    #[trigger] after.proposals[a]).0 <= after.proposal_count by {
        assert(after.proposals[a].0 == before.proposals[a].0);
    }
    assert forall|a: int| 0 <= a < after.proposals.len() implies (
    #[trigger] after.proposals[a]).1.consistent(after.voters, after.threshold()) by {
        if a != i {
            assert(after.proposals[a] == before.proposals[a]);
        }
    }
}

/// The store after a mutating message was run, or why it is refused.
pub open spec fn after_message<T>(
    s: StoreModel<T>,
    block: BlockInfo,
    sender: Seq<char>,
    msg: ExecuteMsg<T>,
) -> Result<StoreModel<T>, ContractError> {
    match msg {
        ExecuteMsg::Propose { title, description, msgs, latest } => after_propose(
            s,
            block,
            sender,
            title@,
            description@,
            msgs@,
            latest,
        ),
        ExecuteMsg::Vote { proposal_id, vote } => after_vote(s, block, sender, proposal_id, vote),
        ExecuteMsg::Execute { proposal_id } => after_execute(s, proposal_id),
        ExecuteMsg::Close { proposal_id } => after_close(s, block, proposal_id),
    }
}

/// Putting `p` in the place of proposal `id` changes that proposal and
/// nothing else: the same ids stand at the same places.
pub proof fn lemma_with_proposal<T>(s: StoreModel<T>, id: u64, p: ProposalView<T>, other: u64)
    requires
        s.has_proposal(id),
    ensures
        s.with_proposal(id, p).has_proposal(id),
        s.with_proposal(id, p).proposal(id) == p,
        s.with_proposal(id, p).has_proposal(other) == s.has_proposal(other),
        s.has_proposal(other) ==> s.with_proposal(id, p).index_of(other) == s.index_of(other),
        other != id && s.has_proposal(other) ==> s.with_proposal(id, p).proposal(other)
            == s.proposal(other),
{
    let w = choose|k: int| 0 <= k < s.proposals.len() && (#[trigger] s.proposals[k]).0 == id;
    lemma_first_place(s, id, w);
    let i = s.index_of(id);
    assert(s.stands_at(id, i));
    let s2 = s.with_proposal(id, p);
    assert forall|k: int| 0 <= k < s.proposals.len() implies (#[trigger] s2.proposals[k]).0
        == s.proposals[k].0 by {}
    assert(s2.stands_at(id, i)) by {
        assert forall|j: int| 0 <= j < i implies (#[trigger] s2.proposals[j]).0 != id by {
            assert(s2.proposals[j].0 == s.proposals[j].0);
        }
    }
    lemma_index_of(s2, id, i);
    if s.has_proposal(other) {
        let wo = choose|k: int|
            0 <= k < s.proposals.len() && (#[trigger] s.proposals[k]).0 == other;
        lemma_first_place(s, other, wo);
        let o = s.index_of(other);
        assert(s.stands_at(other, o));
        assert(s2.stands_at(other, o)) by {
            assert(s2.proposals[o].0 == s.proposals[o].0);
            assert forall|j: int| 0 <= j < o implies (#[trigger] s2.proposals[j]).0 != other by {
                assert(s2.proposals[j].0 == s.proposals[j].0);
            }
        }
        lemma_index_of(s2, other, o);
        if other != id {
            assert(o != i);
        }
    }
    if s2.has_proposal(other) {
        let wo = choose|k: int|
            0 <= k < s2.proposals.len() && (#[trigger] s2.proposals[k]).0 == other;
        assert(s.proposals[wo].0 == other);
    }
}

/// Filing a proposal under a new id behind the others leaves every other
/// proposal where it was.
pub proof fn lemma_pushed<T>(
    s: StoreModel<T>,
    s2: StoreModel<T>,
    id: u64,
    p: ProposalView<T>,
    other: u64,
)
    requires
        !s.has_proposal(id),
        s2.proposals == s.proposals.push((id, p)),
    ensures
        s2.has_proposal(id),
        s2.proposal(id) == p,
        s.has_proposal(other) ==> s2.has_proposal(other) && s2.proposal(other) == s.proposal(
            other,
        ),
{
    let n = s.proposals.len() as int;
    assert(s2.proposals[n] == (id, p));
    assert(s2.stands_at(id, n)) by {
        assert forall|j: int| 0 <= j < n implies (#[trigger] s2.proposals[j]).0 != id by {
            assert(s2.proposals[j] == s.proposals[j]);
        }
    }
    lemma_index_of(s2, id, n);
    if s.has_proposal(other) {
        let wo = choose|k: int|
            0 <= k < s.proposals.len() && (#[trigger] s.proposals[k]).0 == other;
        lemma_first_place(s, other, wo);
        let o = s.index_of(other);
        assert(s.stands_at(other, o));
        assert(s2.stands_at(other, o)) by {
            assert(s2.proposals[o] == s.proposals[o]);
            assert forall|j: int| 0 <= j < o implies (#[trigger] s2.proposals[j]).0 != other by {
                assert(s2.proposals[j] == s.proposals[j]);
            }
        }
        lemma_index_of(s2, other, o);
    }
}

} // verus!
