//! The operations of the multisig on a store: setting it up, proposing,
//! voting, executing and closing, and the two entries that run a message of
//! any kind. Each operation does what the model says or leaves the store as
//! it was.

use vstd::prelude::*;

use crate::error::{ContractError, StdError};
use crate::expiration::{BlockInfo, Duration, Expiration};
use crate::msg::{ExecuteMsg, InstantiateMsg, QueryMsg, Vote, Voter};
use crate::queries::{
    list_proposals, list_proposals_post, list_voters, list_voters_post, list_votes,
    list_votes_post, proposal_post, query_proposal, query_threshold, query_vote, query_voter,
    reverse_proposals, reverse_proposals_post, text_of, threshold_post, voter_post,
};
use crate::query::{
    ProposalListResponse, ProposalResponse, QueryResponse, Status, ThresholdResponse,
    VoteListResponse, VoteResponse, VoterListResponse, VoterResponse,
};
use crate::response::{cloned_all, Env, MessageInfo, Response};
use crate::laws::{
    law_close_keeps_wf, law_execute_keeps_wf, law_instantiate_keeps_wf, law_propose_keeps_wf,
    law_vote_keeps_wf,
};
use crate::model::{
    after_close, after_execute, after_instantiate, after_propose, after_vote, config_for,
    lemma_entry_replaced, listed,
};
use crate::roster::{enrolled, positive, total};
use crate::state::{consume_next_id, Config, Proposal, Store, StoreModel};
use crate::text::{decimal, u64_to_string};

verus! {

/// Whether some listed member has weight zero.
fn has_zero_weight(voters: &Vec<Voter>) -> (r: bool)
    ensures
        r == !positive(listed(voters@)),
{
    let mut i: usize = 0;
    while i < voters.len()
        invariant
            i <= voters.len(),
            forall|j: int| 0 <= j < i ==> (#[trigger] listed(voters@)[j]).1 > 0,
        decreases voters.len() - i,
    {
        if voters[i].weight == 0 {
            assert(listed(voters@)[i as int].1 == 0);
            return true;
        }
        i += 1;
    }
    false
}

/// The sum of the listed weights.
fn listed_weight(voters: &Vec<Voter>) -> (sum: u128)
    ensures
        sum == total(listed(voters@)),
{
    let ghost list = listed(voters@);
    let mut sum: u128 = 0;
    let mut i: usize = 0;
    while i < voters.len()
        invariant
            i <= voters.len(),
            list == listed(voters@),
            sum == total(list.take(i as int)),
            sum <= i * 0xFFFF_FFFF_FFFF_FFFF,
        decreases voters.len() - i,
    {
        assert(list.take(i + 1).drop_last() =~= list.take(i as int));
        assert(list.take(i + 1).last() == voters[i as int]@);
        assert(i * 0xFFFF_FFFF_FFFF_FFFF + 0xFFFF_FFFF_FFFF_FFFF <= u128::MAX) by (nonlinear_arith)
            requires
                0 <= i <= 0xFFFF_FFFF_FFFF_FFFF,
        ;
        assert(i * 0xFFFF_FFFF_FFFF_FFFF + 0xFFFF_FFFF_FFFF_FFFF == (i + 1)
            * 0xFFFF_FFFF_FFFF_FFFF) by (nonlinear_arith);
        sum = sum + voters[i].weight as u128;
        i += 1;
    }
    assert(list.take(i as int) =~= list);
    sum
}

/// Checks a set-up message and gives the rules that it asks for.
pub fn check_setup(msg: &InstantiateMsg) -> (r: Result<Config, ContractError>)
    ensures
        r == config_for(listed(msg.voters@), msg.threshold_weight, msg.max_voting_period),
{
    if msg.threshold_weight == 0 {
        return Err(ContractError::ZeroWeight {});
    }
    if msg.voters.len() == 0 {
        return Err(ContractError::NoVoters {});
    }
    if has_zero_weight(&msg.voters) {
        return Err(ContractError::VoterZeroWeight {});
    }
    let sum = listed_weight(&msg.voters);
    if sum > u64::MAX as u128 {
        return Err(ContractError::Std(StdError::Overflow {}));
    }
    let total_weight = sum as u64;
    if total_weight < msg.threshold_weight {
        return Err(ContractError::UnreachableWeight {});
    }
    Ok(
        Config {
            threshold_weight: msg.threshold_weight,
            total_weight,
            max_voting_period: msg.max_voting_period,
        },
    )
}

/// Sets the multisig up: checks the roster against the threshold, writes
/// the rules and files every member. A failure leaves the store as it was.
///
/// This is meant for a store that was not set up before. On another one
/// the rules are replaced and the members are filed among those that are
/// there, and what was well-formed need not stay so.
pub fn instantiate<T>(
    store: &mut Store<T>,
    _env: Env,
    _info: MessageInfo,
    msg: InstantiateMsg,
) -> (r: Result<Response<T>, ContractError>)
    ensures
        match after_instantiate(
            old(store)@,
            listed(msg.voters@),
            msg.threshold_weight,
            msg.max_voting_period,
        ) {
            Ok(s) => r is Ok && final(store)@ == s && r->Ok_0.tags().len() == 0
                && r->Ok_0.messages@.len() == 0,
            Err(e) => r is Err && r->Err_0 == e && final(store)@ == old(store)@,
        },
        old(store)@.wf() && old(store)@.config is None ==> final(store)@.wf(),
{
    let cfg = match check_setup(&msg) {
        Ok(cfg) => cfg,
        Err(e) => {
            return Err(e);
        },
    };
    store.save_config(cfg);

    let ghost list = listed(msg.voters@);
    let mut i: usize = 0;
    while i < msg.voters.len()
        invariant
            i <= msg.voters.len(),
            list == listed(msg.voters@),
            store@ == (StoreModel {
                config: Some(cfg),
                voters: enrolled(old(store)@.voters, list.take(i as int)),
                ..old(store)@
            }),
        decreases msg.voters.len() - i,
    {
        assert(list.take(i + 1).drop_last() =~= list.take(i as int));
        assert(list.take(i + 1).last() == msg.voters[i as int]@);
        store.save_voter(&msg.voters[i].addr, msg.voters[i].weight);
        i += 1;
    }
    assert(list.take(i as int) =~= list);
    proof {
        if old(store)@.wf() && old(store)@.config is None {
            law_instantiate_keeps_wf(
                old(store)@,
                list,
                msg.threshold_weight,
                msg.max_voting_period,
            );
        }
    }
    Ok(Response::new())
}

/// The weight with which a caller votes. Only a member has one.
pub fn member_weight(vote_power: Option<u64>) -> (r: Result<u64, ContractError>)
    ensures
        r == match vote_power {
            Some(w) => Ok::<u64, ContractError>(w),
            None => Err(ContractError::Unauthorized {}),
        },
{
    match vote_power {
        Some(w) => Ok(w),
        None => Err(ContractError::Unauthorized {}),
    }
}

/// The answer to a proposal or a vote: what was done, by whom, on which
/// proposal, and the status that the proposal has now.
pub fn status_response<T>(action: &str, sender: &str, id: u64, status: Status) -> (r: Response<T>)
    ensures
        r.tags() == status_tags(action@, sender@, id, status),
        r.messages@.len() == 0,
{
    let id_text = u64_to_string(id);
    let status_text = status.label();
    let r = Response::new().add_attribute("action", action).add_attribute(
        "sender",
        sender,
    ).add_attribute("proposal_id", id_text.as_str()).add_attribute("status", status_text.as_str());
    assert(r.tags() =~= status_tags(action@, sender@, id, status));
    r
}

/// The answer to an execution or a closing: what was done, by whom, on
/// which proposal, and the actions that are to be run.
pub fn plain_response<T>(action: &str, sender: &str, id: u64, msgs: Vec<T>) -> (r: Response<T>)
    ensures
        r.tags() == plain_tags(action@, sender@, id),
        r.messages@ == msgs@,
{
    let id_text = u64_to_string(id);
    let r = Response::new().add_messages(msgs).add_attribute("action", action).add_attribute(
        "sender",
        sender,
    ).add_attribute("proposal_id", id_text.as_str());
    assert(r.tags() =~= plain_tags(action@, sender@, id));
    assert(r.messages@ =~= msgs@);
    r
}

/// The tags on the answer to a proposal or a vote.
pub open spec fn status_tags(action: Seq<char>, sender: Seq<char>, id: u64, status: Status) -> Seq<
    (Seq<char>, Seq<char>),
> {
    seq![
        ("action"@, action),
        ("sender"@, sender),
        ("proposal_id"@, decimal(id as nat)),
        ("status"@, status.name()),
    ]
}

/// The tags on the answer to an execution or a closing.
pub open spec fn plain_tags(action: Seq<char>, sender: Seq<char>, id: u64) -> Seq<
    (Seq<char>, Seq<char>),
> {
    seq![("action"@, action), ("sender"@, sender), ("proposal_id"@, decimal(id as nat))]
}

/// What `execute_propose` owes: the new proposal is filed under the next
/// id, and the answer names that id and the proposal's status as of the
/// block; or the store stays as it was.
pub open spec fn propose_post<T>(
    before: StoreModel<T>,
    after: StoreModel<T>,
    r: Result<Response<T>, ContractError>,
    block: BlockInfo,
    sender: Seq<char>,
    title: Seq<char>,
    description: Seq<char>,
    msgs: Seq<T>,
    latest: Option<Expiration>,
) -> bool {
    match after_propose(before, block, sender, title, description, msgs, latest) {
        Ok(s) => {
            &&& r is Ok
            &&& after == s
            &&& r->Ok_0.tags() == status_tags(
                "propose"@,
                sender,
                s.proposal_count,
                s.proposals.last().1.status_in(block, before.threshold()),
            )
            &&& r->Ok_0.messages@.len() == 0
        },
        Err(e) => r is Err && r->Err_0 == e && after == before,
    }
}

/// What `execute_vote` owes: a yes is counted on the proposal, any other
/// vote changes nothing, and the answer names the proposal's status as of
/// the block; or the store stays as it was.
pub open spec fn vote_post<T>(
    before: StoreModel<T>,
    after: StoreModel<T>,
    r: Result<Response<T>, ContractError>,
    block: BlockInfo,
    sender: Seq<char>,
    id: u64,
    vote: Vote,
) -> bool {
    match after_vote(before, block, sender, id, vote) {
        Ok(s) => {
            &&& r is Ok
            &&& after == s
            &&& r->Ok_0.tags() == status_tags(
                "vote"@,
                sender,
                id,
                s.proposal(id).status_in(block, before.threshold()),
            )
            &&& r->Ok_0.messages@.len() == 0
        },
        Err(e) => r is Err && r->Err_0 == e && after == before,
    }
}

/// What `execute_execute` owes: the proposal is marked as executed and the
/// answer carries a clone of each of its actions, in order; or the store
/// stays as it was.
pub open spec fn execute_post<T: Clone>(
    before: StoreModel<T>,
    after: StoreModel<T>,
    r: Result<Response<T>, ContractError>,
    sender: Seq<char>,
    id: u64,
) -> bool {
    match after_execute(before, id) {
        Ok(s) => {
            &&& r is Ok
            &&& after == s
            &&& r->Ok_0.tags() == plain_tags("execute"@, sender, id)
            &&& cloned_all(before.proposal(id).msgs, r->Ok_0.messages@)
        },
        Err(e) => r is Err && r->Err_0 == e && after == before,
    }
}

/// What `execute_close` owes: the proposal is marked as rejected; or the
/// store stays as it was.
pub open spec fn close_post<T>(
    before: StoreModel<T>,
    after: StoreModel<T>,
    r: Result<Response<T>, ContractError>,
    block: BlockInfo,
    sender: Seq<char>,
    id: u64,
) -> bool {
    match after_close(before, block, id) {
        Ok(s) => {
            &&& r is Ok
            &&& after == s
            &&& r->Ok_0.tags() == plain_tags("close"@, sender, id)
            &&& r->Ok_0.messages@.len() == 0
        },
        Err(e) => r is Err && r->Err_0 == e && after == before,
    }
}

/// Opens a proposal. Anybody may; a member has said yes by proposing, and
/// the proposal has passed at once where that member's weight reaches the
/// threshold.
pub fn execute_propose<T>(
    store: &mut Store<T>,
    env: Env,
    info: MessageInfo,
    title: String,
    description: String,
    msgs: Vec<T>,
    latest: Option<Expiration>,
) -> (r: Result<Response<T>, ContractError>)
    ensures
        propose_post(
            old(store)@,
            final(store)@,
            r,
            env.block,
            info.sender@,
            title@,
            description@,
            msgs@,
            latest,
        ),
        old(store)@.wf() ==> final(store)@.wf(),
{
    let vote_power = store.may_load_voter(&info.sender);
    let cfg = match store.load_config() {
        Ok(cfg) => cfg,
        Err(e) => {
            return Err(ContractError::Std(e));
        },
    };
    let prop = match Proposal::draft(
        &cfg,
        &env.block,
        &info.sender,
        vote_power,
        title,
        description,
        msgs,
        latest,
    ) {
        Ok(prop) => prop,
        Err(e) => {
            return Err(e);
        },
    };
    let status = prop.current_status(&env.block, &cfg.threshold_weight);
    let id = match consume_next_id(store) {
        Ok(id) => id,
        Err(e) => {
            return Err(ContractError::Std(e));
        },
    };
    store.add_proposal(id, prop);
    proof {
        if old(store)@.wf() {
            law_propose_keeps_wf(
                old(store)@,
                env.block,
                info.sender@,
                title@,
                description@,
                msgs@,
                latest,
            );
        }
    }
    Ok(status_response("propose", info.sender.as_str(), id, status))
}

/// Casts a member's vote on a proposal that is open and not out of time.
/// Only a yes is kept; it passes the proposal once the threshold is
/// reached.
pub fn execute_vote<T>(
    store: &mut Store<T>,
    env: Env,
    info: MessageInfo,
    proposal_id: u64,
    vote: Vote,
) -> (r: Result<Response<T>, ContractError>)
    ensures
        vote_post(old(store)@, final(store)@, r, env.block, info.sender@, proposal_id, vote),
        old(store)@.wf() ==> final(store)@.wf(),
{
    let vote_power = match member_weight(store.may_load_voter(&info.sender)) {
        Ok(w) => w,
        Err(e) => {
            return Err(e);
        },
    };
    let i = match store.find_proposal(proposal_id) {
        Some(i) => i,
        None => {
            return Err(ContractError::Std(StdError::NotFound {}));
        },
    };
    let cfg = match store.load_config() {
        Ok(cfg) => cfg,
        Err(e) => {
            return Err(ContractError::Std(e));
        },
    };
    match store.vote_at(i, &info.sender, vote_power, vote, &env.block, cfg.threshold_weight) {
        Ok(_) => {},
        Err(e) => {
            return Err(e);
        },
    }
    let status = store.proposal_at(i).current_status(&env.block, &cfg.threshold_weight);
    proof {
        let before = old(store)@;
        let after = store@;
        let now = after.proposals[i as int].1;
        lemma_entry_replaced(before, after, proposal_id, i as int, now);
        if before.wf() {
            law_vote_keeps_wf(before, env.block, info.sender@, proposal_id, vote);
        }
    }
    Ok(status_response("vote", info.sender.as_str(), proposal_id, status))
}

/// Hands out the actions of a passed proposal, once. Anybody may ask, also
/// after the voting period: a proposal that passed in time stays passed.
pub fn execute_execute<T: Clone>(
    store: &mut Store<T>,
    _env: Env,
    info: MessageInfo,
    proposal_id: u64,
) -> (r: Result<Response<T>, ContractError>)
    ensures
        execute_post(old(store)@, final(store)@, r, info.sender@, proposal_id),
        old(store)@.wf() ==> final(store)@.wf(),
{
    let i = match store.find_proposal(proposal_id) {
        Some(i) => i,
        None => {
            return Err(ContractError::Std(StdError::NotFound {}));
        },
    };
    let cfg = match store.load_config() {
        Ok(cfg) => cfg,
        Err(e) => {
            return Err(ContractError::Std(e));
        },
    };
    match store.execute_at(i, cfg.threshold_weight) {
        Ok(()) => {},
        Err(e) => {
            return Err(e);
        },
    }
    proof {
        let before = old(store)@;
        let after = store@;
        let now = after.proposals[i as int].1;
        lemma_entry_replaced(before, after, proposal_id, i as int, now);
        if before.wf() {
            law_execute_keeps_wf(before, proposal_id);
        }
    }
    let msgs = store.proposal_at(i).msgs.clone();
    Ok(plain_response("execute", info.sender.as_str(), proposal_id, msgs))
}

/// Rejects for good an open proposal whose voting period is over. Anybody
/// may ask.
pub fn execute_close<T>(
    store: &mut Store<T>,
    env: Env,
    info: MessageInfo,
    proposal_id: u64,
) -> (r: Result<Response<T>, ContractError>)
    ensures
        close_post(old(store)@, final(store)@, r, env.block, info.sender@, proposal_id),
        old(store)@.wf() ==> final(store)@.wf(),
{
    let i = match store.find_proposal(proposal_id) {
        Some(i) => i,
        None => {
            return Err(ContractError::Std(StdError::NotFound {}));
        },
    };
    let cfg = match store.load_config() {
        Ok(cfg) => cfg,
        Err(e) => {
            return Err(ContractError::Std(e));
        },
    };
    match store.close_at(i, &env.block, cfg.threshold_weight) {
        Ok(()) => {},
        Err(e) => {
            return Err(e);
        },
    }
    proof {
        let before = old(store)@;
        let after = store@;
        let now = after.proposals[i as int].1;
        lemma_entry_replaced(before, after, proposal_id, i as int, now);
        if before.wf() {
            law_close_keeps_wf(before, env.block, proposal_id);
        }
    }
    Ok(plain_response("close", info.sender.as_str(), proposal_id, Vec::new()))
}

/// What `execute` owes for each kind of message: what the operation of that
/// kind owes.
pub open spec fn dispatch_post<T: Clone>(
    before: StoreModel<T>,
    after: StoreModel<T>,
    r: Result<Response<T>, ContractError>,
    block: BlockInfo,
    sender: Seq<char>,
    msg: ExecuteMsg<T>,
) -> bool {
    match msg {
        ExecuteMsg::Propose { title, description, msgs, latest } => propose_post(
            before,
            after,
            r,
            block,
            sender,
            title@,
            description@,
            msgs@,
            latest,
        ),
        ExecuteMsg::Vote { proposal_id, vote } => vote_post(
            before,
            after,
            r,
            block,
            sender,
            proposal_id,
            vote,
        ),
        ExecuteMsg::Execute { proposal_id } => execute_post(before, after, r, sender, proposal_id),
        ExecuteMsg::Close { proposal_id } => close_post(
            before,
            after,
            r,
            block,
            sender,
            proposal_id,
        ),
    }
}

/// Runs a mutating message: the one entry for proposing, voting, executing
/// and closing.
pub fn execute<T: Clone>(
    store: &mut Store<T>,
    env: Env,
    info: MessageInfo,
    msg: ExecuteMsg<T>,
) -> (r: Result<Response<T>, ContractError>)
    ensures
        dispatch_post(old(store)@, final(store)@, r, env.block, info.sender@, msg),
        old(store)@.wf() ==> final(store)@.wf(),
{
    match msg {
        ExecuteMsg::Propose { title, description, msgs, latest } => execute_propose(
            store,
            env,
            info,
            title,
            description,
            msgs,
            latest,
        ),
        ExecuteMsg::Vote { proposal_id, vote } => execute_vote(store, env, info, proposal_id, vote),
        ExecuteMsg::Execute { proposal_id } => execute_execute(store, env, info, proposal_id),
        ExecuteMsg::Close { proposal_id } => execute_close(store, env, info, proposal_id),
    }
}

/// What `query` owes for each kind of message: an answer of that kind,
/// which is what the query of that kind owes.
pub open spec fn query_post<T: Clone>(
    s: StoreModel<T>,
    r: Result<QueryResponse<T>, StdError>,
    block: BlockInfo,
    msg: QueryMsg,
) -> bool {
    match msg {
        QueryMsg::Threshold {} => match r {
            Ok(QueryResponse::Threshold(x)) => threshold_post(
                s,
                Ok::<ThresholdResponse, StdError>(x),
            ),
            Ok(_) => false,
            Err(e) => threshold_post(s, Err::<ThresholdResponse, StdError>(e)),
        },
        QueryMsg::Proposal { proposal_id } => match r {
            Ok(QueryResponse::Proposal(x)) => proposal_post(
                s,
                Ok::<ProposalResponse<T>, StdError>(x),
                block,
                proposal_id,
            ),
            Ok(_) => false,
            Err(e) => proposal_post(s, Err::<ProposalResponse<T>, StdError>(e), block, proposal_id),
        },
        QueryMsg::ListProposals { start_after, limit } => match r {
            Ok(QueryResponse::ProposalList(x)) => list_proposals_post(
                s,
                Ok::<ProposalListResponse<T>, StdError>(x),
                block,
                start_after,
                limit,
            ),
            Ok(_) => false,
            Err(e) => list_proposals_post(
                s,
                Err::<ProposalListResponse<T>, StdError>(e),
                block,
                start_after,
                limit,
            ),
        },
        QueryMsg::ReverseProposals { start_before, limit } => match r {
            Ok(QueryResponse::ProposalList(x)) => reverse_proposals_post(
                s,
                Ok::<ProposalListResponse<T>, StdError>(x),
                block,
                start_before,
                limit,
            ),
            Ok(_) => false,
            Err(e) => reverse_proposals_post(
                s,
                Err::<ProposalListResponse<T>, StdError>(e),
                block,
                start_before,
                limit,
            ),
        },
        QueryMsg::Vote { proposal_id, voter } => match r {
            Ok(QueryResponse::Vote(x)) => crate::queries::vote_post(
                s,
                Ok::<VoteResponse, StdError>(x),
                proposal_id,
                voter@,
            ),
            Ok(_) => false,
            Err(e) => crate::queries::vote_post(
                s,
                Err::<VoteResponse, StdError>(e),
                proposal_id,
                voter@,
            ),
        },
        QueryMsg::ListVotes { proposal_id, start_after, limit } => match r {
            Ok(QueryResponse::VoteList(x)) => list_votes_post(
                s,
                Ok::<VoteListResponse, StdError>(x),
                proposal_id,
                text_of(start_after),
                limit,
            ),
            Ok(_) => false,
            Err(e) => list_votes_post(
                s,
                Err::<VoteListResponse, StdError>(e),
                proposal_id,
                text_of(start_after),
                limit,
            ),
        },
        QueryMsg::Voter { address } => match r {
            Ok(QueryResponse::Voter(x)) => voter_post(
                s,
                Ok::<VoterResponse, StdError>(x),
                address@,
            ),
            Ok(_) => false,
            Err(e) => voter_post(s, Err::<VoterResponse, StdError>(e), address@),
        },
        QueryMsg::ListVoters { start_after, limit } => match r {
            Ok(QueryResponse::VoterList(x)) => list_voters_post(
                s,
                Ok::<VoterListResponse, StdError>(x),
                text_of(start_after),
                limit,
            ),
            Ok(_) => false,
            Err(e) => list_voters_post(
                s,
                Err::<VoterListResponse, StdError>(e),
                text_of(start_after),
                limit,
            ),
        },
    }
}

/// Answers a query: the one entry for all of them. Nothing is changed.
pub fn query<T: Clone>(store: &Store<T>, env: Env, msg: QueryMsg) -> (r: Result<
    QueryResponse<T>,
    StdError,
>)
    ensures
        query_post(store@, r, env.block, msg),
{
    match msg {
        QueryMsg::Threshold {} => match query_threshold(store) {
            Ok(x) => Ok(QueryResponse::Threshold(x)),
            Err(e) => Err(e),
        },
        QueryMsg::Proposal { proposal_id } => match query_proposal(store, env, proposal_id) {
            Ok(x) => Ok(QueryResponse::Proposal(x)),
            Err(e) => Err(e),
        },
        QueryMsg::Vote { proposal_id, voter } => match query_vote(store, proposal_id, voter) {
            Ok(x) => Ok(QueryResponse::Vote(x)),
            Err(e) => Err(e),
        },
        QueryMsg::ListProposals { start_after, limit } => match list_proposals(
            store,
            env,
            start_after,
            limit,
        ) {
            Ok(x) => Ok(QueryResponse::ProposalList(x)),
            Err(e) => Err(e),
        },
        QueryMsg::ReverseProposals { start_before, limit } => match reverse_proposals(
            store,
            env,
            start_before,
            limit,
        ) {
            Ok(x) => Ok(QueryResponse::ProposalList(x)),
            Err(e) => Err(e),
        },
        QueryMsg::ListVotes { proposal_id, start_after, limit } => match list_votes(
            store,
            proposal_id,
            start_after,
            limit,
        ) {
            Ok(x) => Ok(QueryResponse::VoteList(x)),
            Err(e) => Err(e),
        },
        QueryMsg::Voter { address } => match query_voter(store, address) {
            Ok(x) => Ok(QueryResponse::Voter(x)),
            Err(e) => Err(e),
        },
        QueryMsg::ListVoters { start_after, limit } => match list_voters(
            store,
            start_after,
            limit,
        ) {
            Ok(x) => Ok(QueryResponse::VoterList(x)),
            Err(e) => Err(e),
        },
    }
}

} // verus!
