//! What holds of the multisig whatever is done with it.

use vstd::prelude::*;

use crate::error::{ContractError, StdError};
use crate::expiration::{BlockInfo, Duration, Expiration};
use crate::model::{
    after_close, after_execute, after_instantiate, after_message, after_propose, after_vote,
    lemma_first_place, lemma_pushed, lemma_replaced_wf, lemma_with_proposal,
};
use crate::msg::{ExecuteMsg, Vote};
use crate::keys::{
    addr_lt, bytes_lt, id_key, key_id, lemma_addr_order, lemma_id_key_roundtrip, lemma_key_order,
    lemma_shift_bytes,
};
use crate::response::cloned_all;
use crate::queries::{
    addr_after, first_at, first_n, first_place, id_after, id_before, page_size, resume_point,
    votes_page, yes_votes, DEFAULT_LIMIT, MAX_LIMIT,
};
use crate::query::Status;
use crate::roster::{
    ascending, distinct, lemma_enrolled, lemma_tally_bound, lemma_total_enrolled,
    lemma_total_enrolled_bound, tally, total, weight_of, Roster,
};
use crate::state::{drafted, ProposalView, StoreModel};

verus! {

/// Setting up a multisig that was not set up before leaves a well-formed
/// store.
pub proof fn law_instantiate_keeps_wf<T>(
    s: StoreModel<T>,
    list: Roster,
    threshold_weight: u64,
    max_voting_period: Duration,
)
    requires
        s.wf(),
        s.config is None,
    ensures
        after_instantiate(s, list, threshold_weight, max_voting_period) matches Ok(s2) ==> s2.wf(),
{
    if after_instantiate(s, list, threshold_weight, max_voting_period) is Ok {
        lemma_enrolled(s.voters, list);
        lemma_total_enrolled_bound(s.voters, list);
    }
}

/// A multisig that is set up on an empty roster with members of whom none
/// is listed twice has, as its total weight, the sum of the weights of its
/// members.
pub proof fn law_total_weight<T>(
    s: StoreModel<T>,
    list: Roster,
    threshold_weight: u64,
    max_voting_period: Duration,
)
    requires
        s.voters.len() == 0,
        distinct(list),
    ensures
        after_instantiate(s, list, threshold_weight, max_voting_period) matches Ok(s2)
            ==> s2.config->Some_0.total_weight == total(s2.voters),
{
    lemma_total_enrolled(s.voters, list);
}

/// A proposal as it is opened agrees with the roster and the threshold.
pub proof fn law_draft_consistent<T>(
    s: StoreModel<T>,
    block: BlockInfo,
    sender: Seq<char>,
    title: Seq<char>,
    description: Seq<char>,
    msgs: Seq<T>,
    latest: Option<Expiration>,
)
    requires
        s.config is Some,
    ensures
        drafted(
            s.config->Some_0,
            block,
            sender,
            weight_of(s.voters, sender),
            title,
            description,
            msgs,
            latest,
        ) matches Ok(p) ==> p.consistent(s.voters, s.threshold()),
{
    let r = drafted(
        s.config->Some_0,
        block,
        sender,
        weight_of(s.voters, sender),
        title,
        description,
        msgs,
        latest,
    );
    if r is Ok {
        let p = r->Ok_0;
        if p.voters.len() == 1 {
            assert(p.voters.drop_last().len() == 0);
            assert(p.voters.last() == sender);
            assert(tally(p.voters.drop_last(), s.voters) == 0);
        } else {
            assert(tally(p.voters, s.voters) == 0);
        }
    }
}

/// Opening a proposal leaves a well-formed store well-formed.
pub proof fn law_propose_keeps_wf<T>(
    s: StoreModel<T>,
    block: BlockInfo,
    sender: Seq<char>,
    title: Seq<char>,
    description: Seq<char>,
    msgs: Seq<T>,
    latest: Option<Expiration>,
)
    requires
        s.wf(),
    ensures
        after_propose(s, block, sender, title, description, msgs, latest) matches Ok(s2)
            ==> s2.wf(),
{
    let r = after_propose(s, block, sender, title, description, msgs, latest);
    if r is Ok {
        let s2 = r->Ok_0;
        let n = s.proposals.len() as int;
        law_draft_consistent(s, block, sender, title, description, msgs, latest);
        assert forall|i: int| 0 <= i < s2.proposals.len() implies (
        #[trigger] s2.proposals[i]).1.consistent(s2.voters, s2.threshold()) by {
            if i < n {
                assert(s2.proposals[i] == s.proposals[i]);
            }
        }
        assert forall|i: int, j: int| 0 <= i < j < s2.proposals.len() implies (
        #[trigger] s2.proposals[i]).0 < (#[trigger] s2.proposals[j]).0 by {
            assert(s2.proposals[i] == s.proposals[i]);
            if j < n {
                assert(s2.proposals[j] == s.proposals[j]);
            }
        }
        assert forall|i: int| 0 <= i < s2.proposals.len() implies 1 <= (
        #[trigger] s2.proposals[i]).0 <= s2.proposal_count by {
            if i < n {
                assert(s2.proposals[i] == s.proposals[i]);
            }
        }
    }
}

/// A vote that is taken leaves a proposal that agrees with roster and
/// threshold in agreement with them.
pub proof fn law_vote_consistent<T>(
    p: ProposalView<T>,
    roster: Roster,
    voter: Seq<char>,
    vote_power: u64,
    vote: Vote,
    block: BlockInfo,
    threshold_weight: u64,
)
    requires
        p.consistent(roster, threshold_weight),
        weight_of(roster, voter) == Some(vote_power),
    ensures
        p.after_vote(voter, vote_power, vote, block, threshold_weight) matches Ok(now)
            ==> now.consistent(roster, threshold_weight),
{
    let r = p.after_vote(voter, vote_power, vote, block, threshold_weight);
    if r is Ok && vote == Vote::Yes {
        let now = r->Ok_0;
        assert(now.voters.drop_last() =~= p.voters);
        assert(now.voters.last() == voter);
        assert forall|a: int, b: int|
            0 <= a < now.voters.len() && 0 <= b < now.voters.len() && a != b implies now.voters[a]
            != now.voters[b] by {
            if a < p.voters.len() {
                assert(now.voters[a] == p.voters[a]);
            }
            if b < p.voters.len() {
                assert(now.voters[b] == p.voters[b]);
            }
        }
        assert forall|a: int| 0 <= a < now.voters.len() implies weight_of(
            roster,
            #[trigger] now.voters[a],
        ) is Some by {
            if a < p.voters.len() {
                assert(now.voters[a] == p.voters[a]);
            }
        }
    }
}

/// In a well-formed store a proposal that is there agrees with the roster
/// and the threshold, and the multisig is set up.
pub proof fn lemma_stored_consistent<T>(s: StoreModel<T>, id: u64)
    requires
        s.wf(),
        s.has_proposal(id),
    ensures
        s.config is Some,
        s.stands_at(id, s.index_of(id)),
        s.proposal(id).consistent(s.voters, s.threshold()),
{
    let w = choose|k: int| 0 <= k < s.proposals.len() && (#[trigger] s.proposals[k]).0 == id;
    lemma_first_place(s, id, w);
    let i = s.index_of(id);
    assert(s.stands_at(id, i));
    assert(s.proposals[i].1.consistent(s.voters, s.threshold()));
}

/// A vote leaves a well-formed store well-formed.
pub proof fn law_vote_keeps_wf<T>(
    s: StoreModel<T>,
    block: BlockInfo,
    sender: Seq<char>,
    id: u64,
    vote: Vote,
)
    requires
        s.wf(),
    ensures
        after_vote(s, block, sender, id, vote) matches Ok(s2) ==> s2.wf(),
{
    let r = after_vote(s, block, sender, id, vote);
    if r is Ok {
        lemma_stored_consistent(s, id);
        let power = weight_of(s.voters, sender)->Some_0;
        law_vote_consistent(s.proposal(id), s.voters, sender, power, vote, block, s.threshold());
        let now = s.proposal(id).after_vote(sender, power, vote, block, s.threshold())->Ok_0;
        lemma_replaced_wf(s, r->Ok_0, s.index_of(id), now);
    }
}

/// An execution leaves a well-formed store well-formed.
pub proof fn law_execute_keeps_wf<T>(s: StoreModel<T>, id: u64)
    requires
        s.wf(),
    ensures
        after_execute(s, id) matches Ok(s2) ==> s2.wf(),
{
    let r = after_execute(s, id);
    if r is Ok {
        lemma_stored_consistent(s, id);
        let now = s.proposal(id).after_execute(s.threshold())->Ok_0;
        lemma_replaced_wf(s, r->Ok_0, s.index_of(id), now);
    }
}

/// A closing leaves a well-formed store well-formed.
pub proof fn law_close_keeps_wf<T>(s: StoreModel<T>, block: BlockInfo, id: u64)
    requires
        s.wf(),
    ensures
        after_close(s, block, id) matches Ok(s2) ==> s2.wf(),
{
    let r = after_close(s, block, id);
    if r is Ok {
        lemma_stored_consistent(s, id);
        let now = s.proposal(id).after_close(block, s.threshold())->Ok_0;
        lemma_replaced_wf(s, r->Ok_0, s.index_of(id), now);
    }
}

/// No mutating message takes a well-formed store to one that is not.
pub proof fn law_message_keeps_wf<T>(
    s: StoreModel<T>,
    block: BlockInfo,
    sender: Seq<char>,
    msg: ExecuteMsg<T>,
)
    requires
        s.wf(),
    ensures
        after_message(s, block, sender, msg) matches Ok(s2) ==> s2.wf(),
{
    match msg {
        ExecuteMsg::Propose { title, description, msgs, latest } => {
            law_propose_keeps_wf(s, block, sender, title@, description@, msgs@, latest);
        },
        ExecuteMsg::Vote { proposal_id, vote } => {
            law_vote_keeps_wf(s, block, sender, proposal_id, vote);
        },
        ExecuteMsg::Execute { proposal_id } => {
            law_execute_keeps_wf(s, proposal_id);
        },
        ExecuteMsg::Close { proposal_id } => {
            law_close_keeps_wf(s, block, proposal_id);
        },
    }
}

/// In a well-formed store the "yes" weight of every proposal is the sum of
/// the weights of those who said yes to it, each of them a member and none
/// of them counted twice.
pub proof fn law_yes_weight_is_tally<T>(s: StoreModel<T>, id: u64)
    requires
        s.wf(),
        s.has_proposal(id),
    ensures
        s.proposal(id).yes_weight == tally(s.proposal(id).voters, s.voters),
        s.proposal(id).voters.no_duplicates(),
        forall|i: int|
            0 <= i < s.proposal(id).voters.len() ==> weight_of(
                s.voters,
                #[trigger] s.proposal(id).voters[i],
            ) is Some,
{
    lemma_stored_consistent(s, id);
}

/// In a well-formed store no proposal has more "yes" weight than the
/// roster has weight in all.
pub proof fn law_yes_weight_bounded<T>(s: StoreModel<T>, id: u64)
    requires
        s.wf(),
        s.has_proposal(id),
    ensures
        s.config is Some,
        s.proposal(id).yes_weight <= total(s.voters) <= s.config->Some_0.total_weight,
{
    lemma_stored_consistent(s, id);
    lemma_tally_bound(s.proposal(id).voters, s.voters);
}

/// In a well-formed store no vote fails for a weight that leaves 64 bits.
pub proof fn law_vote_never_overflows<T>(
    s: StoreModel<T>,
    block: BlockInfo,
    sender: Seq<char>,
    id: u64,
    vote: Vote,
)
    requires
        s.wf(),
    ensures
        after_vote(s, block, sender, id, vote) != Err::<StoreModel<T>, ContractError>(
            ContractError::Std(StdError::Overflow {}),
        ),
{
    if weight_of(s.voters, sender) is Some && s.has_proposal(id) {
        lemma_stored_consistent(s, id);
        let p = s.proposal(id);
        let power = weight_of(s.voters, sender)->Some_0;
        if p.tally_status(s.threshold()) == Status::Open && !p.expires.expired_in(block)
            && !p.voters.contains(sender) && vote == Vote::Yes {
            let all = p.voters.push(sender);
            assert(all.drop_last() =~= p.voters);
            assert(all.last() == sender);
            assert(all.no_duplicates()) by {
                assert forall|a: int, b: int|
                    0 <= a < all.len() && 0 <= b < all.len() && a != b implies all[a]
                    != all[b] by {
                    if a < p.voters.len() {
                        assert(all[a] == p.voters[a]);
                    }
                    if b < p.voters.len() {
                        assert(all[b] == p.voters[b]);
                    }
                }
            }
            assert forall|a: int| 0 <= a < all.len() implies weight_of(
                s.voters,
                #[trigger] all[a],
            ) is Some by {
                if a < p.voters.len() {
                    assert(all[a] == p.voters[a]);
                }
            }
            lemma_tally_bound(all, s.voters);
            assert(tally(all, s.voters) == p.yes_weight + power);
        }
    }
}

/// Whether the second list of voters is the first with voters added
/// behind it.
pub open spec fn extends(before: Seq<Seq<char>>, after: Seq<Seq<char>>) -> bool {
    before.len() <= after.len() && after.take(before.len() as int) == before
}

/// A mutating message on a well-formed store keeps every proposal, moves
/// its stored status forward only (from open to passed or rejected, from
/// passed to executed, never otherwise), removes none of its voters and
/// takes nothing from its "yes" weight.
pub proof fn law_status_advances<T>(
    s: StoreModel<T>,
    block: BlockInfo,
    sender: Seq<char>,
    msg: ExecuteMsg<T>,
    id: u64,
)
    requires
        s.wf(),
        s.has_proposal(id),
        after_message(s, block, sender, msg) is Ok,
    ensures
        ({
            let s2 = after_message(s, block, sender, msg)->Ok_0;
            &&& s2.has_proposal(id)
            &&& s.proposal(id).status.may_become(s2.proposal(id).status)
            &&& s.proposal(id).status.is_final() ==> s2.proposal(id) == s.proposal(id)
            &&& extends(s.proposal(id).voters, s2.proposal(id).voters)
            &&& s.proposal(id).yes_weight <= s2.proposal(id).yes_weight
        }),
{
    let s2 = after_message(s, block, sender, msg)->Ok_0;
    let before = s.proposal(id);
    assert(before.voters.take(before.voters.len() as int) =~= before.voters);
    match msg {
        ExecuteMsg::Propose { title, description, msgs, latest } => {
            let p = s2.proposals.last().1;
            let new_id = (s.proposal_count + 1) as u64;
            assert(!s.has_proposal(new_id)) by {
                if s.has_proposal(new_id) {
                    let k = choose|k: int|
                        0 <= k < s.proposals.len() && (#[trigger] s.proposals[k]).0 == new_id;
                    assert(s.proposals[k].0 <= s.proposal_count);
                }
            }
            assert(s2.proposals =~= s.proposals.push((new_id, p)));
            lemma_pushed(s, s2, new_id, p, id);
        },
        ExecuteMsg::Vote { proposal_id, vote } => {
            lemma_stored_consistent(s, proposal_id);
            let power = weight_of(s.voters, sender)->Some_0;
            let now = s.proposal(proposal_id).after_vote(
                sender,
                power,
                vote,
                block,
                s.threshold(),
            )->Ok_0;
            lemma_with_proposal(s, proposal_id, now, id);
            if id == proposal_id && vote == Vote::Yes {
                assert(now.voters.take(before.voters.len() as int) =~= before.voters);
            }
        },
        ExecuteMsg::Execute { proposal_id } => {
            lemma_stored_consistent(s, proposal_id);
            let now = s.proposal(proposal_id).after_execute(s.threshold())->Ok_0;
            lemma_with_proposal(s, proposal_id, now, id);
        },
        ExecuteMsg::Close { proposal_id } => {
            lemma_stored_consistent(s, proposal_id);
            let now = s.proposal(proposal_id).after_close(block, s.threshold())->Ok_0;
            lemma_with_proposal(s, proposal_id, now, id);
        },
    }
}

/// After a member's yes was taken, no further vote of that member on that
/// proposal is: the second one is refused, whatever it says and whenever
/// it comes. While the proposal is still open and in time, the reason
/// given is that the member has voted already.
pub proof fn law_votes_once<T>(
    s: StoreModel<T>,
    block: BlockInfo,
    sender: Seq<char>,
    id: u64,
    later: BlockInfo,
    again: Vote,
)
    requires
        after_vote(s, block, sender, id, Vote::Yes) is Ok,
    ensures
        ({
            let s1 = after_vote(s, block, sender, id, Vote::Yes)->Ok_0;
            &&& after_vote(s1, later, sender, id, again) is Err
            &&& s1.proposal(id).tally_status(s1.threshold()) == Status::Open
                && !s1.proposal(id).expires.expired_in(later) ==> after_vote(
                s1,
                later,
                sender,
                id,
                again,
            ) == Err::<StoreModel<T>, ContractError>(ContractError::AlreadyVoted {})
        }),
{
    let s1 = after_vote(s, block, sender, id, Vote::Yes)->Ok_0;
    let power = weight_of(s.voters, sender)->Some_0;
    let now = s.proposal(id).after_vote(sender, power, Vote::Yes, block, s.threshold())->Ok_0;
    lemma_with_proposal(s, id, now, id);
    assert(now.voters.last() == sender);
    assert(s1.proposal(id).voters.contains(sender));
}

/// After the actions of a proposal were handed out, they are not handed
/// out again: a second execution is refused for the status of the proposal.
pub proof fn law_executes_once<T>(s: StoreModel<T>, id: u64)
    requires
        after_execute(s, id) is Ok,
    ensures
        after_execute(after_execute(s, id)->Ok_0, id) == Err::<StoreModel<T>, ContractError>(
            ContractError::WrongExecuteStatus {},
        ),
{
    let now = s.proposal(id).after_execute(s.threshold())->Ok_0;
    lemma_with_proposal(s, id, now, id);
}

/// A proposal that was closed cannot be closed again, nor voted on, nor
/// executed.
pub proof fn law_closed_is_final<T>(
    s: StoreModel<T>,
    block: BlockInfo,
    id: u64,
    later: BlockInfo,
    sender: Seq<char>,
    vote: Vote,
)
    requires
        after_close(s, block, id) is Ok,
    ensures
        ({
            let s1 = after_close(s, block, id)->Ok_0;
            &&& after_close(s1, later, id) == Err::<StoreModel<T>, ContractError>(
                ContractError::WrongCloseStatus {},
            )
            &&& after_execute(s1, id) == Err::<StoreModel<T>, ContractError>(
                ContractError::WrongExecuteStatus {},
            )
            &&& after_vote(s1, later, sender, id, vote) is Err
        }),
{
    let now = s.proposal(id).after_close(block, s.threshold())->Ok_0;
    lemma_with_proposal(s, id, now, id);
}

/// A page holds ten entries at most where no limit is asked for, as many
/// as are asked for where that is less than thirty, and thirty otherwise.
pub proof fn law_page_size(limit: Option<u32>)
    ensures
        page_size(limit) <= MAX_LIMIT,
        MAX_LIMIT == 30 && DEFAULT_LIMIT == 10,
        limit is None ==> page_size(limit) == 10,
        limit matches Some(n) ==> page_size(limit) == if n < 30 {
            n as nat
        } else {
            30
        },
{
}

/// The first `n` entries of a sequence are `n` at most, and they are its
/// beginning.
pub proof fn law_first_n<A>(s: Seq<A>, n: nat)
    ensures
        first_n(s, n).len() <= n,
        first_n(s, n).len() <= s.len(),
        forall|i: int| 0 <= i < first_n(s, n).len() ==> first_n(s, n)[i] == s[i],
{
}

/// Whether each entry of the sequence stands before every later one in
/// the order `lt`.
pub open spec fn sorted_by<A>(s: Seq<A>, lt: spec_fn(A, A) -> bool) -> bool {
    forall|i: int, j: int| 0 <= i < j < s.len() ==> lt(s[i], s[j])
}

/// Picking entries out of a sorted sequence leaves them sorted.
pub proof fn lemma_filter_sorted<A>(
    s: Seq<A>,
    wanted: spec_fn(A) -> bool,
    lt: spec_fn(A, A) -> bool,
)
    requires
        sorted_by(s, lt),
    ensures
        sorted_by(s.filter(wanted), lt),
    decreases s.len(),
{
    reveal(Seq::filter);
    if s.len() > 0 {
        let front = s.drop_last();
        assert(sorted_by(front, lt)) by {
            assert forall|i: int, j: int| 0 <= i < j < front.len() implies lt(
                front[i],
                front[j],
            ) by {
                assert(front[i] == s[i] && front[j] == s[j]);
            }
        }
        lemma_filter_sorted(front, wanted, lt);
        let kept = front.filter(wanted);
        if wanted(s.last()) {
            let all = kept.push(s.last());
            assert forall|i: int, j: int| 0 <= i < j < all.len() implies lt(all[i], all[j]) by {
                if j < kept.len() {
                    assert(all[i] == kept[i] && all[j] == kept[j]);
                } else {
                    assert(kept.contains(kept[i]));
                    front.lemma_filter_contains_rev(wanted, kept[i]);
                    let k = choose|k: int| 0 <= k < front.len() && front[k] == kept[i];
                    assert(front[k] == s[k]);
                    assert(lt(s[k], s[s.len() - 1]));
                }
            }
        }
    }
}

/// A page of members holds only members whose address sorts strictly
/// after the cursor, so never the cursor's own; it holds no more than the
/// page size; and where the roster ascends, so does the page.
pub proof fn law_voters_page(
    roster: Roster,
    start_after: Option<Seq<char>>,
    limit: Option<u32>,
)
    ensures
        ({
            let page = first_n(roster.filter(addr_after(start_after)), page_size(limit));
            &&& page.len() <= page_size(limit)
            &&& limit is None ==> page.len() <= 10
            &&& page.len() <= 30
            &&& forall|i: int| 0 <= i < page.len() ==> roster.contains(#[trigger] page[i])
            &&& start_after matches Some(c) ==> forall|i: int|
                0 <= i < page.len() ==> addr_lt(c, (#[trigger] page[i]).0) && page[i].0 != c
            &&& ascending(roster) ==> ascending(page)
        }),
{
    let wanted = addr_after(start_after);
    let found = roster.filter(wanted);
    let page = first_n(found, page_size(limit));
    assert forall|i: int| 0 <= i < page.len() implies roster.contains(#[trigger] page[i]) && wanted(
        page[i],
    ) by {
        assert(page[i] == found[i]);
        roster.lemma_filter_pred(wanted, i);
        assert(found.contains(found[i]));
        roster.lemma_filter_contains_rev(wanted, found[i]);
    }
    if start_after is Some {
        let c = start_after->Some_0;
        assert forall|i: int| 0 <= i < page.len() implies addr_lt(c, (#[trigger] page[i]).0)
            && page[i].0 != c by {
            assert(wanted(page[i]));
            lemma_addr_order(c, c, c);
        }
    }
    if ascending(roster) {
        let lt = |a: (Seq<char>, u64), b: (Seq<char>, u64)| addr_lt(a.0, b.0);
        assert(sorted_by(roster, lt));
        lemma_filter_sorted(roster, wanted, lt);
        assert forall|i: int, j: int| 0 <= i < j < page.len() implies addr_lt(
            page[i].0,
            page[j].0,
        ) by {
            assert(page[i] == found[i] && page[j] == found[j]);
            assert(lt(found[i], found[j]));
        }
    }
}

/// A page of proposals holds only proposals whose id lies strictly after
/// the cursor, so never the cursor's own; it holds no more than the page
/// size; and where the ids of the store ascend, so do those of the page.
pub proof fn law_proposals_page<T>(
    s: StoreModel<T>,
    start_after: Option<u64>,
    limit: Option<u32>,
)
    ensures
        ({
            let page = first_n(s.proposals.filter(id_after(start_after)), page_size(limit));
            &&& page.len() <= page_size(limit)
            &&& limit is None ==> page.len() <= 10
            &&& page.len() <= 30
            &&& forall|i: int| 0 <= i < page.len() ==> s.proposals.contains(#[trigger] page[i])
            &&& start_after matches Some(c) ==> forall|i: int|
                0 <= i < page.len() ==> (#[trigger] page[i]).0 > c
            &&& s.wf() ==> forall|i: int, j: int|
                0 <= i < j < page.len() ==> (#[trigger] page[i]).0 < (#[trigger] page[j]).0
        }),
{
    let wanted = id_after::<T>(start_after);
    let found = s.proposals.filter(wanted);
    let page = first_n(found, page_size(limit));
    assert forall|i: int| 0 <= i < page.len() implies s.proposals.contains(#[trigger] page[i])
        && wanted(page[i]) by {
        assert(page[i] == found[i]);
        s.proposals.lemma_filter_pred(wanted, i);
        assert(found.contains(found[i]));
        s.proposals.lemma_filter_contains_rev(wanted, found[i]);
    }
    if start_after is Some {
        let c = start_after->Some_0;
        assert forall|i: int| 0 <= i < page.len() implies (#[trigger] page[i]).0 > c by {
            assert(wanted(page[i]));
        }
    }
    if s.wf() {
        let lt = |a: (u64, ProposalView<T>), b: (u64, ProposalView<T>)| a.0 < b.0;
        assert(sorted_by(s.proposals, lt));
        lemma_filter_sorted(s.proposals, wanted, lt);
        assert forall|i: int, j: int| 0 <= i < j < page.len() implies (#[trigger] page[i]).0 < (
        #[trigger] page[j]).0 by {
            assert(page[i] == found[i] && page[j] == found[j]);
            assert(lt(found[i], found[j]));
        }
    }
}

/// A page of the reverse listing holds only proposals whose id lies
/// strictly before the cursor; it holds no more than the page size; and
/// where the ids of the store ascend, those of the page descend.
pub proof fn law_reverse_page<T>(
    s: StoreModel<T>,
    start_before: Option<u64>,
    limit: Option<u32>,
)
    ensures
        ({
            let page = first_n(
                s.proposals.reverse().filter(id_before(start_before)),
                page_size(limit),
            );
            &&& page.len() <= page_size(limit)
            &&& limit is None ==> page.len() <= 10
            &&& page.len() <= 30
            &&& forall|i: int| 0 <= i < page.len() ==> s.proposals.contains(#[trigger] page[i])
            &&& start_before matches Some(c) ==> forall|i: int|
                0 <= i < page.len() ==> (#[trigger] page[i]).0 < c
            &&& s.wf() ==> forall|i: int, j: int|
                0 <= i < j < page.len() ==> (#[trigger] page[i]).0 > (#[trigger] page[j]).0
        }),
{
    let wanted = id_before::<T>(start_before);
    let back = s.proposals.reverse();
    let found = back.filter(wanted);
    let page = first_n(found, page_size(limit));
    assert forall|i: int| 0 <= i < page.len() implies s.proposals.contains(#[trigger] page[i])
        && wanted(page[i]) by {
        assert(page[i] == found[i]);
        back.lemma_filter_pred(wanted, i);
        assert(found.contains(found[i]));
        back.lemma_filter_contains_rev(wanted, found[i]);
        let k = choose|k: int| 0 <= k < back.len() && back[k] == found[i];
        assert(back[k] == s.proposals[s.proposals.len() - 1 - k]);
    }
    if start_before is Some {
        let c = start_before->Some_0;
        assert forall|i: int| 0 <= i < page.len() implies (#[trigger] page[i]).0 < c by {
            assert(wanted(page[i]));
        }
    }
    if s.wf() {
        let gt = |a: (u64, ProposalView<T>), b: (u64, ProposalView<T>)| a.0 > b.0;
        assert(sorted_by(back, gt)) by {
            assert forall|i: int, j: int| 0 <= i < j < back.len() implies gt(back[i], back[j]) by {
                let n = s.proposals.len() as int;
                assert(back[i] == s.proposals[n - 1 - i]);
                assert(back[j] == s.proposals[n - 1 - j]);
                assert(s.proposals[n - 1 - j].0 < s.proposals[n - 1 - i].0);
            }
        }
        lemma_filter_sorted(back, wanted, gt);
        assert forall|i: int, j: int| 0 <= i < j < page.len() implies (#[trigger] page[i]).0 > (
        #[trigger] page[j]).0 by {
            assert(page[i] == found[i] && page[j] == found[j]);
            assert(gt(found[i], found[j]));
        }
    }
}

/// A page of recorded votes holds no more than the page size, shows votes
/// of the proposal's voters in the order in which they were cast, and,
/// where nobody is recorded twice, never the vote of the cursor.
pub proof fn law_votes_page(
    voters: Seq<Seq<char>>,
    start_after: Option<Seq<char>>,
    limit: Option<u32>,
)
    ensures
        ({
            let page = votes_page(voters, start_after, limit);
            let from = resume_point(voters, start_after);
            &&& page.len() <= page_size(limit)
            &&& limit is None ==> page.len() <= 10
            &&& page.len() <= 30
            &&& 0 <= from <= voters.len()
            &&& forall|i: int|
                0 <= i < page.len() ==> #[trigger] page[i] == (voters[from + i], Vote::Yes, 0u64)
            &&& voters.no_duplicates() && start_after is Some ==> forall|i: int|
                0 <= i < page.len() ==> (#[trigger] page[i]).0 != start_after->Some_0
        }),
{
    let page = votes_page(voters, start_after, limit);
    let from = resume_point(voters, start_after);
    if start_after is Some && voters.contains(start_after->Some_0) {
        let c = start_after->Some_0;
        let w = choose|k: int| 0 <= k < voters.len() && voters[k] == c;
        lemma_first_vote(voters, c, w);
        let k = first_place(voters, c);
        assert(first_at(voters, c, k));
        if voters.no_duplicates() {
            assert forall|i: int| 0 <= i < page.len() implies (#[trigger] page[i]).0 != c by {
                assert(page[i] == yes_votes(voters.skip(from))[i]);
                assert(voters[from + i] != voters[k]);
            }
        }
    } else if start_after is Some {
        let c = start_after->Some_0;
        assert forall|i: int| 0 <= i < page.len() implies (#[trigger] page[i]).0 != c by {
            assert(page[i] == yes_votes(voters.skip(from))[i]);
            assert(voters[from + i] != c);
        }
    }
    assert forall|i: int| 0 <= i < page.len() implies #[trigger] page[i] == (
        voters[from + i],
        Vote::Yes,
        0u64,
    ) by {
        assert(page[i] == yes_votes(voters.skip(from))[i]);
    }
}

/// A voter that stands somewhere in the list stands somewhere first.
proof fn lemma_first_vote(list: Seq<Seq<char>>, who: Seq<char>, k: int)
    requires
        0 <= k < list.len(),
        list[k] == who,
    ensures
        first_at(list, who, first_place(list, who)),
    decreases k,
{
    if exists|j: int| 0 <= j < k && list[j] == who {
        let j = choose|j: int| 0 <= j < k && list[j] == who;
        lemma_first_vote(list, who, j);
    } else {
        assert(first_at(list, who, k));
    }
}

/// Eight bytes are the key of the id they spell.
pub proof fn law_key_of_id(key: Seq<u8>)
    requires
        key.len() == 8,
    ensures
        0 <= key_id(key) <= u64::MAX,
        id_key(key_id(key) as u64) == key,
{
    let id = key_id(key) as u64;
    lemma_shift_bytes(id);
    let t1 = key[0] * 0x100 + key[1];
    let t2 = t1 * 0x100 + key[2];
    let t3 = t2 * 0x100 + key[3];
    let t4 = t3 * 0x100 + key[4];
    let t5 = t4 * 0x100 + key[5];
    let t6 = t5 * 0x100 + key[6];
    assert(id == t6 * 0x100 + key[7]);
    assert(id / 0x100 == t6 && id % 0x100 == key[7]);
    assert(t6 / 0x100 == t5 && t6 % 0x100 == key[6]);
    assert(t5 / 0x100 == t4 && t5 % 0x100 == key[5]);
    assert(t4 / 0x100 == t3 && t4 % 0x100 == key[4]);
    assert(t3 / 0x100 == t2 && t3 % 0x100 == key[3]);
    assert(t2 / 0x100 == t1 && t2 % 0x100 == key[2]);
    assert(t1 / 0x100 == key[0] && t1 % 0x100 == key[1]);
    assert(id_key(id) =~= key);
}

/// The keys of proposals sort as their ids do: a scan over the keys in
/// byte order meets the proposals in the order of their ids.
pub proof fn law_keys_sort_as_ids(a: u64, b: u64)
    ensures
        bytes_lt(id_key(a), id_key(b)) <==> a < b,
{
    lemma_id_key_roundtrip(a);
    lemma_id_key_roundtrip(b);
    lemma_key_order(id_key(a), id_key(b));
}

/// Where every clone of an action is the action itself, a batch of clones
/// is the batch.
pub proof fn law_exact_clones<T: Clone>(from: Seq<T>, to: Seq<T>)
    requires
        cloned_all(from, to),
        forall|a: T, b: T| #[trigger] cloned(a, b) ==> a == b,
    ensures
        from == to,
{
    assert(from =~= to);
}

} // verus!
