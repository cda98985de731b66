//! The read-only answers: the rules, proposals, votes and members, one by
//! one or in pages.

use vstd::prelude::*;

use crate::error::StdError;
use crate::expiration::BlockInfo;
use crate::keys::{addr_less, addr_lt, encode_id, key_id, lemma_id_key_roundtrip};
use crate::msg::Vote;
use crate::query::{
    ProposalListResponse, ProposalResponse, ThresholdResponse, VoteInfo, VoteListResponse,
    VoteResponse, VoterDetail, VoterListResponse, VoterResponse,
};
use crate::response::{cloned_all, Env};
use crate::roster::weight_of;
use crate::state::{parse_id, position, Config, Proposal, ProposalView, Store, StoreModel};

verus! {

/// The most entries that one page of a listing holds.
pub const MAX_LIMIT: u32 = 30;

/// The entries on a page where the query names no limit.
pub const DEFAULT_LIMIT: u32 = 10;

/// How many entries a page holds at most: the limit asked for, ten where
/// none is, and never more than thirty.
pub open spec fn page_size(limit: Option<u32>) -> nat {
    let asked = match limit {
        Some(n) => n,
        None => DEFAULT_LIMIT,
    };
    if asked < MAX_LIMIT {
        asked as nat
    } else {
        MAX_LIMIT as nat
    }
}

/// How many entries a page holds at most for the limit that a query
/// names.
pub fn page_limit(limit: Option<u32>) -> (n: usize)
    ensures
        n == page_size(limit),
{
    let asked = match limit {
        Some(n) => n,
        None => DEFAULT_LIMIT,
    };
    if asked < MAX_LIMIT {
        asked as usize
    } else {
        MAX_LIMIT as usize
    }
}

/// The first `n` entries of a sequence; all of it where it has no more.
pub open spec fn first_n<A>(s: Seq<A>, n: nat) -> Seq<A> {
    if s.len() <= n {
        s
    } else {
        s.take(n as int)
    }
}

/// The text of an optional address.
pub open spec fn text_of(a: Option<String>) -> Option<Seq<char>> {
    match a {
        Some(a) => Some(a@),
        None => None,
    }
}

/// The rule of the multisig with rules `cfg`.
pub open spec fn threshold_of(cfg: Config) -> ThresholdResponse {
    ThresholdResponse::AbsoluteCount {
        weight: cfg.threshold_weight,
        total_weight: cfg.total_weight,
    }
}

/// Whether `resp` shows the proposal `p` with id `id` as of `block`: its
/// texts, its expiration, a clone of each action, the rule, and the status
/// that the proposal has in that block under that rule.
pub open spec fn shows<T: Clone>(
    resp: ProposalResponse<T>,
    id: u64,
    p: ProposalView<T>,
    threshold: ThresholdResponse,
    block: BlockInfo,
) -> bool {
    &&& resp.id == id
    &&& resp.title@ == p.title
    &&& resp.description@ == p.description
    &&& cloned_all(p.msgs, resp.msgs@)
    &&& resp.status == p.status_in(block, threshold->weight)
    &&& resp.expires == p.expires
    &&& resp.threshold == threshold
}

/// Whether `list` shows the proposals of `page`, one by one.
pub open spec fn shows_all<T: Clone>(
    list: Seq<ProposalResponse<T>>,
    page: Seq<(u64, ProposalView<T>)>,
    threshold: ThresholdResponse,
    block: BlockInfo,
) -> bool {
    &&& list.len() == page.len()
    &&& forall|i: int|
        0 <= i < page.len() ==> shows(#[trigger] list[i], page[i].0, page[i].1, threshold, block)
}

/// The entries whose id lies strictly after the cursor; all where there is
/// no cursor.
pub open spec fn id_after<T>(cursor: Option<u64>) -> spec_fn((u64, ProposalView<T>)) -> bool {
    |e: (u64, ProposalView<T>)|
        match cursor {
            Some(c) => e.0 > c,
            None => true,
        }
}

/// The entries whose id lies strictly before the cursor; all where there
/// is no cursor.
pub open spec fn id_before<T>(cursor: Option<u64>) -> spec_fn((u64, ProposalView<T>)) -> bool {
    |e: (u64, ProposalView<T>)|
        match cursor {
            Some(c) => e.0 < c,
            None => true,
        }
}

/// The members whose address sorts strictly after the cursor; all where
/// there is no cursor.
pub open spec fn addr_after(cursor: Option<Seq<char>>) -> spec_fn((Seq<char>, u64)) -> bool {
    |e: (Seq<char>, u64)|
        match cursor {
            Some(c) => addr_lt(c, e.0),
            None => true,
        }
}

/// The members that a listing answers with, as pairs of address and weight.
pub open spec fn details(voters: Seq<VoterDetail>) -> Seq<(Seq<char>, u64)> {
    voters.map_values(|d: VoterDetail| d@)
}

/// The votes that a listing answers with.
pub open spec fn ballots(votes: Seq<VoteInfo>) -> Seq<(Seq<char>, Vote, u64)> {
    votes.map_values(|v: VoteInfo| v@)
}

/// The recorded votes of a list of voters. Every one is a yes; the weight
/// at the time of the vote is not kept and shown as zero.
pub open spec fn yes_votes(voters: Seq<Seq<char>>) -> Seq<(Seq<char>, Vote, u64)> {
    voters.map_values(|a: Seq<char>| (a, Vote::Yes, 0u64))
}

/// Whether `i` is the first place at which `who` stands in `list`.
pub open spec fn first_at(list: Seq<Seq<char>>, who: Seq<char>, i: int) -> bool {
    &&& 0 <= i < list.len()
    &&& list[i] == who
    &&& forall|j: int| 0 <= j < i ==> list[j] != who
}

/// The first place at which `who` stands in `list`, where it stands there
/// at all.
pub open spec fn first_place(list: Seq<Seq<char>>, who: Seq<char>) -> int {
    choose|i: int| first_at(list, who, i)
}

/// Where a listing of votes resumes: just behind the cursor's first place
/// among the voters, and at the start where there is no cursor or the
/// cursor is no voter.
pub open spec fn resume_point(voters: Seq<Seq<char>>, cursor: Option<Seq<char>>) -> int {
    match cursor {
        Some(a) => if voters.contains(a) {
            first_place(voters, a) + 1
        } else {
            0
        },
        None => 0,
    }
}

/// What `query_threshold` owes.
pub open spec fn threshold_post<T>(
    s: StoreModel<T>,
    r: Result<ThresholdResponse, StdError>,
) -> bool {
    r == match s.config {
        Some(cfg) => Ok::<ThresholdResponse, StdError>(threshold_of(cfg)),
        None => Err(StdError::NotFound {}),
    }
}

/// What `query_proposal` owes.
pub open spec fn proposal_post<T: Clone>(
    s: StoreModel<T>,
    r: Result<ProposalResponse<T>, StdError>,
    block: BlockInfo,
    id: u64,
) -> bool {
    if !s.has_proposal(id) {
        r is Err && r->Err_0 == (StdError::NotFound {})
    } else {
        match s.config {
            None => r is Err && r->Err_0 == (StdError::NotFound {}),
            Some(cfg) => r is Ok && shows(r->Ok_0, id, s.proposal(id), threshold_of(cfg), block),
        }
    }
}

/// What `list_proposals` owes: the first proposals behind the cursor, ids
/// ascending, a page at most.
pub open spec fn list_proposals_post<T: Clone>(
    s: StoreModel<T>,
    r: Result<ProposalListResponse<T>, StdError>,
    block: BlockInfo,
    start_after: Option<u64>,
    limit: Option<u32>,
) -> bool {
    match s.config {
        None => r is Err && r->Err_0 == (StdError::NotFound {}),
        Some(cfg) => r is Ok && shows_all(
            r->Ok_0.proposals@,
            first_n(s.proposals.filter(id_after(start_after)), page_size(limit)),
            threshold_of(cfg),
            block,
        ),
    }
}

/// What `reverse_proposals` owes: the last proposals before the cursor, ids
/// descending, a page at most.
pub open spec fn reverse_proposals_post<T: Clone>(
    s: StoreModel<T>,
    r: Result<ProposalListResponse<T>, StdError>,
    block: BlockInfo,
    start_before: Option<u64>,
    limit: Option<u32>,
) -> bool {
    match s.config {
        None => r is Err && r->Err_0 == (StdError::NotFound {}),
        Some(cfg) => r is Ok && shows_all(
            r->Ok_0.proposals@,
            first_n(s.proposals.reverse().filter(id_before(start_before)), page_size(limit)),
            threshold_of(cfg),
            block,
        ),
    }
}

/// What `query_vote` owes: the voter's yes where it is recorded on the
/// proposal, and nothing where it is not.
pub open spec fn vote_post<T>(
    s: StoreModel<T>,
    r: Result<VoteResponse, StdError>,
    id: u64,
    voter: Seq<char>,
) -> bool {
    if !s.has_proposal(id) {
        r is Err && r->Err_0 == (StdError::NotFound {})
    } else {
        &&& r is Ok
        &&& match vote_on(s.proposal(id).voters, voter) {
            Some(v) => r->Ok_0.vote is Some && r->Ok_0.vote->Some_0@ == v,
            None => r->Ok_0.vote is None,
        }
    }
}

/// What `list_votes` owes: the recorded votes behind the cursor, in the
/// order in which they were cast, a page at most.
pub open spec fn list_votes_post<T>(
    s: StoreModel<T>,
    r: Result<VoteListResponse, StdError>,
    id: u64,
    start_after: Option<Seq<char>>,
    limit: Option<u32>,
) -> bool {
    if !s.has_proposal(id) {
        r is Err && r->Err_0 == (StdError::NotFound {})
    } else {
        r is Ok && ballots(r->Ok_0.votes@) == votes_page(
            s.proposal(id).voters,
            start_after,
            limit,
        )
    }
}

/// What `query_voter` owes.
pub open spec fn voter_post<T>(
    s: StoreModel<T>,
    r: Result<VoterResponse, StdError>,
    addr: Seq<char>,
) -> bool {
    r is Ok && r->Ok_0.weight == weight_of(s.voters, addr)
}

/// What `list_voters` owes: the first members behind the cursor, addresses
/// ascending, a page at most.
pub open spec fn list_voters_post<T>(
    s: StoreModel<T>,
    r: Result<VoterListResponse, StdError>,
    start_after: Option<Seq<char>>,
    limit: Option<u32>,
) -> bool {
    r is Ok && details(r->Ok_0.voters@) == first_n(
        s.voters.filter(addr_after(start_after)),
        page_size(limit),
    )
}

/// The rule of the multisig with rules `cfg`.
pub fn threshold_response(cfg: &Config) -> (r: ThresholdResponse)
    ensures
        r == threshold_of(*cfg),
{
    ThresholdResponse::AbsoluteCount {
        weight: cfg.threshold_weight,
        total_weight: cfg.total_weight,
    }
}

/// The rule by which proposals pass.
pub fn query_threshold<T>(store: &Store<T>) -> (r: Result<ThresholdResponse, StdError>)
    ensures
        threshold_post(store@, r),
{
    match store.load_config() {
        Ok(cfg) => Ok(threshold_response(&cfg)),
        Err(e) => Err(e),
    }
}

/// Shows a stored proposal under its raw key, with its status as of
/// `block`. Fails with `CorruptedKey` on a key of fewer than eight bytes.
pub fn map_proposal<T: Clone>(
    block: &BlockInfo,
    threshold: &ThresholdResponse,
    key: &[u8],
    prop: &Proposal<T>,
) -> (r: Result<ProposalResponse<T>, StdError>)
    ensures
        key@.len() < 8 ==> r is Err && r->Err_0 == (StdError::CorruptedKey {}),
        key@.len() >= 8 ==> r is Ok && key_id(key@) <= u64::MAX && shows(
            r->Ok_0,
            key_id(key@) as u64,
            prop@,
            *threshold,
            *block,
        ),
{
    let id = match parse_id(key) {
        Ok(id) => id,
        Err(e) => {
            return Err(e);
        },
    };
    Ok(show_proposal(id, prop, threshold, block))
}

/// Shows a proposal under its id, with its status as of `block`.
pub fn show_proposal<T: Clone>(
    id: u64,
    prop: &Proposal<T>,
    threshold: &ThresholdResponse,
    block: &BlockInfo,
) -> (r: ProposalResponse<T>)
    ensures
        shows(r, id, prop@, *threshold, *block),
{
    let weight = match threshold {
        ThresholdResponse::AbsoluteCount { weight, .. } => *weight,
    };
    let status = prop.current_status(block, &weight);
    ProposalResponse {
        id,
        title: prop.title.clone(),
        description: prop.description.clone(),
        msgs: prop.msgs.clone(),
        status,
        expires: prop.expires,
        threshold: *threshold,
    }
}

/// One proposal, with its status as of the block of the query.
pub fn query_proposal<T: Clone>(store: &Store<T>, env: Env, id: u64) -> (r: Result<
    ProposalResponse<T>,
    StdError,
>)
    ensures
        proposal_post(store@, r, env.block, id),
{
    let i = match store.find_proposal(id) {
        Some(i) => i,
        None => {
            return Err(StdError::NotFound {});
        },
    };
    let cfg = match store.load_config() {
        Ok(cfg) => cfg,
        Err(e) => {
            return Err(e);
        },
    };
    let threshold = threshold_response(&cfg);
    Ok(show_proposal(id, store.proposal_at(i), &threshold, &env.block))
}

/// A page of proposals, ids ascending, that starts behind `start_after`.
pub fn list_proposals<T: Clone>(
    store: &Store<T>,
    env: Env,
    start_after: Option<u64>,
    limit: Option<u32>,
) -> (r: Result<ProposalListResponse<T>, StdError>)
    ensures
        list_proposals_post(store@, r, env.block, start_after, limit),
{
    let cfg = match store.load_config() {
        Ok(cfg) => cfg,
        Err(e) => {
            return Err(e);
        },
    };
    let threshold = threshold_response(&cfg);
    let limit = page_limit(limit);
    let n = store.proposal_len();
    let ghost entries = store@.proposals;
    let ghost wanted = id_after::<T>(start_after);
    let mut out: Vec<ProposalResponse<T>> = Vec::new();
    let mut i: usize = 0;
    assert(entries.take(0).filter(wanted).len() == 0) by {
        reveal(Seq::filter);
    }
    while i < n && out.len() < limit
        invariant
            i <= n,
            n == entries.len(),
            entries == store@.proposals,
            wanted == id_after::<T>(start_after),
            out.len() <= limit,
            shows_all(out@, entries.take(i as int).filter(wanted), threshold, env.block),
        decreases n - i,
    {
        let id = store.proposal_id_at(i);
        let take = match start_after {
            Some(c) => id > c,
            None => true,
        };
        proof {
            reveal(Seq::filter);
            assert(entries.take(i + 1).drop_last() =~= entries.take(i as int));
            assert(entries.take(i + 1).last() == entries[i as int]);
            assert(take == wanted(entries[i as int]));
        }
        if take {
            let key = encode_id(id);
            proof {
                lemma_id_key_roundtrip(id);
            }
            match map_proposal(&env.block, &threshold, key.as_slice(), store.proposal_at(i)) {
                Ok(resp) => {
                    out.push(resp);
                },
                Err(e) => {
                    return Err(e);
                },
            }
        }
        i += 1;
    }
    proof {
        lemma_page(entries, wanted, i as int, limit as nat);
    }
    Ok(ProposalListResponse { proposals: out })
}

/// A page of proposals, ids descending, that starts before `start_before`.
pub fn reverse_proposals<T: Clone>(
    store: &Store<T>,
    env: Env,
    start_before: Option<u64>,
    limit: Option<u32>,
) -> (r: Result<ProposalListResponse<T>, StdError>)
    ensures
        reverse_proposals_post(store@, r, env.block, start_before, limit),
{
    let cfg = match store.load_config() {
        Ok(cfg) => cfg,
        Err(e) => {
            return Err(e);
        },
    };
    let threshold = threshold_response(&cfg);
    let limit = page_limit(limit);
    let n = store.proposal_len();
    let ghost entries = store@.proposals.reverse();
    let ghost wanted = id_before::<T>(start_before);
    let mut out: Vec<ProposalResponse<T>> = Vec::new();
    let mut k: usize = 0;
    assert(entries.take(0).filter(wanted).len() == 0) by {
        reveal(Seq::filter);
    }
    while k < n && out.len() < limit
        invariant
            k <= n,
            n == entries.len(),
            n == store@.proposals.len(),
            entries == store@.proposals.reverse(),
            wanted == id_before::<T>(start_before),
            out.len() <= limit,
            shows_all(out@, entries.take(k as int).filter(wanted), threshold, env.block),
        decreases n - k,
    {
        let i = n - 1 - k;
        let id = store.proposal_id_at(i);
        let take = match start_before {
            Some(c) => id < c,
            None => true,
        };
        proof {
            reveal(Seq::filter);
            assert(entries[k as int] == store@.proposals[i as int]);
            assert(entries.take(k + 1).drop_last() =~= entries.take(k as int));
            assert(entries.take(k + 1).last() == entries[k as int]);
            assert(take == wanted(entries[k as int]));
        }
        if take {
            let key = encode_id(id);
            proof {
                lemma_id_key_roundtrip(id);
            }
            match map_proposal(&env.block, &threshold, key.as_slice(), store.proposal_at(i)) {
                Ok(resp) => {
                    out.push(resp);
                },
                Err(e) => {
                    return Err(e);
                },
            }
        }
        k += 1;
    }
    proof {
        lemma_page(entries, wanted, k as int, limit as nat);
    }
    Ok(ProposalListResponse { proposals: out })
}

/// A scan that stops at `i` with the page full, or at the end, has found
/// the page.
pub proof fn lemma_page<A>(entries: Seq<A>, wanted: spec_fn(A) -> bool, i: int, limit: nat)
    requires
        0 <= i <= entries.len(),
        entries.take(i).filter(wanted).len() <= limit,
        i < entries.len() ==> entries.take(i).filter(wanted).len() == limit,
    ensures
        entries.take(i).filter(wanted) == first_n(entries.filter(wanted), limit),
{
    assert(entries.take(i) + entries.skip(i) =~= entries);
    Seq::filter_distributes_over_add(entries.take(i), entries.skip(i), wanted);
    let found = entries.take(i).filter(wanted);
    let rest = entries.skip(i).filter(wanted);
    if i == entries.len() {
        assert(entries.take(i) =~= entries);
    } else {
        assert((found + rest).take(limit as int) =~= found);
    }
}

/// The vote of `voter` that is recorded on a proposal: a yes where the
/// voter is among those who said yes, and nothing otherwise.
pub open spec fn vote_on(voters: Seq<Seq<char>>, voter: Seq<char>) -> Option<
    (Seq<char>, Vote, u64),
> {
    if voters.contains(voter) {
        Some((voter, Vote::Yes, 0u64))
    } else {
        None
    }
}

/// The page of recorded votes that resumes behind the cursor.
pub open spec fn votes_page(
    voters: Seq<Seq<char>>,
    start_after: Option<Seq<char>>,
    limit: Option<u32>,
) -> Seq<(Seq<char>, Vote, u64)> {
    first_n(yes_votes(voters.skip(resume_point(voters, start_after))), page_size(limit))
}

/// The vote of `voter` that is recorded on the proposal.
pub fn recorded_vote<T>(prop: &Proposal<T>, voter: String) -> (r: Option<VoteInfo>)
    ensures
        match vote_on(prop@.voters, voter@) {
            Some(v) => r is Some && r->Some_0@ == v,
            None => r is None,
        },
{
    let found = position(&prop.voters, &voter);
    proof {
        let names = prop@.voters;
        if found is Some {
            assert(names[found->Some_0 as int] == voter@);
        } else {
            assert(!names.contains(voter@));
        }
    }
    match found {
        Some(_) => Some(VoteInfo { voter, vote: Vote::Yes, weight: 0 }),
        None => None,
    }
}

/// A page of the votes that are recorded on the proposal, in the order in
/// which they were cast, that starts behind the vote of `start_after`.
pub fn recorded_votes<T>(
    prop: &Proposal<T>,
    start_after: Option<String>,
    limit: Option<u32>,
) -> (votes: Vec<VoteInfo>)
    ensures
        ballots(votes@) == votes_page(prop@.voters, text_of(start_after), limit),
{
    let limit = page_limit(limit);
    let ghost names = prop@.voters;
    let skip: usize = match &start_after {
        Some(a) => match position(&prop.voters, a) {
            Some(at) => {
                proof {
                    assert(names[at as int] == a@);
                    assert forall|k: int| 0 <= k < at implies names[k] != a@ by {
                        assert(prop.voters[k]@ == names[k]);
                    }
                    assert(first_at(names, a@, at as int));
                    lemma_first_at(names, a@, at as int);
                    assert(resume_point(names, Some(a@)) == at + 1);
                }
                at + 1
            },
            None => {
                proof {
                    if names.contains(a@) {
                        let k = choose|k: int| 0 <= k < names.len() && names[k] == a@;
                        assert(prop.voters[k]@ == names[k]);
                    }
                    assert(resume_point(names, Some(a@)) == 0);
                }
                0
            },
        },
        None => 0,
    };
    assert(skip == resume_point(names, text_of(start_after)));
    let n = prop.voters.len();
    let ghost all = yes_votes(names.skip(skip as int));
    let mut out: Vec<VoteInfo> = Vec::new();
    let mut j: usize = skip;
    while j < n && out.len() < limit
        invariant
            skip <= j <= n,
            n == prop.voters.len(),
            n == names.len(),
            names == prop@.voters,
            all == yes_votes(names.skip(skip as int)),
            out.len() == j - skip,
            out.len() <= limit,
            ballots(out@) == all.take(j - skip),
        decreases n - j,
    {
        out.push(VoteInfo { voter: prop.voters[j].clone(), vote: Vote::Yes, weight: 0 });
        assert(ballots(out@) =~= all.take(j - skip).push(all[j - skip]));
        assert(all.take(j + 1 - skip) =~= all.take(j - skip).push(all[j - skip]));
        j += 1;
    }
    assert(ballots(out@) == first_n(all, limit as nat)) by {
        if j == n {
            assert(all.take(j - skip) =~= all);
        }
    }
    out
}

/// Whether `voter` has said yes to a proposal. A vote of another kind is
/// not kept and cannot be shown.
pub fn query_vote<T>(store: &Store<T>, proposal_id: u64, voter: String) -> (r: Result<
    VoteResponse,
    StdError,
>)
    ensures
        vote_post(store@, r, proposal_id, voter@),
{
    let i = match store.find_proposal(proposal_id) {
        Some(i) => i,
        None => {
            return Err(StdError::NotFound {});
        },
    };
    Ok(VoteResponse { vote: recorded_vote(store.proposal_at(i), voter) })
}

/// A page of the recorded votes on a proposal, in the order in which they
/// were cast, that starts behind the vote of `start_after`.
pub fn list_votes<T>(
    store: &Store<T>,
    proposal_id: u64,
    start_after: Option<String>,
    limit: Option<u32>,
) -> (r: Result<VoteListResponse, StdError>)
    ensures
        list_votes_post(store@, r, proposal_id, text_of(start_after), limit),
{
    let i = match store.find_proposal(proposal_id) {
        Some(i) => i,
        None => {
            return Err(StdError::NotFound {});
        },
    };
    Ok(VoteListResponse { votes: recorded_votes(store.proposal_at(i), start_after, limit) })
}

/// The first place at which an address stands is its place.
proof fn lemma_first_at(list: Seq<Seq<char>>, who: Seq<char>, i: int)
    requires
        first_at(list, who, i),
    ensures
        first_place(list, who) == i,
        list.contains(who),
{
    let k = first_place(list, who);
    assert(first_at(list, who, k));
    if k < i {
        assert(list[k] != who);
    } else if i < k {
        assert(list[i] != who);
    }
}

/// The weight of a member, or nothing for anybody else.
pub fn query_voter<T>(store: &Store<T>, voter: String) -> (r: Result<VoterResponse, StdError>)
    ensures
        voter_post(store@, r, voter@),
{
    let weight = store.may_load_voter(&voter);
    Ok(VoterResponse { weight })
}

/// A page of members, addresses ascending, that starts behind
/// `start_after`.
pub fn list_voters<T>(store: &Store<T>, start_after: Option<String>, limit: Option<u32>) -> (r:
    Result<VoterListResponse, StdError>)
    ensures
        list_voters_post(store@, r, text_of(start_after), limit),
{
    let limit = page_limit(limit);
    let n = store.voter_count();
    let ghost entries = store@.voters;
    let ghost wanted = addr_after(text_of(start_after));
    let mut out: Vec<VoterDetail> = Vec::new();
    let mut i: usize = 0;
    assert(entries.take(0).filter(wanted) =~= Seq::empty()) by {
        reveal(Seq::filter);
    }
    while i < n && out.len() < limit
        invariant
            i <= n,
            n == entries.len(),
            entries == store@.voters,
            wanted == addr_after(text_of(start_after)),
            out.len() <= limit,
            details(out@) == entries.take(i as int).filter(wanted),
        decreases n - i,
    {
        let d = store.voter_at(i);
        let take = match &start_after {
            Some(c) => addr_less(c, &d.addr),
            None => true,
        };
        proof {
            reveal(Seq::filter);
            assert(entries.take(i + 1).drop_last() =~= entries.take(i as int));
            assert(entries.take(i + 1).last() == entries[i as int]);
            assert(take == wanted(entries[i as int]));
        }
        if take {
            out.push(VoterDetail { addr: d.addr.clone(), weight: d.weight });
            assert(details(out@) =~= entries.take(i as int).filter(wanted).push(entries[i as int]));
        }
        i += 1;
    }
    proof {
        lemma_page(entries, wanted, i as int, limit as nat);
    }
    Ok(VoterListResponse { voters: out })
}

} // verus!
