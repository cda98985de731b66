//! What a multisig keeps: its rules, its proposals with their life cycle,
//! and the store that holds them together with the roster.

use vstd::prelude::*;

use crate::error::{ContractError, StdError};
use crate::expiration::{BlockInfo, Duration, Expiration};
use crate::keys::key_id;
use crate::msg::Vote;
use crate::query::{Status, VoterDetail};
use crate::roster::{ascending, tally, total, upsert, weight_of, Roster};

verus! {

/// The rules of one multisig. Set once, when it is set up.
#[derive(Clone, Copy, Debug, PartialEq, Eq, Structural)]
pub struct Config {
    /// The "yes" weight that passes a proposal.
    pub threshold_weight: u64,
    /// The weight of the whole roster.
    pub total_weight: u64,
    /// The longest a proposal may stay open.
    pub max_voting_period: Duration,
}

/// A batch of actions that the members vote on.
#[derive(Clone, Debug, PartialEq)]
pub struct Proposal<T> {
    pub title: String,
    pub description: String,
    pub expires: Expiration,
    /// The actions, handed out unread when the proposal is executed.
    pub msgs: Vec<T>,
    /// The status as last written. It may lag behind: see `current_status`.
    pub status: Status,
    /// Who said yes, in the order in which they did.
    pub voters: Vec<String>,
    /// The weight of those who said yes.
    pub yes_weight: u64,
}

/// A proposal as a mathematical value.
#[verifier::ext_equal]
pub struct ProposalView<T> {
    pub title: Seq<char>,
    pub description: Seq<char>,
    pub expires: Expiration,
    pub msgs: Seq<T>,
    pub status: Status,
    pub voters: Seq<Seq<char>>,
    pub yes_weight: u64,
}

impl<T> View for Proposal<T> {
    type V = ProposalView<T>;

    open spec fn view(&self) -> ProposalView<T> {
        ProposalView {
            title: self.title@,
            description: self.description@,
            expires: self.expires,
            msgs: self.msgs@,
            status: self.status,
            voters: self.voters@.map_values(|a: String| a@),
            yes_weight: self.yes_weight,
        }
    }
}

impl<T> ProposalView<T> {
    /// The status once the votes are counted: an open proposal whose "yes"
    /// weight has reached the threshold has passed.
    pub open spec fn tally_status(self, threshold_weight: u64) -> Status {
        if self.status == Status::Open && self.yes_weight >= threshold_weight {
            Status::Passed
        } else {
            self.status
        }
    }

    /// The status as of `block`: the counted status, but rejected where the
    /// proposal is still open and its time is up.
    pub open spec fn status_in(self, block: BlockInfo, threshold_weight: u64) -> Status {
        if self.tally_status(threshold_weight) == Status::Open && self.expires.expired_in(block) {
            Status::Rejected
        } else {
            self.tally_status(threshold_weight)
        }
    }

    /// The proposal after `voter`, of weight `vote_power`, has cast `vote`
    /// in `block`, or why the vote is refused.
    pub open spec fn after_vote(
        self,
        voter: Seq<char>,
        vote_power: u64,
        vote: Vote,
        block: BlockInfo,
        threshold_weight: u64,
    ) -> Result<ProposalView<T>, ContractError> {
        if self.tally_status(threshold_weight) != Status::Open {
            Err(ContractError::NotOpen {})
        } else if self.expires.expired_in(block) {
            Err(ContractError::Expired {})
        } else if self.voters.contains(voter) {
            Err(ContractError::AlreadyVoted {})
        } else if vote != Vote::Yes {
            Ok(self)
        } else if self.yes_weight + vote_power > u64::MAX {
            Err(ContractError::Std(StdError::Overflow {}))
        } else {
            Ok(
                ProposalView {
                    voters: self.voters.push(voter),
                    yes_weight: (self.yes_weight + vote_power) as u64,
                    status: if self.yes_weight + vote_power >= threshold_weight {
                        Status::Passed
                    } else {
                        self.status
                    },
                    ..self
                },
            )
        }
    }

    /// The proposal after its actions were handed out, or why they are not.
    pub open spec fn after_execute(self, threshold_weight: u64) -> Result<
        ProposalView<T>,
        ContractError,
    > {
        if self.tally_status(threshold_weight) != Status::Passed {
            Err(ContractError::WrongExecuteStatus {})
        } else {
            Ok(ProposalView { status: Status::Executed, ..self })
        }
    }

    /// The proposal after it was closed in `block`, or why it is not.
    pub open spec fn after_close(self, block: BlockInfo, threshold_weight: u64) -> Result<
        ProposalView<T>,
        ContractError,
    > {
        if self.tally_status(threshold_weight) != Status::Open {
            Err(ContractError::WrongCloseStatus {})
        } else if !self.expires.expired_in(block) {
            Err(ContractError::NotExpired {})
        } else {
            Ok(ProposalView { status: Status::Rejected, ..self })
        }
    }
}

/// The proposal that `sender` opens in `block`, or why none is opened.
/// `vote_power` is the sender's weight, or nothing for a non-member.
pub open spec fn drafted<T>(
    cfg: Config,
    block: BlockInfo,
    sender: Seq<char>,
    vote_power: Option<u64>,
    title: Seq<char>,
    description: Seq<char>,
    msgs: Seq<T>,
    latest: Option<Expiration>,
) -> Result<ProposalView<T>, ContractError> {
    let power = match vote_power {
        Some(w) => w,
        None => 0,
    };
    match cfg.max_voting_period.end(block) {
        None => Err(ContractError::Std(StdError::Overflow {})),
        Some(max_expires) => {
            let wanted = match latest {
                Some(e) => e,
                None => max_expires,
            };
            match wanted.capped(max_expires) {
                None => Err(ContractError::WrongExpiration {}),
                Some(expires) => Ok(
                    ProposalView {
                        title,
                        description,
                        expires,
                        msgs,
                        status: if power < cfg.threshold_weight {
                            Status::Open
                        } else {
                            Status::Passed
                        },
                        voters: if power > 0 {
                            seq![sender]
                        } else {
                            Seq::empty()
                        },
                        yes_weight: power,
                    },
                ),
            }
        },
    }
}

/// Where `who` first stands in a list of addresses.
pub fn position(list: &Vec<String>, who: &String) -> (r: Option<usize>)
    ensures
        match r {
            Some(i) => i < list.len() && list[i as int]@ == who@ && forall|j: int|
                0 <= j < i ==> list[j]@ != who@,
            None => forall|j: int| 0 <= j < list.len() ==> list[j]@ != who@,
        },
{
    let mut i: usize = 0;
    while i < list.len()
        invariant
            i <= list.len(),
            forall|j: int| 0 <= j < i ==> list[j]@ != who@,
        decreases list.len() - i,
    {
        if list[i] == *who {
            return Some(i);
        }
        i += 1;
    }
    None
}

impl<T> Proposal<T> {
    /// The status of the proposal as of `block`. The stored status alone
    /// does not tell: a proposal that ran out of time stays stored as open
    /// until it is closed.
    pub fn current_status(&self, block: &BlockInfo, threshold_weight: &u64) -> (status: Status)
        ensures
            status == self@.status_in(*block, *threshold_weight),
    {
        let mut status = self.tally_status(*threshold_weight);
        if status == Status::Open && self.expires.is_expired(block) {
            status = Status::Rejected;
        }
        status
    }

    /// The status once the votes are counted, whatever the time.
    pub fn tally_status(&self, threshold_weight: u64) -> (status: Status)
        ensures
            status == self@.tally_status(threshold_weight),
    {
        if self.status == Status::Open && self.yes_weight >= threshold_weight {
            Status::Passed
        } else {
            self.status
        }
    }

    /// Opens a proposal. It expires at `latest`, or at the end of the
    /// longest voting period where `latest` is later or absent. A sender who
    /// is a member has said yes by proposing.
    pub fn draft(
        cfg: &Config,
        block: &BlockInfo,
        sender: &String,
        vote_power: Option<u64>,
        title: String,
        description: String,
        msgs: Vec<T>,
        latest: Option<Expiration>,
    ) -> (r: Result<Proposal<T>, ContractError>)
        ensures
            match drafted(*cfg, *block, sender@, vote_power, title@, description@, msgs@, latest) {
                Ok(p) => r is Ok && r->Ok_0@ == p,
                Err(e) => r is Err && r->Err_0 == e,
            },
    {
        let power = match vote_power {
            Some(w) => w,
            None => 0,
        };
        let max_expires = match cfg.max_voting_period.after(block) {
            Ok(e) => e,
            Err(e) => {
                return Err(ContractError::Std(e));
            },
        };
        let wanted = match latest {
            Some(e) => e,
            None => max_expires,
        };
        let expires = match wanted.cap_at(max_expires) {
            Some(e) => e,
            None => {
                return Err(ContractError::WrongExpiration {});
            },
        };
        let status = if power < cfg.threshold_weight {
            Status::Open
        } else {
            Status::Passed
        };
        let mut voters: Vec<String> = Vec::new();
        if power > 0 {
            voters.push(sender.clone());
        }
        let prop = Proposal {
            title,
            description,
            expires,
            msgs,
            status,
            voters,
            yes_weight: power,
        };
        assert(prop@.voters =~= if power > 0 {
            seq![sender@]
        } else {
            Seq::empty()
        });
        Ok(prop)
    }

    /// Casts `vote` for `voter`, a member of weight `vote_power`. Only a
    /// yes changes the proposal; any other vote is checked and dropped.
    /// The result says whether the proposal was changed and is to be
    /// written back.
    pub fn vote(
        &mut self,
        voter: &String,
        vote_power: u64,
        vote: Vote,
        block: &BlockInfo,
        threshold_weight: u64,
    ) -> (r: Result<bool, ContractError>)
        ensures
            match old(self)@.after_vote(voter@, vote_power, vote, *block, threshold_weight) {
                Ok(p) => r == Ok::<bool, ContractError>(vote == Vote::Yes) && final(self)@ == p,
                Err(e) => r == Err::<bool, ContractError>(e) && *final(self) == *old(self),
            },
    {
        if self.tally_status(threshold_weight) != Status::Open {
            return Err(ContractError::NotOpen {});
        }
        if self.expires.is_expired(block) {
            return Err(ContractError::Expired {});
        }
        let found = position(&self.voters, voter);
        proof {
            let names = self@.voters;
            if found is Some {
                assert(names[found->Some_0 as int] == voter@);
            } else {
                assert(!names.contains(voter@));
            }
        }
        if found.is_some() {
            return Err(ContractError::AlreadyVoted {});
        }
        if vote != Vote::Yes {
            return Ok(false);
        }
        let sum = match self.yes_weight.checked_add(vote_power) {
            Some(sum) => sum,
            None => {
                return Err(ContractError::Std(StdError::Overflow {}));
            },
        };
        self.voters.push(voter.clone());
        self.yes_weight = sum;
        if sum >= threshold_weight {
            self.status = Status::Passed;
        }
        assert(self@.voters =~= old(self)@.voters.push(voter@));
        Ok(true)
    }

    /// Marks a passed proposal as executed. The caller hands out `msgs`.
    pub fn execute(&mut self, threshold_weight: u64) -> (r: Result<(), ContractError>)
        ensures
            match old(self)@.after_execute(threshold_weight) {
                Ok(p) => r is Ok && final(self)@ == p,
                Err(e) => r == Err::<(), ContractError>(e) && *final(self) == *old(self),
            },
    {
        if self.tally_status(threshold_weight) != Status::Passed {
            return Err(ContractError::WrongExecuteStatus {});
        }
        self.status = Status::Executed;
        Ok(())
    }

    /// Marks an open proposal whose time is up as rejected.
    pub fn close(&mut self, block: &BlockInfo, threshold_weight: u64) -> (r: Result<
        (),
        ContractError,
    >)
        ensures
            match old(self)@.after_close(*block, threshold_weight) {
                Ok(p) => r is Ok && final(self)@ == p,
                Err(e) => r == Err::<(), ContractError>(e) && *final(self) == *old(self),
            },
    {
        if self.tally_status(threshold_weight) != Status::Open {
            return Err(ContractError::WrongCloseStatus {});
        }
        if !self.expires.is_expired(block) {
            return Err(ContractError::NotExpired {});
        }
        self.status = Status::Rejected;
        Ok(())
    }
}

/// Reads a proposal id from the first eight bytes of a key. Fails with
/// `CorruptedKey` on a key of fewer than eight bytes.
pub fn parse_id(key: &[u8]) -> (r: Result<u64, StdError>)
    ensures
        key@.len() >= 8 ==> r == Ok::<u64, StdError>(key_id(key@) as u64) && key_id(key@)
            <= u64::MAX,
        key@.len() < 8 ==> r == Err::<u64, StdError>(StdError::CorruptedKey {}),
{
    if key.len() < 8 {
        return Err(StdError::CorruptedKey {});
    }
    let b0: u64 = key[0] as u64;
    let b1: u64 = key[1] as u64;
    let b2: u64 = key[2] as u64;
    let b3: u64 = key[3] as u64;
    let b4: u64 = key[4] as u64;
    let b5: u64 = key[5] as u64;
    let b6: u64 = key[6] as u64;
    let b7: u64 = key[7] as u64;
    Ok(
        b0 * 0x100_0000_0000_0000 + b1 * 0x1_0000_0000_0000 + b2 * 0x100_0000_0000 + b3
            * 0x1_0000_0000 + b4 * 0x100_0000 + b5 * 0x1_0000 + b6 * 0x100 + b7,
    )
}

impl<T> ProposalView<T> {
    /// Whether the proposal agrees with the roster and the threshold: nobody
    /// is counted twice, everybody counted is a member, the "yes" weight is
    /// the weight of those counted, and the stored status says on which side
    /// of the threshold that weight lies.
    pub open spec fn consistent(self, roster: Roster, threshold_weight: u64) -> bool {
        &&& self.voters.no_duplicates()
        &&& forall|i: int|
            0 <= i < self.voters.len() ==> weight_of(roster, #[trigger] self.voters[i]) is Some
        &&& self.yes_weight == tally(self.voters, roster)
        &&& (self.status == Status::Open || self.status == Status::Rejected)
            ==> self.yes_weight < threshold_weight
        &&& (self.status == Status::Passed || self.status == Status::Executed)
            ==> self.yes_weight >= threshold_weight
    }
}

/// Everything one multisig keeps: its rules, its roster, its proposals and
/// the counter that numbers them.
pub struct Store<T> {
    config: Option<Config>,
    proposal_count: u64,
    voters: Vec<VoterDetail>,
    proposals: Vec<(u64, Proposal<T>)>,
}

/// A store as a mathematical value.
#[verifier::ext_equal]
pub struct StoreModel<T> {
    /// The rules, once the multisig is set up.
    pub config: Option<Config>,
    /// The id of the newest proposal; zero before the first.
    pub proposal_count: u64,
    /// The members, ascending by address.
    pub voters: Roster,
    /// The proposals with their ids, ascending by id.
    pub proposals: Seq<(u64, ProposalView<T>)>,
}

impl<T> View for Store<T> {
    type V = StoreModel<T>;

    closed spec fn view(&self) -> StoreModel<T> {
        StoreModel {
            config: self.config,
            proposal_count: self.proposal_count,
            voters: self.voters@.map_values(|d: VoterDetail| d@),
            proposals: self.proposals@.map_values(|e: (u64, Proposal<T>)| (e.0, e.1@)),
        }
    }
}

impl<T> StoreModel<T> {
    /// The store of a multisig that was not set up yet.
    pub open spec fn empty() -> StoreModel<T> {
        StoreModel {
            config: None,
            proposal_count: 0,
            voters: Seq::empty(),
            proposals: Seq::empty(),
        }
    }

    /// Whether a proposal is filed under `id`.
    pub open spec fn has_proposal(self, id: u64) -> bool {
        exists|i: int| 0 <= i < self.proposals.len() && (#[trigger] self.proposals[i]).0 == id
    }

    /// Whether `i` is the first place at which the proposal `id` stands.
    pub open spec fn stands_at(self, id: u64, i: int) -> bool {
        &&& 0 <= i < self.proposals.len()
        &&& self.proposals[i].0 == id
        &&& forall|j: int| 0 <= j < i ==> (#[trigger] self.proposals[j]).0 != id
    }

    /// The first place at which the proposal `id` stands.
    pub open spec fn index_of(self, id: u64) -> int {
        choose|i: int| self.stands_at(id, i)
    }

    /// The weight that passes a proposal; zero before the multisig is set
    /// up.
    pub open spec fn threshold(self) -> u64 {
        match self.config {
            Some(cfg) => cfg.threshold_weight,
            None => 0,
        }
    }

    /// The proposal that is filed under `id`, where there is one.
    pub open spec fn proposal(self, id: u64) -> ProposalView<T> {
        self.proposals[self.index_of(id)].1
    }

    /// The store with `p` in the place of proposal `id`.
    pub open spec fn with_proposal(self, id: u64, p: ProposalView<T>) -> StoreModel<T> {
        StoreModel { proposals: self.proposals.update(self.index_of(id), (id, p)), ..self }
    }

    /// What holds of every store that the operations of this crate leave
    /// behind.
    pub open spec fn wf(self) -> bool {
        &&& ascending(self.voters)
        &&& forall|i: int| 0 <= i < self.voters.len() ==> (#[trigger] self.voters[i]).1 > 0
        &&& forall|i: int, j: int|
            0 <= i < j < self.proposals.len() ==> (#[trigger] self.proposals[i]).0 < (
            #[trigger] self.proposals[j]).0
        &&& forall|i: int|
            0 <= i < self.proposals.len() ==> 1 <= (#[trigger] self.proposals[i]).0
                <= self.proposal_count
        &&& match self.config {
            None => self.voters.len() == 0 && self.proposals.len() == 0,
            Some(cfg) => {
                &&& cfg.threshold_weight > 0
                &&& cfg.total_weight >= cfg.threshold_weight
                &&& total(self.voters) <= cfg.total_weight
                &&& self.voters.len() > 0
                &&& forall|i: int|
                    0 <= i < self.proposals.len() ==> (#[trigger] self.proposals[i]).1.consistent(
                        self.voters,
                        cfg.threshold_weight,
                    )
            },
        }
    }
}

/// The first place at which an id stands is its place.
pub proof fn lemma_index_of<T>(s: StoreModel<T>, id: u64, i: int)
    requires
        s.stands_at(id, i),
    ensures
        s.has_proposal(id),
        s.index_of(id) == i,
{
    let j = s.index_of(id);
    assert(s.stands_at(id, j));
    if j < i {
        assert(s.proposals[j].0 != id);
    } else if i < j {
        assert(s.proposals[i].0 != id);
    }
}

impl<T> Store<T> {
    /// The store of a multisig that was not set up yet.
    pub fn new() -> (store: Store<T>)
        ensures
            store@ == StoreModel::<T>::empty(),
            store@.wf(),
    {
        let store = Store {
            config: None,
            proposal_count: 0,
            voters: Vec::new(),
            proposals: Vec::new(),
        };
        assert(store@ =~= StoreModel::<T>::empty());
        store
    }

    /// The rules. Fails with `NotFound` before the multisig is set up.
    pub fn load_config(&self) -> (r: Result<Config, StdError>)
        ensures
            r == match self@.config {
                Some(cfg) => Ok::<Config, StdError>(cfg),
                None => Err(StdError::NotFound {}),
            },
    {
        match self.config {
            Some(cfg) => Ok(cfg),
            None => Err(StdError::NotFound {}),
        }
    }

    pub(crate) fn save_config(&mut self, cfg: Config)
        ensures
            final(self)@ == (StoreModel { config: Some(cfg), ..old(self)@ }),
    {
        self.config = Some(cfg);
    }

    /// The id of the newest proposal; zero before the first.
    pub fn proposal_count(&self) -> (n: u64)
        ensures
            n == self@.proposal_count,
    {
        self.proposal_count
    }

    /// The weight of a member, or nothing for anybody else.
    pub fn may_load_voter(&self, addr: &String) -> (r: Option<u64>)
        ensures
            r == weight_of(self@.voters, addr@),
    {
        let ghost roster = self@.voters;
        let mut i: usize = 0;
        assert(roster.skip(0) =~= roster);
        while i < self.voters.len()
            invariant
                i <= self.voters.len(),
                roster == self@.voters,
                roster.len() == self.voters.len(),
                weight_of(roster, addr@) == weight_of(roster.skip(i as int), addr@),
            decreases self.voters.len() - i,
        {
            assert(roster.skip(i as int)[0] == self.voters[i as int]@);
            if self.voters[i].addr == *addr {
                return Some(self.voters[i].weight);
            }
            assert(roster.skip(i as int).drop_first() =~= roster.skip(i + 1));
            i += 1;
        }
        None
    }

    /// Files `addr` at `weight`, in the place of its entry or, where it has
    /// none, before the first address that sorts after it.
    pub(crate) fn save_voter(&mut self, addr: &String, weight: u64)
        ensures
            final(self)@ == (StoreModel {
                voters: upsert(old(self)@.voters, addr@, weight),
                ..old(self)@
            }),
    {
        let ghost roster = self@.voters;
        let mut i: usize = 0;
        assert(roster.skip(0) =~= roster);
        assert(roster.take(0) + upsert(roster, addr@, weight) =~= upsert(roster, addr@, weight));
        while i < self.voters.len()
            invariant
                i <= self.voters.len(),
                *self == *old(self),
                roster == self@.voters,
                roster.len() == self.voters.len(),
                upsert(roster, addr@, weight) == roster.take(i as int) + upsert(
                    roster.skip(i as int),
                    addr@,
                    weight,
                ),
            decreases self.voters.len() - i,
        {
            assert(roster.skip(i as int)[0] == self.voters[i as int]@);
            if self.voters[i].addr == *addr {
                self.voters.set(i, VoterDetail { addr: addr.clone(), weight });
                assert(self@.voters =~= roster.take(i as int) + (seq![(addr@, weight)]
                    + roster.skip(i as int).drop_first()));
                assert(self@ =~= (StoreModel {
                    voters: upsert(old(self)@.voters, addr@, weight),
                    ..old(self)@
                }));
                return ;
            }
            if crate::keys::addr_less(addr, &self.voters[i].addr) {
                self.voters.insert(i, VoterDetail { addr: addr.clone(), weight });
                assert(self@.voters =~= roster.take(i as int) + (seq![(addr@, weight)]
                    + roster.skip(i as int)));
                assert(self@ =~= (StoreModel {
                    voters: upsert(old(self)@.voters, addr@, weight),
                    ..old(self)@
                }));
                return ;
            }
            assert(roster.skip(i as int).drop_first() =~= roster.skip(i + 1));
            assert(roster.take(i as int) + (seq![roster[i as int]] + upsert(
                roster.skip(i + 1),
                addr@,
                weight,
            )) =~= roster.take(i + 1) + upsert(roster.skip(i + 1), addr@, weight));
            i += 1;
        }
        self.voters.push(VoterDetail { addr: addr.clone(), weight });
        assert(self@.voters =~= roster.take(i as int) + seq![(addr@, weight)]);
        assert(self@ =~= (StoreModel {
            voters: upsert(old(self)@.voters, addr@, weight),
            ..old(self)@
        }));
    }

    /// How many members there are.
    pub fn voter_count(&self) -> (n: usize)
        ensures
            n == self@.voters.len(),
    {
        self.voters.len()
    }

    /// The member at place `i` of the roster, which ascends by address.
    pub fn voter_at(&self, i: usize) -> (d: &VoterDetail)
        requires
            i < self@.voters.len(),
        ensures
            d@ == self@.voters[i as int],
    {
        &self.voters[i]
    }

    /// How many proposals there are.
    pub fn proposal_len(&self) -> (n: usize)
        ensures
            n == self@.proposals.len(),
    {
        self.proposals.len()
    }

    /// The id of the proposal at place `i`; the places ascend by id.
    pub fn proposal_id_at(&self, i: usize) -> (id: u64)
        requires
            i < self@.proposals.len(),
        ensures
            id == self@.proposals[i as int].0,
    {
        self.proposals[i].0
    }

    /// The proposal at place `i`; the places ascend by id.
    pub fn proposal_at(&self, i: usize) -> (p: &Proposal<T>)
        requires
            i < self@.proposals.len(),
        ensures
            p@ == self@.proposals[i as int].1,
    {
        &self.proposals[i].1
    }

    /// The first place of the proposal `id`, if there is one.
    pub fn find_proposal(&self, id: u64) -> (r: Option<usize>)
        ensures
            match r {
                Some(i) => self@.has_proposal(id) && self@.index_of(id) == i && i
                    < self@.proposals.len(),
                None => !self@.has_proposal(id),
            },
    {
        let mut i: usize = 0;
        while i < self.proposals.len()
            invariant
                i <= self.proposals.len(),
                self@.proposals.len() == self.proposals.len(),
                forall|j: int| 0 <= j < i ==> (#[trigger] self@.proposals[j]).0 != id,
            decreases self.proposals.len() - i,
        {
            if self.proposals[i].0 == id {
                proof {
                    lemma_index_of(self@, id, i as int);
                }
                return Some(i);
            }
            i += 1;
        }
        None
    }

    /// Files a new proposal behind the others.
    pub(crate) fn add_proposal(&mut self, id: u64, prop: Proposal<T>)
        ensures
            final(self)@ == (StoreModel {
                proposals: old(self)@.proposals.push((id, prop@)),
                ..old(self)@
            }),
    {
        self.proposals.push((id, prop));
        assert(self@ =~= (StoreModel {
            proposals: old(self)@.proposals.push((id, prop@)),
            ..old(self)@
        }));
    }

    /// Casts a vote on the proposal at place `i`.
    pub(crate) fn vote_at(
        &mut self,
        i: usize,
        voter: &String,
        vote_power: u64,
        vote: Vote,
        block: &BlockInfo,
        threshold_weight: u64,
    ) -> (r: Result<bool, ContractError>)
        requires
            i < old(self)@.proposals.len(),
        ensures
            match old(self)@.proposals[i as int].1.after_vote(
                voter@,
                vote_power,
                vote,
                *block,
                threshold_weight,
            ) {
                Ok(p) => r is Ok && final(self)@ == (StoreModel {
                    proposals: old(self)@.proposals.update(
                        i as int,
                        (old(self)@.proposals[i as int].0, p),
                    ),
                    ..old(self)@
                }),
                Err(e) => r == Err::<bool, ContractError>(e) && final(self)@ == old(self)@,
            },
    {
        let (id, mut prop) = self.proposals.remove(i);
        let r = prop.vote(voter, vote_power, vote, block, threshold_weight);
        self.proposals.insert(i, (id, prop));
        assert(self@.proposals =~= old(self)@.proposals.update(i as int, (id, prop@)));
        assert(self@ =~= (StoreModel {
            proposals: old(self)@.proposals.update(i as int, (id, prop@)),
            ..old(self)@
        }));
        if r.is_err() {
            assert(self@ =~= old(self)@);
        }
        r
    }

    /// Marks the proposal at place `i` as executed.
    pub(crate) fn execute_at(&mut self, i: usize, threshold_weight: u64) -> (r: Result<
        (),
        ContractError,
    >)
        requires
            i < old(self)@.proposals.len(),
        ensures
            match old(self)@.proposals[i as int].1.after_execute(threshold_weight) {
                Ok(p) => r is Ok && final(self)@ == (StoreModel {
                    proposals: old(self)@.proposals.update(
                        i as int,
                        (old(self)@.proposals[i as int].0, p),
                    ),
                    ..old(self)@
                }),
                Err(e) => r == Err::<(), ContractError>(e) && final(self)@ == old(self)@,
            },
    {
        let (id, mut prop) = self.proposals.remove(i);
        let r = prop.execute(threshold_weight);
        self.proposals.insert(i, (id, prop));
        assert(self@.proposals =~= old(self)@.proposals.update(i as int, (id, prop@)));
        assert(self@ =~= (StoreModel {
            proposals: old(self)@.proposals.update(i as int, (id, prop@)),
            ..old(self)@
        }));
        if r.is_err() {
            assert(self@ =~= old(self)@);
        }
        r
    }

    /// Marks the proposal at place `i` as rejected.
    pub(crate) fn close_at(&mut self, i: usize, block: &BlockInfo, threshold_weight: u64) -> (r:
        Result<(), ContractError>)
        requires
            i < old(self)@.proposals.len(),
        ensures
            match old(self)@.proposals[i as int].1.after_close(*block, threshold_weight) {
                Ok(p) => r is Ok && final(self)@ == (StoreModel {
                    proposals: old(self)@.proposals.update(
                        i as int,
                        (old(self)@.proposals[i as int].0, p),
                    ),
                    ..old(self)@
                }),
                Err(e) => r == Err::<(), ContractError>(e) && final(self)@ == old(self)@,
            },
    {
        let (id, mut prop) = self.proposals.remove(i);
        let r = prop.close(block, threshold_weight);
        self.proposals.insert(i, (id, prop));
        assert(self@.proposals =~= old(self)@.proposals.update(i as int, (id, prop@)));
        assert(self@ =~= (StoreModel {
            proposals: old(self)@.proposals.update(i as int, (id, prop@)),
            ..old(self)@
        }));
        if r.is_err() {
            assert(self@ =~= old(self)@);
        }
        r
    }
}

/// The proposal id that follows `last`. Fails with `Overflow` behind the
/// largest id.
pub fn next_id(last: u64) -> (r: Result<u64, StdError>)
    ensures
        r == if last < u64::MAX {
            Ok::<u64, StdError>((last + 1) as u64)
        } else {
            Err(StdError::Overflow {})
        },
{
    match last.checked_add(1) {
        Some(id) => Ok(id),
        None => Err(StdError::Overflow {}),
    }
}

/// Takes the next proposal id: one more than the last, starting at one.
/// Fails with `Overflow`, and takes nothing, once the ids are used up.
pub fn consume_next_id<T>(store: &mut Store<T>) -> (r: Result<u64, StdError>)
    ensures
        old(store)@.proposal_count < u64::MAX ==> r == Ok::<u64, StdError>(
            (old(store)@.proposal_count + 1) as u64,
        ) && final(store)@ == (StoreModel {
            proposal_count: (old(store)@.proposal_count + 1) as u64,
            ..old(store)@
        }),
        old(store)@.proposal_count == u64::MAX ==> r == Err::<u64, StdError>(
            StdError::Overflow {},
        ) && final(store)@ == old(store)@,
        old(store)@.wf() ==> final(store)@.wf(),
{
    match next_id(store.proposal_count) {
        Ok(id) => {
            store.proposal_count = id;
            assert(store@ =~= (StoreModel {
                proposal_count: (old(store)@.proposal_count + 1) as u64,
                ..old(store)@
            }));
            Ok(id)
        },
        Err(e) => Err(e),
    }
}

} // verus!
