use fixed_multisig::contract::{
    check_setup, execute, execute_close, execute_execute, execute_propose, execute_vote,
    instantiate, member_weight, plain_response, status_response,
};
use fixed_multisig::queries::{list_proposals, list_voters, query_threshold};
use fixed_multisig::{
    Attribute, BlockInfo, Config, ContractError, Duration, Env, ExecuteMsg, Expiration,
    InstantiateMsg, MessageInfo, Response, Status, StdError, Store, ThresholdResponse, Timestamp,
    Vote, Voter,
};

const WEIGHTS: [(&str, u64); 6] =
    [("admin", 1), ("voter1", 1), ("voter2", 2), ("voter3", 3), ("voter4", 4), ("voter5", 5)];

fn env_at(height: u64) -> Env {
    Env { block: BlockInfo { height, time: Timestamp::from_nanos(1_000) } }
}

fn info(sender: &str) -> MessageInfo {
    MessageInfo { sender: sender.to_string() }
}

fn roster() -> Vec<Voter> {
    WEIGHTS.iter().map(|(addr, weight)| Voter { addr: addr.to_string(), weight: *weight }).collect()
}

fn setup(threshold_weight: u64) -> Store<String> {
    let mut store = Store::new();
    let msg = InstantiateMsg {
        voters: roster(),
        threshold_weight,
        max_voting_period: Duration::Height(100),
    };
    let res = instantiate(&mut store, env_at(1), info("admin"), msg).unwrap();
    assert_eq!(res, Response::new());
    store
}

fn propose(store: &mut Store<String>, sender: &str) -> u64 {
    let res = execute_propose(
        store,
        env_at(1),
        info(sender),
        "title".to_string(),
        "description".to_string(),
        vec!["first".to_string(), "second".to_string()],
        None,
    )
    .unwrap();
    res.attributes[2].value.parse().unwrap()
}

fn weight(addr: &str) -> u64 {
    WEIGHTS.iter().find(|(a, _)| *a == addr).map(|(_, w)| *w).unwrap_or(0)
}

/// Every proposal of the store weighs what its voters weigh, and counts
/// nobody twice.
fn assert_tallies(store: &Store<String>) {
    for i in 0..store.proposal_len() {
        let p = store.proposal_at(i);
        let sum: u64 = p.voters.iter().map(|v| weight(v)).sum();
        assert_eq!(p.yes_weight, sum);
        for (k, v) in p.voters.iter().enumerate() {
            assert!(store.may_load_voter(v).is_some());
            assert!(!p.voters[..k].contains(v));
        }
    }
}

fn statuses(store: &Store<String>) -> Vec<Status> {
    (0..store.proposal_len()).map(|i| store.proposal_at(i).status).collect()
}

fn may_become(from: Status, to: Status) -> bool {
    from == to
        || (from == Status::Open && (to == Status::Passed || to == Status::Rejected))
        || (from == Status::Passed && to == Status::Executed)
}

#[test]
fn setup_checks_in_order() {
    let check = |voters: Vec<Voter>, threshold_weight| {
        check_setup(&InstantiateMsg {
            voters,
            threshold_weight,
            max_voting_period: Duration::Time(5),
        })
    };
    let zero = Voter { addr: "zero".to_string(), weight: 0 };
    let huge = Voter { addr: "huge".to_string(), weight: u64::MAX };
    assert_eq!(check(vec![], 0), Err(ContractError::ZeroWeight {}));
    assert_eq!(check(vec![zero.clone()], 0), Err(ContractError::ZeroWeight {}));
    assert_eq!(check(vec![], 1), Err(ContractError::NoVoters {}));
    assert_eq!(
        check(vec![huge.clone(), huge.clone(), zero.clone()], 1),
        Err(ContractError::VoterZeroWeight {})
    );
    assert_eq!(check(vec![zero], 1), Err(ContractError::VoterZeroWeight {}));
    assert_eq!(
        check(vec![huge.clone(), huge.clone()], 1),
        Err(ContractError::Std(StdError::Overflow {}))
    );
    assert_eq!(check(roster(), 17), Err(ContractError::UnreachableWeight {}));
    assert_eq!(
        check(roster(), 16),
        Ok(Config {
            threshold_weight: 16,
            total_weight: 16,
            max_voting_period: Duration::Time(5)
        })
    );
    assert_eq!(check(vec![huge], u64::MAX).map(|c| c.total_weight), Ok(u64::MAX));
}

#[test]
fn setup_files_the_roster_by_address() {
    let store = setup(4);
    assert_eq!(
        query_threshold(&store),
        Ok(ThresholdResponse::AbsoluteCount { weight: 4, total_weight: 16 })
    );
    let listed = list_voters(&store, None, None).unwrap().voters;
    let names: Vec<&str> = listed.iter().map(|d| d.addr.as_str()).collect();
    assert_eq!(names, vec!["admin", "voter1", "voter2", "voter3", "voter4", "voter5"]);
    for (addr, w) in WEIGHTS {
        assert_eq!(store.may_load_voter(&addr.to_string()), Some(w));
    }
    assert_eq!(store.may_load_voter(&"somebody".to_string()), None);
}

#[test]
fn setup_keeps_the_last_weight_of_a_member_listed_twice() {
    let mut store: Store<String> = Store::new();
    let msg = InstantiateMsg {
        voters: vec![
            Voter { addr: "b".to_string(), weight: 1 },
            Voter { addr: "a".to_string(), weight: 2 },
            Voter { addr: "b".to_string(), weight: 5 },
        ],
        threshold_weight: 8,
        max_voting_period: Duration::Height(1),
    };
    instantiate(&mut store, env_at(1), info("a"), msg).unwrap();
    assert_eq!(store.voter_count(), 2);
    assert_eq!(store.may_load_voter(&"a".to_string()), Some(2));
    assert_eq!(store.may_load_voter(&"b".to_string()), Some(5));
    assert_eq!(store.load_config().unwrap().total_weight, 8);
}

#[test]
fn a_failed_setup_leaves_the_store_empty() {
    let mut store: Store<String> = Store::new();
    let msg = InstantiateMsg {
        voters: roster(),
        threshold_weight: 100,
        max_voting_period: Duration::Height(1),
    };
    assert_eq!(
        instantiate(&mut store, env_at(1), info("a"), msg),
        Err(ContractError::UnreachableWeight {})
    );
    assert_eq!(store.load_config(), Err(StdError::NotFound {}));
    assert_eq!(store.voter_count(), 0);
}

#[test]
fn proposing_passes_at_once_at_the_threshold() {
    let mut store = setup(4);
    assert_eq!(propose(&mut store, "somebody"), 1);
    assert_eq!(propose(&mut store, "voter3"), 2);
    assert_eq!(propose(&mut store, "voter4"), 3);
    assert_eq!(propose(&mut store, "voter5"), 4);
    assert_eq!(statuses(&store), vec![Status::Open, Status::Open, Status::Passed, Status::Passed]);
    assert_eq!(store.proposal_at(0).voters, Vec::<String>::new());
    assert_eq!(store.proposal_at(1).voters, vec!["voter3".to_string()]);
    assert_eq!(store.proposal_at(3).yes_weight, 5);
    assert_eq!(store.proposal_count(), 4);
    assert_tallies(&store);
}

#[test]
fn proposing_needs_the_rules() {
    let mut store: Store<String> = Store::new();
    let r = execute_propose(
        &mut store,
        env_at(1),
        info("a"),
        String::new(),
        String::new(),
        vec![],
        None,
    );
    assert_eq!(r, Err(ContractError::Std(StdError::NotFound {})));
    assert_eq!(store.proposal_count(), 0);
}

#[test]
fn a_proposal_that_is_out_of_time_when_opened_is_answered_as_rejected() {
    let mut store = setup(4);
    let res = execute_propose(
        &mut store,
        env_at(50),
        info("voter1"),
        String::new(),
        String::new(),
        vec![],
        Some(Expiration::AtHeight(50)),
    )
    .unwrap();
    assert_eq!(
        res.attributes[3],
        Attribute { key: "status".to_string(), value: "Rejected".to_string() }
    );
    assert_eq!(store.proposal_at(0).status, Status::Open);
    assert_eq!(store.proposal_at(0).expires, Expiration::AtHeight(50));
}

#[test]
fn yes_weight_is_the_weight_of_the_voters() {
    let mut store = setup(16);
    let a = propose(&mut store, "voter2");
    let b = propose(&mut store, "somebody");
    assert_tallies(&store);
    let steps = [
        ("voter1", a, Vote::Yes),
        ("voter5", b, Vote::Yes),
        ("voter3", a, Vote::No),
        ("voter3", b, Vote::Abstain),
        ("voter4", a, Vote::Yes),
        ("voter3", a, Vote::Yes),
        ("admin", b, Vote::Veto),
        ("admin", b, Vote::Yes),
    ];
    for (sender, id, vote) in steps {
        execute_vote(&mut store, env_at(2), info(sender), id, vote).unwrap();
        assert_tallies(&store);
    }
    assert_eq!(store.proposal_at(0).yes_weight, 2 + 1 + 4 + 3);
    assert_eq!(store.proposal_at(1).yes_weight, 5 + 1);
    assert_eq!(
        store.proposal_at(0).voters,
        vec!["voter2".to_string(), "voter1".to_string(), "voter4".to_string(), "voter3".to_string()]
    );
    // Refused votes change nothing.
    for (sender, id, vote) in steps {
        let r = execute_vote(&mut store, env_at(2), info(sender), id, vote);
        assert!(r.is_err() || vote != Vote::Yes);
        assert_tallies(&store);
    }
    assert_eq!(store.proposal_at(0).yes_weight, 10);
    assert_eq!(store.proposal_at(1).yes_weight, 6);
}

#[test]
fn status_moves_forward_only() {
    let mut store = setup(3);
    let open = propose(&mut store, "admin");
    let passed = propose(&mut store, "voter3");
    let executed = propose(&mut store, "voter4");
    let rejected = propose(&mut store, "voter1");
    execute_execute(&mut store, env_at(1), info("x"), executed).unwrap();
    execute_close(&mut store, env_at(200), info("x"), rejected).unwrap();
    assert_eq!(
        statuses(&store),
        vec![Status::Open, Status::Passed, Status::Executed, Status::Rejected]
    );

    let ids = [open, passed, executed, rejected];
    let mut msgs: Vec<(u64, &str, ExecuteMsg<String>)> = Vec::new();
    for id in ids {
        for height in [1, 200] {
            for sender in ["voter2", "voter5", "somebody"] {
                for vote in [Vote::Yes, Vote::No, Vote::Abstain, Vote::Veto] {
                    msgs.push((height, sender, ExecuteMsg::Vote { proposal_id: id, vote }));
                }
                msgs.push((height, sender, ExecuteMsg::Execute { proposal_id: id }));
                msgs.push((height, sender, ExecuteMsg::Close { proposal_id: id }));
            }
        }
    }
    for (height, sender, msg) in msgs {
        let before = statuses(&store);
        let _ = execute(&mut store, env_at(height), info(sender), msg);
        let after = statuses(&store);
        for (from, to) in before.iter().zip(after.iter()) {
            assert!(may_become(*from, *to), "{:?} became {:?}", from, to);
        }
        assert_eq!(after[2], Status::Executed);
        assert_eq!(after[3], Status::Rejected);
        assert_tallies(&store);
    }
    assert_eq!(
        statuses(&store),
        vec![Status::Executed, Status::Executed, Status::Executed, Status::Rejected]
    );
}

#[test]
fn a_second_yes_is_refused() {
    let mut store = setup(10);
    let id = propose(&mut store, "somebody");
    execute_vote(&mut store, env_at(1), info("voter2"), id, Vote::Yes).unwrap();
    assert_eq!(store.proposal_at(0).yes_weight, 2);
    for vote in [Vote::Yes, Vote::No, Vote::Abstain, Vote::Veto] {
        assert_eq!(
            execute_vote(&mut store, env_at(1), info("voter2"), id, vote),
            Err(ContractError::AlreadyVoted {})
        );
        assert_eq!(store.proposal_at(0).yes_weight, 2);
        assert_eq!(store.proposal_at(0).voters, vec!["voter2".to_string()]);
    }
    // Out of time, that is the reason given.
    assert_eq!(
        execute_vote(&mut store, env_at(101), info("voter2"), id, Vote::Yes),
        Err(ContractError::Expired {})
    );
}

#[test]
fn a_second_yes_on_a_proposal_that_it_passed_is_refused_as_not_open() {
    let mut store = setup(3);
    let id = propose(&mut store, "somebody");
    execute_vote(&mut store, env_at(1), info("voter4"), id, Vote::Yes).unwrap();
    assert_eq!(
        execute_vote(&mut store, env_at(1), info("voter4"), id, Vote::Yes),
        Err(ContractError::NotOpen {})
    );
    assert_eq!(store.proposal_at(0).yes_weight, 4);
}

#[test]
fn a_no_may_be_followed_by_a_yes() {
    let mut store = setup(10);
    let id = propose(&mut store, "somebody");
    execute_vote(&mut store, env_at(1), info("voter2"), id, Vote::No).unwrap();
    execute_vote(&mut store, env_at(1), info("voter2"), id, Vote::No).unwrap();
    assert_eq!(store.proposal_at(0).yes_weight, 0);
    let res = execute_vote(&mut store, env_at(1), info("voter2"), id, Vote::Yes).unwrap();
    assert_eq!(res, status_response("vote", "voter2", id, Status::Open));
    assert_eq!(store.proposal_at(0).yes_weight, 2);
}

#[test]
fn actions_are_handed_out_once() {
    let mut store = setup(3);
    let id = propose(&mut store, "voter3");
    let res = execute_execute(&mut store, env_at(1), info("somebody"), id).unwrap();
    assert_eq!(res.messages, vec!["first".to_string(), "second".to_string()]);
    assert_eq!(
        res,
        plain_response("execute", "somebody", id, vec!["first".to_string(), "second".to_string()])
    );
    assert_eq!(
        execute_execute(&mut store, env_at(1), info("somebody"), id),
        Err(ContractError::WrongExecuteStatus {})
    );
    assert_eq!(
        execute_execute(&mut store, env_at(1), info("voter3"), id),
        Err(ContractError::WrongExecuteStatus {})
    );
    // The proposal keeps its actions.
    assert_eq!(store.proposal_at(0).msgs, vec!["first".to_string(), "second".to_string()]);
    assert_eq!(store.proposal_at(0).status, Status::Executed);
}

#[test]
fn a_passed_proposal_is_executed_also_out_of_time() {
    let mut store = setup(3);
    let id = propose(&mut store, "voter3");
    let res = execute_execute(&mut store, env_at(1_000), info("somebody"), id).unwrap();
    assert_eq!(res.messages.len(), 2);
}

#[test]
fn closing_rejects_for_good() {
    let mut store = setup(3);
    let id = propose(&mut store, "voter1");
    assert_eq!(
        execute_close(&mut store, env_at(100), info("x"), id),
        Err(ContractError::NotExpired {})
    );
    let res = execute_close(&mut store, env_at(101), info("x"), id).unwrap();
    assert_eq!(res, plain_response("close", "x", id, vec![]));
    assert_eq!(store.proposal_at(0).status, Status::Rejected);
    assert_eq!(
        execute_close(&mut store, env_at(101), info("x"), id),
        Err(ContractError::WrongCloseStatus {})
    );
    assert_eq!(
        execute_vote(&mut store, env_at(1), info("voter5"), id, Vote::Yes),
        Err(ContractError::NotOpen {})
    );
    assert_eq!(
        execute_execute(&mut store, env_at(1), info("x"), id),
        Err(ContractError::WrongExecuteStatus {})
    );
}

#[test]
fn operations_on_a_proposal_that_is_not_there_fail() {
    let mut store = setup(3);
    let missing = Err(ContractError::Std(StdError::NotFound {}));
    assert_eq!(execute_vote(&mut store, env_at(1), info("voter1"), 1, Vote::Yes), missing);
    assert_eq!(execute_execute(&mut store, env_at(1), info("voter1"), 1), missing);
    assert_eq!(execute_close(&mut store, env_at(1), info("voter1"), 1), missing);
    // Who is no member learns that first.
    assert_eq!(
        execute_vote(&mut store, env_at(1), info("somebody"), 1, Vote::Yes),
        Err(ContractError::Unauthorized {})
    );
}

#[test]
fn member_weight_is_for_members() {
    assert_eq!(member_weight(Some(3)), Ok(3));
    assert_eq!(member_weight(None), Err(ContractError::Unauthorized {}));
}

#[test]
fn responses_carry_their_tags_in_order() {
    let res: Response<u8> = status_response("vote", "me", 12, Status::Passed);
    let tags: Vec<(&str, &str)> =
        res.attributes.iter().map(|a| (a.key.as_str(), a.value.as_str())).collect();
    assert_eq!(
        tags,
        vec![("action", "vote"), ("sender", "me"), ("proposal_id", "12"), ("status", "Passed")]
    );
    assert_eq!(res.messages, vec![]);

    let res = plain_response("execute", "me", 340, vec![1u8, 2]);
    let tags: Vec<(&str, &str)> =
        res.attributes.iter().map(|a| (a.key.as_str(), a.value.as_str())).collect();
    assert_eq!(tags, vec![("action", "execute"), ("sender", "me"), ("proposal_id", "340")]);
    assert_eq!(res.messages, vec![1, 2]);

    let res = Response::new().add_messages(vec![1u8]).add_messages(vec![2, 3]);
    assert_eq!(res.messages, vec![1, 2, 3]);
}

#[test]
fn pages_never_show_the_cursor_again() {
    let mut store = setup(3);
    for _ in 0..12 {
        propose(&mut store, "somebody");
    }
    let mut seen: Vec<u64> = Vec::new();
    let mut cursor = None;
    loop {
        let page = list_proposals(&store, env_at(1), cursor, Some(5)).unwrap().proposals;
        assert!(page.len() <= 5);
        if page.is_empty() {
            break;
        }
        for p in &page {
            assert!(cursor.map_or(true, |c| p.id > c));
            seen.push(p.id);
        }
        cursor = Some(page.last().unwrap().id);
    }
    assert_eq!(seen, (1..=12).collect::<Vec<_>>());

    let mut seen: Vec<String> = Vec::new();
    let mut cursor: Option<String> = None;
    loop {
        let page = list_voters(&store, cursor.clone(), Some(4)).unwrap().voters;
        assert!(page.len() <= 4);
        if page.is_empty() {
            break;
        }
        for d in &page {
            assert!(cursor.as_ref().map_or(true, |c| d.addr.as_bytes() > c.as_bytes()));
            seen.push(d.addr.clone());
        }
        cursor = Some(page.last().unwrap().addr.clone());
    }
    assert_eq!(seen, vec!["admin", "voter1", "voter2", "voter3", "voter4", "voter5"]);
}

#[test]
fn setup_refuses_a_member_without_weight() {
    let mut store: Store<String> = Store::new();
    let mut voters = roster();
    voters.push(Voter { addr: "idle".to_string(), weight: 0 });
    let msg = InstantiateMsg {
        voters,
        threshold_weight: 1,
        max_voting_period: Duration::Height(1),
    };
    assert_eq!(
        instantiate(&mut store, env_at(1), info("admin"), msg),
        Err(ContractError::VoterZeroWeight {})
    );
    assert_eq!(store.voter_count(), 0);
}
