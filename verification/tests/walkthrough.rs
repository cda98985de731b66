use fixed_multisig::contract::{execute, instantiate};
use fixed_multisig::queries::{query_proposal, query_threshold};
use fixed_multisig::{
    BlockInfo, ContractError, Duration, Env, ExecuteMsg, InstantiateMsg, MessageInfo, Status,
    Store, ThresholdResponse, Timestamp, Vote, Voter,
};

const MEMBERS: [(&str, u64); 6] =
    [("one", 1), ("uno", 1), ("two", 2), ("three", 3), ("four", 4), ("five", 5)];

fn env_at(height: u64) -> Env {
    Env { block: BlockInfo { height, time: Timestamp::from_nanos(77) } }
}

fn info(sender: &str) -> MessageInfo {
    MessageInfo { sender: sender.to_string() }
}

fn multisig(threshold_weight: u64) -> Store<&'static str> {
    let mut store = Store::new();
    let msg = InstantiateMsg {
        voters: MEMBERS
            .iter()
            .map(|(addr, weight)| Voter { addr: addr.to_string(), weight: *weight })
            .collect(),
        threshold_weight,
        max_voting_period: Duration::Height(1_000),
    };
    instantiate(&mut store, env_at(10), info("one"), msg).unwrap();
    store
}

fn propose(store: &mut Store<&'static str>, sender: &str) -> (u64, String) {
    let msg = ExecuteMsg::Propose {
        title: "Pay somebody".to_string(),
        description: "Do I pay her?".to_string(),
        msgs: vec!["pay"],
        latest: None,
    };
    let res = execute(store, env_at(10), info(sender), msg).unwrap();
    (res.attributes[2].value.parse().unwrap(), res.attributes[3].value.clone())
}

fn status(store: &Store<&'static str>, id: u64, height: u64) -> Status {
    query_proposal(store, env_at(height), id).unwrap().status
}

#[test]
fn walk_through_setup() {
    let mut store = multisig(4);
    assert_eq!(
        query_threshold(&store),
        Ok(ThresholdResponse::AbsoluteCount { weight: 4, total_weight: 16 })
    );
    // Somebody who is no member brings no weight.
    let (id, shown) = propose(&mut store, "nobody");
    assert_eq!(shown, "Open");
    assert_eq!(status(&store, id, 10), Status::Open);
    assert_eq!(store.proposal_at(0).yes_weight, 0);
    // The member of weight four passes a proposal by opening it.
    let (id, shown) = propose(&mut store, "four");
    assert_eq!(shown, "Passed");
    assert_eq!(status(&store, id, 10), Status::Passed);
    assert_eq!(store.proposal_at(1).yes_weight, 4);
}

#[test]
fn walk_through_voting() {
    let mut store = multisig(3);
    let (id, _) = propose(&mut store, "nobody");
    let mut vote = |sender: &str, vote: Vote| {
        execute(&mut store, env_at(10), info(sender), ExecuteMsg::Vote { proposal_id: id, vote })
            .map(|res| res.attributes[3].value.clone())
    };

    assert_eq!(vote("one", Vote::Yes), Ok("Open".to_string()));
    assert_eq!(vote("one", Vote::Yes), Err(ContractError::AlreadyVoted {}));
    assert_eq!(vote("two", Vote::No), Ok("Open".to_string()));
    assert_eq!(vote("three", Vote::Veto), Ok("Open".to_string()));
    assert_eq!(store.proposal_at(0).yes_weight, 1);
    assert_eq!(store.proposal_at(0).voters, vec!["one".to_string()]);

    let mut vote = |sender: &str, vote: Vote| {
        execute(&mut store, env_at(10), info(sender), ExecuteMsg::Vote { proposal_id: id, vote })
            .map(|res| res.attributes[3].value.clone())
    };
    assert_eq!(vote("four", Vote::Yes), Ok("Passed".to_string()));
    assert_eq!(store.proposal_at(0).yes_weight, 5);
    assert_eq!(store.proposal_at(0).status, Status::Passed);
    assert_eq!(status(&store, id, 10), Status::Passed);
}

#[test]
fn walk_through_execution() {
    let mut store = multisig(3);
    let (id, _) = propose(&mut store, "one");
    let execution = ExecuteMsg::Execute { proposal_id: id };
    assert_eq!(
        execute(&mut store, env_at(10), info("one"), execution.clone()),
        Err(ContractError::WrongExecuteStatus {})
    );
    execute(
        &mut store,
        env_at(10),
        info("three"),
        ExecuteMsg::Vote { proposal_id: id, vote: Vote::Yes },
    )
    .unwrap();
    let res = execute(&mut store, env_at(10), info("nobody"), execution).unwrap();
    assert_eq!(res.messages, vec!["pay"]);
    assert_eq!(status(&store, id, 10), Status::Executed);
    assert_eq!(
        execute(&mut store, env_at(5_000), info("nobody"), ExecuteMsg::Close { proposal_id: id }),
        Err(ContractError::WrongCloseStatus {})
    );
}

#[test]
fn walk_through_closing() {
    let mut store = multisig(3);
    let (id, _) = propose(&mut store, "uno");
    let closing = ExecuteMsg::Close { proposal_id: id };
    assert_eq!(
        execute(&mut store, env_at(10), info("nobody"), closing.clone()),
        Err(ContractError::NotExpired {})
    );
    assert_eq!(
        execute(&mut store, env_at(1_009), info("nobody"), closing.clone()),
        Err(ContractError::NotExpired {})
    );
    assert_eq!(status(&store, id, 1_009), Status::Open);
    // The voting period of a thousand blocks is over at height 1010.
    assert_eq!(status(&store, id, 1_010), Status::Rejected);
    execute(&mut store, env_at(1_010), info("nobody"), closing.clone()).unwrap();
    assert_eq!(store.proposal_at(0).status, Status::Rejected);
    assert_eq!(status(&store, id, 10), Status::Rejected);
    assert_eq!(
        execute(&mut store, env_at(1_010), info("nobody"), closing),
        Err(ContractError::WrongCloseStatus {})
    );
}
