use cosmwasm_std::{coin, BankMsg, CosmosMsg};

use fixed_multisig::contract::{execute, instantiate, query};
use fixed_multisig::{
    BlockInfo, ContractError, Duration, Env, ExecuteMsg, Expiration, InstantiateMsg, MessageInfo,
    QueryMsg, QueryResponse, Response, Store, Timestamp, Vote, Voter,
};

type Deps = Store<CosmosMsg>;

fn mock_env() -> Env {
    Env {
        block: BlockInfo {
            height: 12_345,
            time: Timestamp::from_nanos(1_571_797_419_879_305_533),
        },
    }
}

fn mock_env_height(height_delta: u64) -> Env {
    let mut env = mock_env();
    env.block.height += height_delta;
    env
}

fn mock_env_time(time_delta: u64) -> Env {
    let mut env = mock_env();
    env.block.time = env.block.time.plus_seconds(time_delta).unwrap();
    env
}

fn mock_info(sender: &str) -> MessageInfo {
    MessageInfo { sender: sender.to_string() }
}

const OWNER: &str = "admin0001";
const VOTER1: &str = "voter0001";
const VOTER2: &str = "voter0002";
const VOTER3: &str = "voter0003";
const VOTER4: &str = "voter0004";
const VOTER5: &str = "voter0005";
const SOMEBODY: &str = "somebody";

fn voter(addr: &str, weight: u64) -> Voter {
    Voter { addr: addr.to_string(), weight }
}

// this will set up the instantiation for other tests
fn setup_test_case(
    deps: &mut Deps,
    info: MessageInfo,
    threshold_weight: u64,
    max_voting_period: Duration,
) -> Result<Response<CosmosMsg>, ContractError> {
    // Instantiate a contract with voters
    let voters = vec![
        voter(&info.sender, 1),
        voter(VOTER1, 1),
        voter(VOTER2, 2),
        voter(VOTER3, 3),
        voter(VOTER4, 4),
        voter(VOTER5, 5),
    ];

    let instantiate_msg = InstantiateMsg { voters, threshold_weight, max_voting_period };
    instantiate(deps, mock_env(), info, instantiate_msg)
}

fn get_tally(deps: &Deps, proposal_id: u64) -> u64 {
    // Get all the voters on the proposal
    let voters = QueryMsg::ListVotes { proposal_id, start_after: None, limit: None };
    let votes = match query(deps, mock_env(), voters).unwrap() {
        QueryResponse::VoteList(votes) => votes,
        other => panic!("unexpected answer: {:?}", other),
    };
    // Sum the weights of the Yes votes to get the tally
    votes.votes.iter().filter(|&v| v.vote == Vote::Yes).map(|v| v.weight).sum()
}

fn bank_msgs() -> Vec<CosmosMsg> {
    let bank_msg = BankMsg::Send { to_address: SOMEBODY.into(), amount: vec![coin(1, "BTC")] };
    vec![CosmosMsg::Bank(bank_msg)]
}

#[test]
fn test_instantiate_works() {
    let mut deps = Deps::new();
    let info = mock_info(OWNER);

    let max_voting_period = Duration::Time(1234567);

    // No voters fails
    let instantiate_msg =
        InstantiateMsg { voters: vec![], threshold_weight: 1, max_voting_period };
    let err = instantiate(&mut deps, mock_env(), info.clone(), instantiate_msg).unwrap_err();
    assert_eq!(err, ContractError::NoVoters {});

    // Zero required weight fails
    let instantiate_msg =
        InstantiateMsg { voters: vec![voter(OWNER, 1)], threshold_weight: 0, max_voting_period };
    let err = instantiate(&mut deps, mock_env(), info.clone(), instantiate_msg).unwrap_err();
    assert_eq!(err, ContractError::ZeroWeight {});

    // Total weight less than required weight not allowed
    let threshold_weight = 100;
    let err = setup_test_case(&mut deps, info.clone(), threshold_weight, max_voting_period)
        .unwrap_err();
    assert_eq!(err, ContractError::UnreachableWeight {});

    // All valid
    let threshold_weight = 1;
    setup_test_case(&mut deps, info, threshold_weight, max_voting_period).unwrap();
}

#[test]
fn test_propose_works() {
    let mut deps = Deps::new();

    let threshold_weight = 4;
    let voting_period = Duration::Time(2000000);

    let info = mock_info(OWNER);
    setup_test_case(&mut deps, info, threshold_weight, voting_period).unwrap();

    let msgs = bank_msgs();

    // Wrong expiration option fails
    let info = mock_info(OWNER);
    let proposal_wrong_exp = ExecuteMsg::Propose {
        title: "Rewarding somebody".to_string(),
        description: "Do we reward her?".to_string(),
        msgs: msgs.clone(),
        latest: Some(Expiration::AtHeight(123456)),
    };
    let err = execute(&mut deps, mock_env(), info, proposal_wrong_exp).unwrap_err();
    assert_eq!(err, ContractError::WrongExpiration {});

    // Anyone can propose
    let info = mock_info(SOMEBODY);
    let proposal = ExecuteMsg::Propose {
        title: "Rewarding somebody".to_string(),
        description: "Do we reward her?".to_string(),
        msgs: msgs.clone(),
        latest: None,
    };
    let res = execute(&mut deps, mock_env(), info, proposal.clone()).unwrap();
    assert_eq!(
        res,
        Response::new()
            .add_attribute("action", "propose")
            .add_attribute("sender", SOMEBODY)
            .add_attribute("proposal_id", &1.to_string())
            .add_attribute("status", "Open")
    );

    // Proposal from voter works
    let info = mock_info(VOTER3);
    let res = execute(&mut deps, mock_env(), info, proposal.clone()).unwrap();

    // Verify
    assert_eq!(
        res,
        Response::new()
            .add_attribute("action", "propose")
            .add_attribute("sender", VOTER3)
            .add_attribute("proposal_id", &2.to_string())
            .add_attribute("status", "Open")
    );

    // Proposal from voter with enough vote power directly passes
    let info = mock_info(VOTER4);
    let res = execute(&mut deps, mock_env(), info, proposal).unwrap();

    // Verify
    assert_eq!(
        res,
        Response::new()
            .add_attribute("action", "propose")
            .add_attribute("sender", VOTER4)
            .add_attribute("proposal_id", &3.to_string())
            .add_attribute("status", "Passed")
    );
}

#[test]
fn test_vote_works() {
    let mut deps = Deps::new();

    let threshold_weight = 3;
    let voting_period = Duration::Time(2000000);

    let info = mock_info(OWNER);
    setup_test_case(&mut deps, info.clone(), threshold_weight, voting_period).unwrap();

    // Propose
    let proposal = ExecuteMsg::Propose {
        title: "Pay somebody".to_string(),
        description: "Do I pay her?".to_string(),
        msgs: bank_msgs(),
        latest: None,
    };
    let res = execute(&mut deps, mock_env(), info.clone(), proposal).unwrap();

    // Get the proposal id from the logs
    let proposal_id: u64 = res.attributes[2].value.parse().unwrap();

    // Owner cannot vote (again)
    let yes_vote = ExecuteMsg::Vote { proposal_id, vote: Vote::Yes };
    let err = execute(&mut deps, mock_env(), info, yes_vote.clone()).unwrap_err();
    assert_eq!(err, ContractError::AlreadyVoted {});

    // Only voters can vote
    let info = mock_info(SOMEBODY);
    let err = execute(&mut deps, mock_env(), info, yes_vote.clone()).unwrap_err();
    assert_eq!(err, ContractError::Unauthorized {});

    // But voter1 can
    let info = mock_info(VOTER1);
    let res = execute(&mut deps, mock_env(), info, yes_vote.clone()).unwrap();

    // Verify
    assert_eq!(
        res,
        Response::new()
            .add_attribute("action", "vote")
            .add_attribute("sender", VOTER1)
            .add_attribute("proposal_id", &proposal_id.to_string())
            .add_attribute("status", "Open")
    );

    // No/Veto votes have no effect on the tally
    // Get the proposal id from the logs
    let proposal_id: u64 = res.attributes[2].value.parse().unwrap();

    // Compute the current tally
    let tally = get_tally(&deps, proposal_id);

    // Cast a No vote
    let no_vote = ExecuteMsg::Vote { proposal_id, vote: Vote::No };
    let info = mock_info(VOTER2);
    execute(&mut deps, mock_env(), info, no_vote.clone()).unwrap();

    // Cast a Veto vote
    let veto_vote = ExecuteMsg::Vote { proposal_id, vote: Vote::Veto };
    let info = mock_info(VOTER3);
    execute(&mut deps, mock_env(), info.clone(), veto_vote).unwrap();

    // Verify
    assert_eq!(tally, get_tally(&deps, proposal_id));

    // Once voted, yes votes cannot be changed
    let info = mock_info(VOTER1);
    let err = execute(&mut deps, mock_env(), info.clone(), yes_vote.clone()).unwrap_err();
    assert_eq!(err, ContractError::AlreadyVoted {});
    assert_eq!(tally, get_tally(&deps, proposal_id));

    // Expired proposals cannot be voted
    let env = match voting_period {
        Duration::Time(duration) => mock_env_time(duration + 1),
        Duration::Height(duration) => mock_env_height(duration + 1),
    };
    let err = execute(&mut deps, env, info, no_vote).unwrap_err();
    assert_eq!(err, ContractError::Expired {});

    // Vote it again, so it passes
    let info = mock_info(VOTER4);
    let res = execute(&mut deps, mock_env(), info, yes_vote.clone()).unwrap();

    // Verify
    assert_eq!(
        res,
        Response::new()
            .add_attribute("action", "vote")
            .add_attribute("sender", VOTER4)
            .add_attribute("proposal_id", &proposal_id.to_string())
            .add_attribute("status", "Passed")
    );

    // non-Open proposals cannot be voted
    let info = mock_info(VOTER5);
    let err = execute(&mut deps, mock_env(), info, yes_vote).unwrap_err();
    assert_eq!(err, ContractError::NotOpen {});
}

#[test]
fn test_execute_works() {
    let mut deps = Deps::new();

    let threshold_weight = 3;
    let voting_period = Duration::Time(2000000);

    let info = mock_info(OWNER);
    setup_test_case(&mut deps, info.clone(), threshold_weight, voting_period).unwrap();

    // Propose
    let msgs = bank_msgs();
    let proposal = ExecuteMsg::Propose {
        title: "Pay somebody".to_string(),
        description: "Do I pay her?".to_string(),
        msgs: msgs.clone(),
        latest: None,
    };
    let res = execute(&mut deps, mock_env(), info.clone(), proposal).unwrap();

    // Get the proposal id from the logs
    let proposal_id: u64 = res.attributes[2].value.parse().unwrap();

    // Only Passed can be executed
    let execution = ExecuteMsg::Execute { proposal_id };
    let err = execute(&mut deps, mock_env(), info, execution.clone()).unwrap_err();
    assert_eq!(err, ContractError::WrongExecuteStatus {});

    // Vote it, so it passes
    let vote = ExecuteMsg::Vote { proposal_id, vote: Vote::Yes };
    let info = mock_info(VOTER3);
    let res = execute(&mut deps, mock_env(), info.clone(), vote).unwrap();

    // Verify
    assert_eq!(
        res,
        Response::new()
            .add_attribute("action", "vote")
            .add_attribute("sender", VOTER3)
            .add_attribute("proposal_id", &proposal_id.to_string())
            .add_attribute("status", "Passed")
    );

    // In passing: Try to close Passed fails
    let closing = ExecuteMsg::Close { proposal_id };
    let err = execute(&mut deps, mock_env(), info, closing).unwrap_err();
    assert_eq!(err, ContractError::WrongCloseStatus {});

    // Execute works. Anybody can execute Passed proposals
    let info = mock_info(SOMEBODY);
    let res = execute(&mut deps, mock_env(), info.clone(), execution).unwrap();

    // Verify
    assert_eq!(
        res,
        Response::new()
            .add_messages(msgs)
            .add_attribute("action", "execute")
            .add_attribute("sender", SOMEBODY)
            .add_attribute("proposal_id", &proposal_id.to_string())
    );

    // In passing: Try to close Executed fails
    let closing = ExecuteMsg::Close { proposal_id };
    let err = execute(&mut deps, mock_env(), info, closing).unwrap_err();
    assert_eq!(err, ContractError::WrongCloseStatus {});
}

#[test]
fn test_close_works() {
    let mut deps = Deps::new();

    let threshold_weight = 3;
    let voting_period = Duration::Height(2000000);

    let info = mock_info(OWNER);
    setup_test_case(&mut deps, info.clone(), threshold_weight, voting_period).unwrap();

    // Propose
    let msgs = bank_msgs();
    let proposal = ExecuteMsg::Propose {
        title: "Pay somebody".to_string(),
        description: "Do I pay her?".to_string(),
        msgs: msgs.clone(),
        latest: None,
    };
    let res = execute(&mut deps, mock_env(), info, proposal).unwrap();

    // Get the proposal id from the logs
    let proposal_id: u64 = res.attributes[2].value.parse().unwrap();

    let closing = ExecuteMsg::Close { proposal_id };

    // Anybody can close
    let info = mock_info(SOMEBODY);

    // Non-expired proposals cannot be closed
    let err = execute(&mut deps, mock_env(), info, closing).unwrap_err();
    assert_eq!(err, ContractError::NotExpired {});

    // Expired proposals can be closed
    let info = mock_info(OWNER);

    let proposal = ExecuteMsg::Propose {
        title: "(Try to) pay somebody".to_string(),
        description: "Pay somebody after time?".to_string(),
        msgs,
        latest: Some(Expiration::AtHeight(123456)),
    };
    let res = execute(&mut deps, mock_env(), info.clone(), proposal).unwrap();

    // Get the proposal id from the logs
    let proposal_id: u64 = res.attributes[2].value.parse().unwrap();

    let closing = ExecuteMsg::Close { proposal_id };

    // Close expired works
    let env = mock_env_height(1234567);
    let res = execute(&mut deps, env, mock_info(SOMEBODY), closing.clone()).unwrap();

    // Verify
    assert_eq!(
        res,
        Response::new()
            .add_attribute("action", "close")
            .add_attribute("sender", SOMEBODY)
            .add_attribute("proposal_id", &proposal_id.to_string())
    );

    // Trying to close it again fails
    let err = execute(&mut deps, mock_env(), info, closing).unwrap_err();
    assert_eq!(err, ContractError::WrongCloseStatus {});
}
