use passport_assessment::addr::Addr;
use passport_assessment::contract::{execute, instantiate, query};
use passport_assessment::msg::{ExecuteMsg, InstantiateMsg, QueryMsg, QueryResponse};
use passport_assessment::state::Store;

#[test]
fn initialization_test() {
    // Setup a fresh store
    let mut store = Store::new();
    let msg = InstantiateMsg { owner: Addr::unchecked("owner") };

    let _res = instantiate(&mut store, msg).unwrap();
}

#[test]
fn query_owner_test() {
    // Setup a fresh store; the stored owner is whoever the message names
    let mut store = Store::new();
    let msg = InstantiateMsg { owner: Addr::unchecked("owner") };
    let _res = instantiate(&mut store, msg).unwrap();

    let res = query(&store, QueryMsg::GetOwner {}).unwrap();
    match res {
        QueryResponse::Owner(value) => assert_eq!("owner", value.owner.as_str()),
        _ => panic!("expected an owner response"),
    }
}

#[test]
fn set_score_test() {
    // Setup
    let mut store = Store::new();
    let inst_msg = InstantiateMsg { owner: Addr::unchecked("owner") };
    let _res = instantiate(&mut store, inst_msg).unwrap();

    // Only the owner should be able to set scores
    let anyone = Addr::unchecked("anyone");
    let exec_msg = ExecuteMsg::SetScore { address: Addr::unchecked("someone"), new_score: 50 };
    let res = execute(&mut store, anyone, exec_msg);
    assert!(res.is_err());

    // The owner should be able to set scores
    let owner = Addr::unchecked("owner");
    let exec_msg = ExecuteMsg::SetScore { address: Addr::unchecked("someone"), new_score: 50 };
    let _res = execute(&mut store, owner, exec_msg).unwrap();
}

#[test]
fn query_score_test() {
    // Setup
    let mut store = Store::new();
    let inst_msg = InstantiateMsg { owner: Addr::unchecked("owner") };
    let _res = instantiate(&mut store, inst_msg).unwrap();

    // Set someone's score to 2022
    let owner = Addr::unchecked("owner");
    let exec_msg = ExecuteMsg::SetScore { address: Addr::unchecked("someone"), new_score: 2022 };
    let _res = execute(&mut store, owner, exec_msg).unwrap();

    // Check that someone's score updated to 2022
    let score_msg = QueryMsg::GetScore { address: Addr::unchecked("someone") };
    let res = query(&store, score_msg).unwrap();
    match res {
        QueryResponse::Score(value) => assert_eq!(2022, value.score),
        _ => panic!("expected a score response"),
    }
}
