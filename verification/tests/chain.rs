use actor_chain::budget::ExecutionBudget;
use actor_chain::chain::{ActionChain, ActionKind, ChainHandle, Operation};
use actor_chain::continuation::LinkState;
use actor_chain::error::EngineError;
use actor_chain::identity::ActorIdentity;

fn actor(name: &str) -> ActorIdentity {
    ActorIdentity::new(name.to_string())
}

fn three_step_handle() -> ChainHandle {
    let mut chain = ActionChain::new(actor("bob.testnet"));
    chain.append("first".to_string(), vec![1], 0, ExecutionBudget::new(10)).unwrap();
    chain.append("second".to_string(), vec![2, 2], 5, ExecutionBudget::new(20)).unwrap();
    chain.append("third".to_string(), vec![], 0, ExecutionBudget::new(30)).unwrap();
    chain.finalize().unwrap()
}

#[test]
fn identities_are_equal_when_their_names_are() {
    assert!(actor("alice.testnet") == actor("alice.testnet"));
    assert!(actor("alice.testnet") != actor("bob.testnet"));
    assert_eq!(actor("alice.testnet").name(), "alice.testnet");
    assert!(actor("alice.testnet").clone() == actor("alice.testnet"));
}

#[test]
fn a_new_chain_is_empty_and_open() {
    let chain = ActionChain::new(actor("bob.testnet"));
    assert_eq!(chain.len(), 0);
    assert!(!chain.is_finalized());
    assert!(*chain.target() == actor("bob.testnet"));
}

#[test]
fn operations_keep_the_order_in_which_they_were_appended() {
    let handle = three_step_handle();
    let names: Vec<&str> = handle.operations().iter().map(|op| op.entry_point().as_str()).collect();
    assert_eq!(names, vec!["first", "second", "third"]);
    let budgets: Vec<u64> = handle.operations().iter().map(|op| op.budget().units()).collect();
    assert_eq!(budgets, vec![10, 20, 30]);
    let values: Vec<u128> = handle.operations().iter().map(|op| op.value_transfer()).collect();
    assert_eq!(values, vec![0, 5, 0]);
    assert_eq!(handle.operations()[1].payload(), &vec![2u8, 2]);
    for op in handle.operations() {
        assert!(*op.target() == actor("bob.testnet"));
    }
    assert!(*handle.target() == actor("bob.testnet"));
    assert!(handle.continuation().is_none());
}

#[test]
fn an_operation_without_budget_is_refused_when_it_is_made() {
    let r = Operation::new(actor("bob.testnet"), "f".to_string(), vec![], 0, ExecutionBudget::new(0));
    assert_eq!(r.unwrap_err(), EngineError::InsufficientBudget);
    let op = Operation::new(actor("bob.testnet"), "f".to_string(), vec![3], 9, ExecutionBudget::new(1))
        .unwrap();
    assert_eq!(op.entry_point(), "f");
    assert_eq!(op.payload(), &vec![3u8]);
    assert_eq!(op.value_transfer(), 9);
    assert_eq!(op.budget().units(), 1);
}

#[test]
fn append_without_budget_fails_and_leaves_the_chain_alone() {
    let mut chain = ActionChain::new(actor("bob.testnet"));
    chain.append("first".to_string(), vec![], 0, ExecutionBudget::new(1)).unwrap();
    let r = chain.append("second".to_string(), vec![], 0, ExecutionBudget::new(0));
    assert_eq!(r, Err(EngineError::InsufficientBudget));
    assert_eq!(chain.len(), 1);
    assert!(!chain.is_finalized());
}

#[test]
fn append_after_finalize_always_fails() {
    let mut chain = ActionChain::new(actor("bob.testnet"));
    chain.append("first".to_string(), vec![], 0, ExecutionBudget::new(1)).unwrap();
    let handle = chain.finalize().unwrap();
    assert_eq!(handle.operations().len(), 1);
    assert!(chain.is_finalized());
    assert_eq!(
        chain.append("late".to_string(), vec![], 0, ExecutionBudget::new(1)),
        Err(EngineError::ChainFinalized)
    );
    assert_eq!(
        chain.append("late".to_string(), vec![], 0, ExecutionBudget::new(0)),
        Err(EngineError::ChainFinalized)
    );
    assert_eq!(handle.operations().len(), 1);
}

#[test]
fn a_chain_is_handed_off_once() {
    let mut chain = ActionChain::new(actor("bob.testnet"));
    chain.append("first".to_string(), vec![], 0, ExecutionBudget::new(1)).unwrap();
    assert!(chain.finalize().is_ok());
    assert_eq!(chain.finalize().unwrap_err(), EngineError::ChainFinalized);
    assert_eq!(chain.len(), 0);
}

#[test]
fn an_empty_chain_can_be_handed_off() {
    let mut chain = ActionChain::new(actor("bob.testnet"));
    let handle = chain.finalize().unwrap();
    assert!(handle.operations().is_empty());
}

#[test]
fn a_continuation_is_bound_with_its_own_budget() {
    let mut handle = three_step_handle();
    let link = handle.and_then("on_done".to_string(), ExecutionBudget::new(40)).unwrap();
    assert_eq!(link.state(), LinkState::Registered);
    assert_eq!(link.target_entry_point(), "on_done");
    assert_eq!(link.budget().units(), 40);
    let bound = handle.continuation().unwrap();
    assert_eq!(bound.target_entry_point(), "on_done");
    assert_eq!(bound.budget().units(), 40);
    assert_eq!(handle.operations().len(), 3);
}

#[test]
fn a_second_continuation_is_refused() {
    let mut handle = three_step_handle();
    handle.and_then("on_done".to_string(), ExecutionBudget::new(40)).unwrap();
    let r = handle.and_then("other".to_string(), ExecutionBudget::new(1));
    assert_eq!(r.unwrap_err(), EngineError::ContinuationAlreadyBound);
    let bound = handle.continuation().unwrap();
    assert_eq!(bound.target_entry_point(), "on_done");
    assert_eq!(bound.budget().units(), 40);
}

#[test]
fn a_continuation_without_budget_is_refused() {
    let mut handle = three_step_handle();
    let r = handle.and_then("on_done".to_string(), ExecutionBudget::new(0));
    assert_eq!(r.unwrap_err(), EngineError::InsufficientBudget);
    assert!(handle.continuation().is_none());
    assert!(handle.and_then("on_done".to_string(), ExecutionBudget::new(1)).is_ok());
}

#[test]
fn taking_a_handle_apart_gives_its_operations_in_order() {
    let operations = three_step_handle().into_operations();
    let names: Vec<&str> = operations.iter().map(|op| op.entry_point().as_str()).collect();
    assert_eq!(names, vec!["first", "second", "third"]);
}

#[test]
fn the_total_budget_counts_operations_and_continuation() {
    let mut handle = three_step_handle();
    assert_eq!(handle.total_budget(), 60);
    handle.and_then("on_done".to_string(), ExecutionBudget::new(40)).unwrap();
    assert_eq!(handle.total_budget(), 100);
    let mut empty = ActionChain::new(actor("bob.testnet"));
    assert_eq!(empty.finalize().unwrap().total_budget(), 0);
}

#[test]
fn the_total_budget_can_exceed_a_single_budget() {
    let mut chain = ActionChain::new(actor("bob.testnet"));
    chain.append("a".to_string(), vec![], 0, ExecutionBudget::new(u64::MAX)).unwrap();
    chain.append("b".to_string(), vec![], 0, ExecutionBudget::new(u64::MAX)).unwrap();
    let mut handle = chain.finalize().unwrap();
    handle.and_then("on_done".to_string(), ExecutionBudget::new(2)).unwrap();
    assert_eq!(handle.total_budget(), 2 * (u64::MAX as u128) + 2);
}

#[test]
fn an_operation_is_classified_by_its_entry_point() {
    for (name, kind) in [
        ("create_account", ActionKind::CreateAccount),
        ("transfer", ActionKind::Transfer),
        ("add_full_access_key", ActionKind::AddFullAccessKey),
        ("deploy_contract", ActionKind::DeployContract),
        ("get_value", ActionKind::Call),
        ("increment", ActionKind::Call),
        ("", ActionKind::Call),
        ("Transfer", ActionKind::Call),
        ("transfer ", ActionKind::Call),
    ] {
        let op =
            Operation::new(actor("bob.testnet"), name.to_string(), vec![], 0, ExecutionBudget::new(1))
                .unwrap();
        assert_eq!(op.kind(), kind);
    }
}
