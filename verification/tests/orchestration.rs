use actor_chain::budget::ExecutionBudget;
use actor_chain::chain::ChainHandle;
use actor_chain::continuation::{ContinuationLink, InjectedResult, LinkState};
use actor_chain::counter::Counter;
use actor_chain::error::EngineError;
use actor_chain::identity::ActorIdentity;
use actor_chain::run::{ChainRun, RunStatus, StepOutcome};

fn described(handle: &ChainHandle) -> Vec<(String, String, Vec<u8>, u128, u64)> {
    handle
        .operations()
        .iter()
        .map(|op| {
            (
                op.target().name().clone(),
                op.entry_point().clone(),
                op.payload().clone(),
                op.value_transfer(),
                op.budget().units(),
            )
        })
        .collect()
}

fn spent(handle: &ChainHandle) -> u64 {
    let on_operations: u64 = handle.operations().iter().map(|op| op.budget().units()).sum();
    let total = on_operations + handle.continuation().map_or(0, |bound| bound.budget().units());
    assert_eq!(handle.total_budget(), total as u128);
    total
}

fn receive_through_link(counter: &Counter, link: &mut ContinuationLink) -> Result<u8, EngineError> {
    let invocation = Counter::entry_points().invoke_continuation(link, vec![])?;
    counter.receive(invocation)
}

#[test]
fn deploy_contract_builds_the_four_steps_in_order() {
    let counter = Counter::default();
    let handle = counter
        .deploy_contract(
            "postbox.alice.testnet".to_string(),
            1_000_000_000_000_000_000_000_000,
            vec![0, 1, 2],
            vec![0, 97, 115, 109],
            ExecutionBudget::new(1_000),
        )
        .unwrap();
    let account = "postbox.alice.testnet".to_string();
    assert_eq!(
        described(&handle),
        vec![
            (account.clone(), "create_account".to_string(), vec![], 0, 250),
            (account.clone(), "transfer".to_string(), vec![], 1_000_000_000_000_000_000_000_000, 250),
            (account.clone(), "add_full_access_key".to_string(), vec![0, 1, 2], 0, 250),
            (account.clone(), "deploy_contract".to_string(), vec![0, 97, 115, 109], 0, 250),
        ]
    );
    assert!(*handle.target() == ActorIdentity::new(account));
    assert!(handle.continuation().is_none());
    assert_eq!(spent(&handle), 1_000);
}

#[test]
fn deploy_contract_rounds_the_quarters_down() {
    let handle = Counter::default()
        .deploy_contract("p.testnet".to_string(), 0, vec![], vec![], ExecutionBudget::new(7))
        .unwrap();
    let budgets: Vec<u64> = handle.operations().iter().map(|op| op.budget().units()).collect();
    assert_eq!(budgets, vec![1, 1, 1, 1]);
    assert!(spent(&handle) <= 7);
}

#[test]
fn deploy_contract_needs_a_unit_for_each_step() {
    for budget in 0..4 {
        let r = Counter::default().deploy_contract(
            "p.testnet".to_string(),
            5,
            vec![1],
            vec![2],
            ExecutionBudget::new(budget),
        );
        assert_eq!(r.unwrap_err(), EngineError::BudgetExhausted);
    }
    assert!(Counter::default()
        .deploy_contract("p.testnet".to_string(), 5, vec![1], vec![2], ExecutionBudget::new(4))
        .is_ok());
}

#[test]
fn transfer_money_is_one_transfer_on_the_whole_budget() {
    let mut counter = Counter::with_value(3);
    let handle =
        counter.transfer_money("bob.testnet".to_string(), 17, ExecutionBudget::new(90)).unwrap();
    assert_eq!(
        described(&handle),
        vec![("bob.testnet".to_string(), "transfer".to_string(), vec![], 17, 90)]
    );
    assert!(handle.continuation().is_none());
    assert_eq!(spent(&handle), 90);
    assert_eq!(counter.get_num(), 3);
}

#[test]
fn transfer_money_of_nothing_is_valid() {
    let mut counter = Counter::default();
    let handle =
        counter.transfer_money("bob.testnet".to_string(), 0, ExecutionBudget::new(1)).unwrap();
    assert_eq!(handle.operations()[0].value_transfer(), 0);
}

#[test]
fn transfer_money_without_budget_fails() {
    let mut counter = Counter::with_value(3);
    let r = counter.transfer_money("bob.testnet".to_string(), 17, ExecutionBudget::new(0));
    assert_eq!(r.unwrap_err(), EngineError::BudgetExhausted);
    assert_eq!(counter.get_num(), 3);
}

#[test]
fn call_remote_and_chain_halves_the_budget() {
    let counter = Counter::default();
    let (handle, link) = counter
        .call_remote_and_chain(
            "b.testnet".to_string(),
            "get_value".to_string(),
            vec![4],
            ExecutionBudget::new(101),
        )
        .unwrap();
    assert_eq!(
        described(&handle),
        vec![("b.testnet".to_string(), "get_value".to_string(), vec![4], 0, 50)]
    );
    let bound = handle.continuation().unwrap();
    assert_eq!(bound.target_entry_point(), "receive");
    assert_eq!(bound.budget().units(), 50);
    assert_eq!(link.state(), LinkState::Registered);
    assert_eq!(link.target_entry_point(), "receive");
    assert_eq!(link.budget().units(), 50);
    assert_eq!(spent(&handle), 100);
}

#[test]
fn call_remote_and_chain_needs_two_units() {
    for budget in 0..2 {
        let r = Counter::default().call_remote_and_chain(
            "b.testnet".to_string(),
            "get_value".to_string(),
            vec![],
            ExecutionBudget::new(budget),
        );
        assert_eq!(r.unwrap_err(), EngineError::BudgetExhausted);
    }
}

#[test]
fn the_continuation_of_a_scheduled_call_is_bound_once() {
    let (mut handle, _link) = Counter::default()
        .call_remote_and_chain(
            "b.testnet".to_string(),
            "get_value".to_string(),
            vec![],
            ExecutionBudget::new(10),
        )
        .unwrap();
    let r = handle.and_then("receive".to_string(), ExecutionBudget::new(1));
    assert_eq!(r.unwrap_err(), EngineError::ContinuationAlreadyBound);
}

#[test]
fn a_remote_value_of_seven_comes_back_as_eight() {
    let a = Counter::default();
    let (handle, mut link) = a
        .call_remote_and_chain(
            "b.testnet".to_string(),
            "get_value".to_string(),
            vec![],
            ExecutionBudget::new(200),
        )
        .unwrap();
    assert_eq!(handle.continuation().unwrap().budget().units(), 100);

    let mut run = ChainRun::start(handle);
    assert_eq!(run.next_operation().unwrap().entry_point(), "get_value");
    assert_eq!(run.record(60, StepOutcome::Completed(vec![7])), RunStatus::Succeeded);
    link.fire(run.resolution().unwrap()).unwrap();

    let table = Counter::entry_points();
    let invocation = table.invoke_continuation(&mut link, vec![]).unwrap();
    assert_eq!(invocation.entry_point(), "receive");
    assert_eq!(invocation.injected(), Some(&InjectedResult::Success(vec![7])));
    assert_eq!(invocation.budget().units(), 100);
    assert_eq!(a.receive(invocation), Ok(8));
    assert_eq!(a.get_num(), 0);

    assert_eq!(link.state(), LinkState::Delivered);
    assert_eq!(
        table.invoke_continuation(&mut link, vec![]).unwrap_err(),
        EngineError::UnauthorizedCallback
    );
}

#[test]
fn a_failed_remote_call_is_passed_on_by_receive() {
    let a = Counter::default();
    let (handle, mut link) = a
        .call_remote_and_chain(
            "b.testnet".to_string(),
            "get_value".to_string(),
            vec![],
            ExecutionBudget::new(200),
        )
        .unwrap();
    let mut run = ChainRun::start(handle);
    run.record(101, StepOutcome::Completed(vec![7]));
    link.fire(run.resolution().unwrap()).unwrap();
    assert_eq!(receive_through_link(&a, &mut link), Err(EngineError::BudgetExhausted));
}

#[test]
fn receive_guards_the_scalar_as_the_counter_is_guarded() {
    let a = Counter::default();
    for (payload, expected) in [
        (vec![0u8], Ok(1u8)),
        (vec![41], Ok(42)),
        (vec![254], Ok(255)),
        (vec![255], Err(EngineError::CounterOverflow)),
        (vec![], Err(EngineError::DeliveryFailed)),
        (vec![1, 2], Err(EngineError::DeliveryFailed)),
    ] {
        let mut link =
            ContinuationLink::register("receive".to_string(), ExecutionBudget::new(1)).unwrap();
        link.fire(InjectedResult::Success(payload)).unwrap();
        assert_eq!(receive_through_link(&a, &mut link), expected);
    }
}

#[test]
fn receive_refuses_an_invocation_that_was_not_injected() {
    let a = Counter::default();
    let table = Counter::entry_points();
    let direct = table.invoke_direct("get_num".to_string(), vec![7], ExecutionBudget::new(1)).unwrap();
    assert_eq!(a.receive(direct), Err(EngineError::UnauthorizedCallback));
}
