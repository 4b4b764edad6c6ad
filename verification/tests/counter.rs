use actor_chain::counter::Counter;
use actor_chain::error::EngineError;
use actor_chain::postbox::Postbox;

#[test]
fn increment() {
    let mut contract = Counter::with_value(0);
    contract.increment().unwrap();
    assert_eq!(1, contract.get_num());
}

#[test]
fn decrement() {
    let mut contract = Counter::with_value(1);
    contract.decrement().unwrap();
    assert_eq!(0, contract.get_num());
}

#[test]
fn counter_starts_at_zero() {
    assert_eq!(Counter::default().get_num(), 0);
}

#[test]
fn increment_adds_one_below_the_maximum() {
    for v in 0u8..255 {
        let mut counter = Counter::with_value(v);
        assert_eq!(counter.increment(), Ok(()));
        assert_eq!(counter.get_num(), v + 1);
    }
}

#[test]
fn increment_at_the_maximum_fails_and_changes_nothing() {
    let mut counter = Counter::with_value(255);
    assert_eq!(counter.increment(), Err(EngineError::CounterOverflow));
    assert_eq!(counter.get_num(), 255);
}

#[test]
fn decrement_takes_one_above_zero() {
    for v in 1u8..=255 {
        let mut counter = Counter::with_value(v);
        assert_eq!(counter.decrement(), Ok(()));
        assert_eq!(counter.get_num(), v - 1);
    }
}

#[test]
fn decrement_at_zero_fails_and_changes_nothing() {
    let mut counter = Counter::default();
    assert_eq!(counter.decrement(), Err(EngineError::CounterOverflow));
    assert_eq!(counter.get_num(), 0);
}

#[test]
fn increment_then_decrement_gives_the_value_back() {
    let mut counter = Counter::with_value(41);
    counter.increment().unwrap();
    assert_eq!(counter.get_num(), 42);
    counter.decrement().unwrap();
    assert_eq!(counter.get_num(), 41);
}

#[test]
fn postbox_keeps_the_last_message() {
    let mut postbox = Postbox::default();
    assert_eq!(postbox.get_message(), 0);
    postbox.set_message(9);
    assert_eq!(postbox.get_message(), 9);
    postbox.set_message(200);
    assert_eq!(postbox.get_message(), 200);
    assert_eq!(Postbox::with_message(17).get_message(), 17);
}

#[test]
fn errors_are_told_apart_by_when_they_arise() {
    assert!(EngineError::InsufficientBudget.is_construction_time());
    assert!(EngineError::ChainFinalized.is_construction_time());
    assert!(EngineError::ContinuationAlreadyBound.is_construction_time());
    assert!(EngineError::CounterOverflow.is_construction_time());
    assert!(!EngineError::BudgetExhausted.is_construction_time());
    assert!(!EngineError::UnauthorizedCallback.is_construction_time());
    assert!(!EngineError::DeliveryFailed.is_construction_time());
}
