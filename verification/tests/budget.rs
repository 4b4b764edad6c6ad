use actor_chain::budget::ExecutionBudget;
use actor_chain::error::EngineError;

fn units(slices: &Vec<ExecutionBudget>) -> Vec<u64> {
    slices.iter().map(|b| b.units()).collect()
}

#[test]
fn split_in_two_halves_the_budget() {
    let slices = ExecutionBudget::new(10).split(2).unwrap();
    assert_eq!(units(&slices), vec![5, 5]);
}

#[test]
fn split_in_two_of_an_odd_budget_keeps_one_unit_back() {
    let slices = ExecutionBudget::new(11).split(2).unwrap();
    assert_eq!(units(&slices), vec![5, 5]);
    let spent: u64 = units(&slices).iter().sum();
    assert_eq!(spent, 10);
    assert!(spent <= 11);
}

#[test]
fn split_in_two_of_one_unit_fails() {
    assert_eq!(ExecutionBudget::new(1).split(2), Err(EngineError::BudgetExhausted));
}

#[test]
fn split_in_two_of_two_units_gives_one_each() {
    let slices = ExecutionBudget::new(2).split(2).unwrap();
    assert_eq!(units(&slices), vec![1, 1]);
}

#[test]
fn split_of_an_empty_budget_fails() {
    assert_eq!(ExecutionBudget::new(0).split(1), Err(EngineError::BudgetExhausted));
    assert_eq!(ExecutionBudget::new(0).split(2), Err(EngineError::BudgetExhausted));
}

#[test]
fn split_in_quarters() {
    let slices = ExecutionBudget::new(103).split(4).unwrap();
    assert_eq!(units(&slices), vec![25, 25, 25, 25]);
    assert_eq!(ExecutionBudget::new(3).split(4), Err(EngineError::BudgetExhausted));
    assert_eq!(units(&ExecutionBudget::new(4).split(4).unwrap()), vec![1, 1, 1, 1]);
}

#[test]
fn split_in_one_keeps_the_whole() {
    assert_eq!(units(&ExecutionBudget::new(77).split(1).unwrap()), vec![77]);
}

#[test]
fn split_in_none_hands_out_nothing() {
    assert_eq!(ExecutionBudget::new(77).split(0), Ok(vec![]));
    assert_eq!(ExecutionBudget::new(0).split(0), Ok(vec![]));
}

#[test]
fn split_never_spends_more_than_the_budget() {
    for total in 0u64..60 {
        for n in 0usize..12 {
            match ExecutionBudget::new(total).split(n) {
                Ok(slices) => {
                    assert!(n as u64 <= total);
                    assert_eq!(slices.len(), n);
                    let spent: u64 = units(&slices).iter().sum();
                    assert!(spent <= total);
                    if n > 0 {
                        assert_eq!(spent + total % n as u64, total);
                    }
                    for slice in &slices {
                        assert!(slice.units() > 0);
                        assert!(!slice.is_zero());
                    }
                }
                Err(e) => {
                    assert_eq!(e, EngineError::BudgetExhausted);
                    assert!(n as u64 > total);
                }
            }
        }
    }
}

#[test]
fn split_of_the_largest_budget() {
    let slices = ExecutionBudget::new(u64::MAX).split(2).unwrap();
    assert_eq!(units(&slices), vec![u64::MAX / 2, u64::MAX / 2]);
}

#[test]
fn a_budget_holds_what_it_was_made_with() {
    assert_eq!(ExecutionBudget::new(12).units(), 12);
    assert!(ExecutionBudget::new(0).is_zero());
    assert!(!ExecutionBudget::new(1).is_zero());
    assert_eq!(ExecutionBudget::new(5), ExecutionBudget::new(5));
}
