//! The failures the engine can report.
use vstd::prelude::*;

verus! {

/// Every way in which building or running a chain can fail.
#[derive(Clone, Copy, Debug, PartialEq, Eq, Structural)]
pub enum EngineError {
    /// An operation or continuation was given a budget of zero.
    InsufficientBudget,
    /// A budget is too small for what was asked of it, or an operation used
    /// more than its slice.
    BudgetExhausted,
    /// The chain has already been handed off and can no longer change.
    ChainFinalized,
    /// The terminal operation already has a continuation.
    ContinuationAlreadyBound,
    /// A continuation-only entry point was reached without a fired link.
    UnauthorizedCallback,
    /// The continuation's target no longer exists.
    DeliveryFailed,
    /// The counter would leave the range of an 8-bit value.
    CounterOverflow,
}

impl EngineError {
    /// Whether this failure is detected while the invocation that caused it
    /// is still running, so that the invocation aborts with nothing changed.
    pub open spec fn construction_time(self) -> bool {
        self is InsufficientBudget || self is ChainFinalized || self is ContinuationAlreadyBound
            || self is CounterOverflow
    }

    /// Whether this failure is detected while the invocation that caused it
    /// is still running. The other failures arise after hand-off and reach
    /// the originator only through a continuation.
    pub fn is_construction_time(&self) -> (r: bool)
        ensures
            r == self.construction_time(),
    {
        match self {
            EngineError::InsufficientBudget => true,
            EngineError::ChainFinalized => true,
            EngineError::ContinuationAlreadyBound => true,
            EngineError::CounterOverflow => true,
            EngineError::BudgetExhausted => false,
            EngineError::UnauthorizedCallback => false,
            EngineError::DeliveryFailed => false,
        }
    }
}

} // verus!
