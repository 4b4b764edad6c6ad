//! Continuations: how the result of a chain reaches a later invocation.
use vstd::prelude::*;
use crate::budget::ExecutionBudget;
use crate::error::EngineError;

verus! {

/// What a fired continuation hands to the invocation that receives it.
#[derive(Debug, PartialEq, Eq)]
pub enum InjectedResult {
    /// The source completed and returned this payload.
    Success(Vec<u8>),
    /// The source failed for this reason.
    Failure(EngineError),
}

/// The mathematical value of an [`InjectedResult`].
pub enum InjectedView {
    Success(Seq<u8>),
    Failure(EngineError),
}

impl View for InjectedResult {
    type V = InjectedView;

    open spec fn view(&self) -> InjectedView {
        match self {
            InjectedResult::Success(payload) => InjectedView::Success(payload@),
            InjectedResult::Failure(reason) => InjectedView::Failure(*reason),
        }
    }
}

impl Clone for InjectedResult {
    fn clone(&self) -> (copy: InjectedResult)
        ensures
            copy@ == self@,
    {
        match self {
            InjectedResult::Success(payload) => InjectedResult::Success(payload.clone()),
            InjectedResult::Failure(reason) => InjectedResult::Failure(*reason),
        }
    }
}

/// Where a continuation link stands in its life.
#[derive(Clone, Copy, Debug, PartialEq, Eq, Structural)]
pub enum LinkState {
    /// Bound to a source that has not resolved yet.
    Registered,
    /// The source has resolved; its result waits to be delivered.
    Firing,
    /// The result has been handed to the target entry point.
    Delivered,
    /// The target did not exist when the result was to be handed over.
    DeliveryFailed,
}

/// The mathematical value of a [`ContinuationLink`].
pub struct LinkView {
    pub target_entry_point: Seq<char>,
    pub budget: nat,
    pub state: LinkState,
    pub pending: Option<InjectedView>,
}

impl LinkView {
    /// A link holds a result exactly while it is firing, and its budget is
    /// never empty.
    pub open spec fn well_formed(self) -> bool {
        &&& self.budget > 0
        &&& self.pending is Some <==> self.state == LinkState::Firing
    }

    /// A fresh link to `target_entry_point` with `budget` reserved for it.
    pub open spec fn registered(target_entry_point: Seq<char>, budget: nat) -> LinkView {
        LinkView { target_entry_point, budget, state: LinkState::Registered, pending: None }
    }

    /// The source resolves with `result`. Only a registered link can fire.
    pub open spec fn fire(self, result: InjectedView) -> Result<LinkView, EngineError> {
        if self.state == LinkState::Registered {
            Ok(LinkView { state: LinkState::Firing, pending: Some(result), ..self })
        } else {
            Err(EngineError::UnauthorizedCallback)
        }
    }

    /// The link after an attempt to hand its result over.
    pub open spec fn after_deliver(self, target_exists: bool) -> LinkView {
        if self.state != LinkState::Firing {
            self
        } else if target_exists {
            LinkView { state: LinkState::Delivered, pending: None, ..self }
        } else {
            LinkView { state: LinkState::DeliveryFailed, pending: None, ..self }
        }
    }

    /// What an attempt to hand the result over yields.
    pub open spec fn delivery(self, target_exists: bool) -> Result<InjectedView, EngineError> {
        if self.state != LinkState::Firing {
            Err(EngineError::UnauthorizedCallback)
        } else if target_exists {
            Ok(self.pending->0)
        } else {
            Err(EngineError::DeliveryFailed)
        }
    }
}

/// A binding from the end of a chain to an entry point of the actor that
/// built the chain. It carries the budget that was set aside for the entry
/// point when the binding was made, and, once the source has resolved, the
/// result to hand over.
#[derive(Debug)]
pub struct ContinuationLink {
    target_entry_point: String,
    budget: ExecutionBudget,
    state: LinkState,
    result: Option<InjectedResult>,
}

impl View for ContinuationLink {
    type V = LinkView;

    closed spec fn view(&self) -> LinkView {
        LinkView {
            target_entry_point: self.target_entry_point@,
            budget: self.budget@,
            state: self.state,
            pending: match self.result {
                Some(result) if self.state == LinkState::Firing => Some(result@),
                _ => None,
            },
        }
    }
}

impl ContinuationLink {
    #[verifier::type_invariant]
    spec fn inv(self) -> bool {
        &&& self.budget@ > 0
        &&& self.state == LinkState::Firing ==> self.result is Some
    }

    /// Registers a continuation to `target_entry_point` and sets `budget`
    /// aside for it. An empty budget is refused with `InsufficientBudget`.
    pub fn register(target_entry_point: String, budget: ExecutionBudget) -> (r: Result<
        ContinuationLink,
        EngineError,
    >)
        ensures
            budget@ == 0 ==> r == Err::<ContinuationLink, EngineError>(
                EngineError::InsufficientBudget,
            ),
            budget@ > 0 ==> r is Ok && r->Ok_0@ == LinkView::registered(
                target_entry_point@,
                budget@,
            ),
    {
        if budget.is_zero() {
            return Err(EngineError::InsufficientBudget);
        }
        Ok(
            ContinuationLink {
                target_entry_point,
                budget,
                state: LinkState::Registered,
                result: None,
            },
        )
    }

    /// Where the link stands in its life.
    pub fn state(&self) -> (state: LinkState)
        ensures
            state == self@.state,
            self@.well_formed(),
    {
        proof {
            use_type_invariant(self);
        }
        self.state
    }

    /// The entry point that is to receive the result.
    pub fn target_entry_point(&self) -> (name: &String)
        ensures
            name@ == self@.target_entry_point,
    {
        &self.target_entry_point
    }

    /// The budget that was set aside for the target entry point when the
    /// link was registered. It is never empty.
    pub fn budget(&self) -> (budget: ExecutionBudget)
        ensures
            budget@ == self@.budget,
            budget@ > 0,
    {
        proof {
            use_type_invariant(self);
        }
        self.budget
    }

    /// The source has resolved with `result`: the link starts firing.
    ///
    /// A link fires at most once. On a link that is not merely registered
    /// this fails with `UnauthorizedCallback` and changes nothing.
    pub fn fire(&mut self, result: InjectedResult) -> (r: Result<(), EngineError>)
        ensures
            match old(self)@.fire(result@) {
                Ok(next) => r is Ok && final(self)@ == next,
                Err(e) => r == Err::<(), EngineError>(e) && final(self)@ == old(self)@,
            },
    {
        proof {
            use_type_invariant(&*self);
        }
        match self.state {
            LinkState::Registered => {
                self.result = Some(result);
                self.state = LinkState::Firing;
                Ok(())
            },
            _ => Err(EngineError::UnauthorizedCallback),
        }
    }

    /// Hands the pending result over to the target entry point.
    ///
    /// On a firing link whose target exists this returns the result and the
    /// link is delivered. If the target does not exist the link ends as
    /// `DeliveryFailed` and the call reports that; nothing is retried. On a
    /// link that is not firing this fails with `UnauthorizedCallback` and
    /// changes nothing, so a result is handed over at most once.
    pub fn deliver(&mut self, target_exists: bool) -> (r: Result<InjectedResult, EngineError>)
        ensures
            final(self)@ == old(self)@.after_deliver(target_exists),
            match old(self)@.delivery(target_exists) {
                Ok(value) => r is Ok && r->Ok_0@ == value,
                Err(e) => r is Err && r->Err_0 == e,
            },
    {
        proof {
            use_type_invariant(&*self);
        }
        match self.state {
            LinkState::Firing => {
                self.state = if target_exists {
                    LinkState::Delivered
                } else {
                    LinkState::DeliveryFailed
                };
                let mut pending: Option<InjectedResult> = None;
                core::mem::swap(&mut pending, &mut self.result);
                if target_exists {
                    Ok(pending.unwrap())
                } else {
                    Err(EngineError::DeliveryFailed)
                }
            },
            _ => Err(EngineError::UnauthorizedCallback),
        }
    }
}

/// A registered link that fires hands over exactly the result it fired with,
/// to one delivery. Afterwards it can neither fire nor deliver again.
pub proof fn lemma_result_delivered_exactly_once(
    link: LinkView,
    result: InjectedView,
    other: InjectedView,
    target_exists: bool,
)
    requires
        link.well_formed(),
        link.state == LinkState::Registered,
    ensures
        link.fire(result) is Ok,
        ({
            let firing = link.fire(result)->Ok_0;
            let delivered = firing.after_deliver(true);
            &&& firing.well_formed()
            &&& firing.state == LinkState::Firing
            &&& firing.fire(other) == Err::<LinkView, EngineError>(
                EngineError::UnauthorizedCallback,
            )
            &&& firing.delivery(true) == Ok::<InjectedView, EngineError>(result)
            &&& delivered.well_formed()
            &&& delivered.state == LinkState::Delivered
            &&& delivered.fire(other) == Err::<LinkView, EngineError>(
                EngineError::UnauthorizedCallback,
            )
            &&& delivered.delivery(target_exists) == Err::<InjectedView, EngineError>(
                EngineError::UnauthorizedCallback,
            )
            &&& delivered.after_deliver(target_exists) == delivered
        }),
{
}

/// Once a link is delivered, or its delivery has failed, no event changes it
/// and no result comes out of it.
pub proof fn lemma_terminal_states_are_final(
    link: LinkView,
    result: InjectedView,
    target_exists: bool,
)
    requires
        link.state == LinkState::Delivered || link.state == LinkState::DeliveryFailed,
    ensures
        link.fire(result) == Err::<LinkView, EngineError>(EngineError::UnauthorizedCallback),
        link.after_deliver(target_exists) == link,
        link.delivery(target_exists) == Err::<InjectedView, EngineError>(
            EngineError::UnauthorizedCallback,
        ),
{
}

/// A result is never delivered from a link that has not fired.
pub proof fn lemma_no_delivery_before_firing(link: LinkView, target_exists: bool)
    requires
        link.state == LinkState::Registered,
    ensures
        link.delivery(target_exists) == Err::<InjectedView, EngineError>(
            EngineError::UnauthorizedCallback,
        ),
        link.after_deliver(target_exists) == link,
{
}

} // verus!
