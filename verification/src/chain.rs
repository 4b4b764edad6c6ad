//! Operations and the chains they are appended to.
use vstd::prelude::*;
use crate::budget::ExecutionBudget;
use crate::continuation::{ContinuationLink, LinkView};
use crate::error::EngineError;
use crate::identity::ActorIdentity;

verus! {

/// The mathematical value of an [`Operation`].
pub struct OperationView {
    pub target: Seq<char>,
    pub entry_point: Seq<char>,
    pub payload: Seq<u8>,
    pub value_transfer: nat,
    pub budget: nat,
}

/// One scheduled unit of work: an entry point of the target actor, the
/// parameters it is called with, the value moved to the target, and the
/// slice of budget it may use. It cannot be changed once made.
#[derive(Debug)]
pub struct Operation {
    target: ActorIdentity,
    entry_point: String,
    payload: Vec<u8>,
    value_transfer: u128,
    budget: ExecutionBudget,
}

impl View for Operation {
    type V = OperationView;

    closed spec fn view(&self) -> OperationView {
        OperationView {
            target: self.target@,
            entry_point: self.entry_point@,
            payload: self.payload@,
            value_transfer: self.value_transfer as nat,
            budget: self.budget@,
        }
    }
}

/// What an operation asks of the host. An account answers four entry points
/// itself, whatever code it holds; every other name is an entry point of the
/// actor that lives under the account.
#[derive(Clone, Copy, Debug, PartialEq, Eq, Structural)]
pub enum ActionKind {
    /// `create_account`: bring the target account into being.
    CreateAccount,
    /// `transfer`: move the attached value to the target.
    Transfer,
    /// `add_full_access_key`: let the key in the payload act for the target.
    AddFullAccessKey,
    /// `deploy_contract`: install the code in the payload under the target.
    DeployContract,
    /// A call of an entry point of the target actor.
    Call,
}

/// Which kind of action the entry point named `entry_point` stands for.
pub open spec fn action_kind_of(entry_point: Seq<char>) -> ActionKind {
    if entry_point == "create_account"@ {
        ActionKind::CreateAccount
    } else if entry_point == "transfer"@ {
        ActionKind::Transfer
    } else if entry_point == "add_full_access_key"@ {
        ActionKind::AddFullAccessKey
    } else if entry_point == "deploy_contract"@ {
        ActionKind::DeployContract
    } else {
        ActionKind::Call
    }
}

/// The values of a sequence of operations, in order.
pub open spec fn operation_views(operations: Seq<Operation>) -> Seq<OperationView> {
    operations.map_values(|op: Operation| op@)
}

/// The sum of the budgets of a sequence of operations.
pub open spec fn budget_sum(operations: Seq<OperationView>) -> nat
    decreases operations.len(),
{
    if operations.len() == 0 {
        0
    } else {
        budget_sum(operations.drop_last()) + operations.last().budget
    }
}

/// Appending an operation adds its budget to the sum.
pub proof fn lemma_budget_sum_push(operations: Seq<OperationView>, op: OperationView)
    ensures
        budget_sum(operations.push(op)) == budget_sum(operations) + op.budget,
{
    assert(operations.push(op).drop_last() =~= operations);
}

impl Operation {
    #[verifier::type_invariant]
    spec fn inv(self) -> bool {
        self.budget@ > 0
    }

    /// Schedules a call of `entry_point` on `target`. A call with an empty
    /// budget is refused here, with `InsufficientBudget`, and never reaches a
    /// chain. Any `value_transfer` is accepted, zero included.
    pub fn new(
        target: ActorIdentity,
        entry_point: String,
        payload: Vec<u8>,
        value_transfer: u128,
        budget: ExecutionBudget,
    ) -> (r: Result<Operation, EngineError>)
        ensures
            budget@ == 0 ==> r == Err::<Operation, EngineError>(EngineError::InsufficientBudget),
            budget@ > 0 ==> r is Ok && r->Ok_0@ == (OperationView {
                target: target@,
                entry_point: entry_point@,
                payload: payload@,
                value_transfer: value_transfer as nat,
                budget: budget@,
            }),
    {
        if budget.is_zero() {
            return Err(EngineError::InsufficientBudget);
        }
        Ok(Operation { target, entry_point, payload, value_transfer, budget })
    }

    /// The actor this operation is to run on.
    pub fn target(&self) -> (target: &ActorIdentity)
        ensures
            target@ == self@.target,
    {
        &self.target
    }

    /// The name of the entry point to call.
    pub fn entry_point(&self) -> (name: &String)
        ensures
            name@ == self@.entry_point,
    {
        &self.entry_point
    }

    /// What this operation asks of the host.
    pub fn kind(&self) -> (kind: ActionKind)
        ensures
            kind == action_kind_of(self@.entry_point),
    {
        if self.entry_point == "create_account".to_owned() {
            ActionKind::CreateAccount
        } else if self.entry_point == "transfer".to_owned() {
            ActionKind::Transfer
        } else if self.entry_point == "add_full_access_key".to_owned() {
            ActionKind::AddFullAccessKey
        } else if self.entry_point == "deploy_contract".to_owned() {
            ActionKind::DeployContract
        } else {
            ActionKind::Call
        }
    }

    /// The serialized parameters of the call.
    pub fn payload(&self) -> (payload: &Vec<u8>)
        ensures
            payload@ == self@.payload,
    {
        &self.payload
    }

    /// The value moved to the target with the call.
    pub fn value_transfer(&self) -> (value: u128)
        ensures
            value == self@.value_transfer,
    {
        self.value_transfer
    }

    /// The slice of budget the call may use. It is never empty.
    pub fn budget(&self) -> (budget: ExecutionBudget)
        ensures
            budget@ == self@.budget,
            budget@ > 0,
    {
        proof {
            use_type_invariant(self);
        }
        self.budget
    }
}

/// The mathematical value of an [`ActionChain`].
pub struct ChainView {
    pub target: Seq<char>,
    pub operations: Seq<OperationView>,
    pub finalized: bool,
}

impl ChainView {
    /// An empty chain bound to `target`.
    pub open spec fn empty(target: Seq<char>) -> ChainView {
        ChainView { target, operations: Seq::empty(), finalized: false }
    }

    /// The chain after an attempt to append a call of `entry_point`. A
    /// finalized chain refuses every append; an open one refuses an empty
    /// budget.
    pub open spec fn append(
        self,
        entry_point: Seq<char>,
        payload: Seq<u8>,
        value_transfer: nat,
        budget: nat,
    ) -> Result<ChainView, EngineError> {
        if self.finalized {
            Err(EngineError::ChainFinalized)
        } else if budget == 0 {
            Err(EngineError::InsufficientBudget)
        } else {
            Ok(
                ChainView {
                    operations: self.operations.push(
                        OperationView {
                            target: self.target,
                            entry_point,
                            payload,
                            value_transfer,
                            budget,
                        },
                    ),
                    ..self
                },
            )
        }
    }

    /// What an open chain hands off when it is finalized. A chain can be
    /// finalized once.
    pub open spec fn finalize(self) -> Result<HandleView, EngineError> {
        if self.finalized {
            Err(EngineError::ChainFinalized)
        } else {
            Ok(HandleView { target: self.target, operations: self.operations, continuation: None })
        }
    }

    /// The chain that is left behind by a successful hand-off: frozen, its
    /// operations gone with the handle.
    pub open spec fn frozen(self) -> ChainView {
        ChainView { target: self.target, operations: Seq::empty(), finalized: true }
    }
}

/// The mathematical value of a [`ChainHandle`]: what the host is given.
pub struct HandleView {
    pub target: Seq<char>,
    pub operations: Seq<OperationView>,
    pub continuation: Option<(Seq<char>, nat)>,
}

impl HandleView {
    /// Every operation runs on the handle's target with a budget above zero,
    /// and so does the continuation, if there is one.
    pub open spec fn well_formed(self) -> bool {
        &&& forall|i: int|
            0 <= i < self.operations.len() ==> {
                &&& (#[trigger] self.operations[i]).target == self.target
                &&& self.operations[i].budget > 0
            }
        &&& self.continuation matches Some(bound) ==> bound.1 > 0
    }

    /// All the budget that this hand-off spends: that of its operations and
    /// that of its continuation.
    pub open spec fn total_budget(self) -> nat {
        budget_sum(self.operations) + match self.continuation {
            Some(bound) => bound.1,
            None => 0,
        }
    }

    /// The handle after an attempt to bind a continuation to its end, with
    /// `budget` set aside for `target_entry_point`.
    pub open spec fn bind(self, target_entry_point: Seq<char>, budget: nat) -> Result<
        HandleView,
        EngineError,
    > {
        if budget == 0 {
            Err(EngineError::InsufficientBudget)
        } else if self.continuation is Some {
            Err(EngineError::ContinuationAlreadyBound)
        } else {
            Ok(HandleView { continuation: Some((target_entry_point, budget)), ..self })
        }
    }
}

/// An ordered, append-only sequence of operations against one actor. It is
/// built while an invocation runs and handed off once.
#[derive(Debug)]
pub struct ActionChain {
    target: ActorIdentity,
    operations: Vec<Operation>,
    finalized: bool,
}

impl View for ActionChain {
    type V = ChainView;

    closed spec fn view(&self) -> ChainView {
        ChainView {
            target: self.target@,
            operations: operation_views(self.operations@),
            finalized: self.finalized,
        }
    }
}

/// What a chain's continuation is bound to, as the host is told of it.
#[derive(Debug)]
pub struct ContinuationDescriptor {
    target_entry_point: String,
    budget: ExecutionBudget,
}

impl View for ContinuationDescriptor {
    type V = (Seq<char>, nat);

    closed spec fn view(&self) -> (Seq<char>, nat) {
        (self.target_entry_point@, self.budget@)
    }
}

impl ContinuationDescriptor {
    /// The entry point that receives the chain's result.
    pub fn target_entry_point(&self) -> (name: &String)
        ensures
            name@ == self@.0,
    {
        &self.target_entry_point
    }

    /// The budget set aside for that entry point.
    pub fn budget(&self) -> (budget: ExecutionBudget)
        ensures
            budget@ == self@.1,
    {
        self.budget
    }
}

/// A finalized chain, ready for the host: its operations in the order in
/// which they were appended, and the continuation bound to its end, if any.
#[derive(Debug)]
pub struct ChainHandle {
    target: ActorIdentity,
    operations: Vec<Operation>,
    continuation: Option<ContinuationDescriptor>,
}

impl View for ChainHandle {
    type V = HandleView;

    closed spec fn view(&self) -> HandleView {
        HandleView {
            target: self.target@,
            operations: operation_views(self.operations@),
            continuation: match self.continuation {
                Some(bound) => Some(bound@),
                None => None,
            },
        }
    }
}

impl ActionChain {
    #[verifier::type_invariant]
    spec fn inv(self) -> bool {
        &&& forall|i: int|
            0 <= i < self.operations@.len() ==> {
                &&& (#[trigger] self.operations@[i])@.target == self.target@
                &&& self.operations@[i]@.budget > 0
            }
        &&& self.finalized ==> self.operations@.len() == 0
    }

    /// An empty chain bound to `target`.
    pub fn new(target: ActorIdentity) -> (chain: ActionChain)
        ensures
            chain@ == ChainView::empty(target@),
    {
        let chain = ActionChain { target, operations: Vec::new(), finalized: false };
        assert(operation_views(chain.operations@) =~= Seq::<OperationView>::empty());
        chain
    }

    /// The actor every operation of this chain runs on.
    pub fn target(&self) -> (target: &ActorIdentity)
        ensures
            target@ == self@.target,
    {
        &self.target
    }

    /// How many operations the chain holds.
    pub fn len(&self) -> (n: usize)
        ensures
            n == self@.operations.len(),
    {
        self.operations.len()
    }

    /// Whether the chain has been handed off.
    pub fn is_finalized(&self) -> (finalized: bool)
        ensures
            finalized == self@.finalized,
    {
        self.finalized
    }

    /// Appends a call of `entry_point` on the chain's target, to run after
    /// all operations appended before it.
    ///
    /// Fails with `ChainFinalized` once the chain has been handed off, and
    /// with `InsufficientBudget` when `budget` is empty. A failed append
    /// leaves the chain as it was.
    pub fn append(
        &mut self,
        entry_point: String,
        params: Vec<u8>,
        value_transfer: u128,
        budget: ExecutionBudget,
    ) -> (r: Result<(), EngineError>)
        ensures
            match old(self)@.append(entry_point@, params@, value_transfer as nat, budget@) {
                Ok(next) => r is Ok && final(self)@ == next,
                Err(e) => r == Err::<(), EngineError>(e) && final(self)@ == old(self)@,
            },
    {
        proof {
            use_type_invariant(&*self);
        }
        if self.finalized {
            return Err(EngineError::ChainFinalized);
        }
        match Operation::new(self.target.clone(), entry_point, params, value_transfer, budget) {
            Err(e) => Err(e),
            Ok(op) => {
                let ghost before = self.operations@;
                let mut operations: Vec<Operation> = Vec::new();
                core::mem::swap(&mut operations, &mut self.operations);
                operations.push(op);
                core::mem::swap(&mut operations, &mut self.operations);
                assert(operation_views(before.push(op)) =~= operation_views(before).push(op@));
                Ok(())
            },
        }
    }

    /// Freezes the chain and returns the handle that is given to the host.
    ///
    /// The operations leave with the handle, in the order in which they were
    /// appended; the chain stays behind frozen and empty, and every later
    /// `append` or `finalize` on it fails with `ChainFinalized`.
    pub fn finalize(&mut self) -> (r: Result<ChainHandle, EngineError>)
        ensures
            match old(self)@.finalize() {
                Ok(handle) => {
                    &&& r is Ok
                    &&& r->Ok_0@ == handle
                    &&& handle.well_formed()
                    &&& final(self)@ == old(self)@.frozen()
                },
                Err(e) => r is Err && r->Err_0 == e && final(self)@ == old(self)@,
            },
    {
        proof {
            use_type_invariant(&*self);
        }
        if self.finalized {
            return Err(EngineError::ChainFinalized);
        }
        let mut operations: Vec<Operation> = Vec::new();
        core::mem::swap(&mut operations, &mut self.operations);
        self.finalized = true;
        let handle = ChainHandle { target: self.target.clone(), operations, continuation: None };
        proof {
            assert(operation_views(self.operations@) =~= Seq::<OperationView>::empty());
        }
        Ok(handle)
    }
}

impl ChainHandle {
    #[verifier::type_invariant]
    spec fn inv(self) -> bool {
        self@.well_formed()
    }

    /// The actor the operations run on.
    pub fn target(&self) -> (target: &ActorIdentity)
        ensures
            target@ == self@.target,
    {
        &self.target
    }

    /// The operations, in the order in which they are to run.
    pub fn operations(&self) -> (operations: &Vec<Operation>)
        ensures
            operation_views(operations@) == self@.operations,
            self@.well_formed(),
    {
        proof {
            use_type_invariant(self);
        }
        &self.operations
    }

    /// All the budget that this hand-off spends: that of its operations and
    /// that of its continuation. An invocation may hand off no more than it
    /// was given itself.
    pub fn total_budget(&self) -> (total: u128)
        ensures
            total == self@.total_budget(),
    {
        let mut total: u128 = 0;
        let mut i: usize = 0;
        assert(operation_views(self.operations@).take(0) =~= Seq::<OperationView>::empty());
        while i < self.operations.len()
            invariant
                i <= self.operations@.len(),
                total == budget_sum(operation_views(self.operations@).take(i as int)),
                total <= i * u64::MAX,
            decreases self.operations@.len() - i,
        {
            let ghost views = operation_views(self.operations@);
            let units = self.operations[i].budget().units();
            proof {
                assert(views.take(i + 1) =~= views.take(i as int).push(views[i as int]));
                lemma_budget_sum_push(views.take(i as int), views[i as int]);
                assert((i + 1) * u64::MAX == i * u64::MAX + u64::MAX) by (nonlinear_arith);
                assert(i * u64::MAX <= usize::MAX * u64::MAX) by (nonlinear_arith)
                    requires
                        i <= usize::MAX,
                ;
            }
            total = total + units as u128;
            i = i + 1;
        }
        assert(operation_views(self.operations@).take(i as int) =~= operation_views(
            self.operations@,
        ));
        proof {
            assert(i * u64::MAX <= usize::MAX * u64::MAX) by (nonlinear_arith)
                requires
                    i <= usize::MAX,
            ;
        }
        match &self.continuation {
            Some(bound) => total + bound.budget.units() as u128,
            None => total,
        }
    }

    /// Takes the handle apart for execution: its operations, in order.
    pub fn into_operations(self) -> (operations: Vec<Operation>)
        ensures
            operation_views(operations@) == self@.operations,
            self@.well_formed(),
    {
        proof {
            use_type_invariant(&self);
        }
        self.operations
    }

    /// The continuation bound to the end of the chain, if there is one.
    pub fn continuation(&self) -> (bound: Option<&ContinuationDescriptor>)
        ensures
            bound is Some <==> self@.continuation is Some,
            bound matches Some(descriptor) ==> descriptor@ == self@.continuation->0,
    {
        self.continuation.as_ref()
    }

    /// Binds a continuation to the end of the chain: when the chain has
    /// resolved, with a result or with a failure, `target_entry_point` of the
    /// actor that built the chain is invoked with what it resolved to.
    ///
    /// `budget` is set aside for that invocation now; it must not be empty
    /// (`InsufficientBudget`). The end of a chain takes one continuation: a
    /// second one is refused with `ContinuationAlreadyBound`. A failed call
    /// leaves the handle as it was.
    pub fn and_then(&mut self, target_entry_point: String, budget: ExecutionBudget) -> (r: Result<
        ContinuationLink,
        EngineError,
    >)
        ensures
            match old(self)@.bind(target_entry_point@, budget@) {
                Ok(next) => {
                    &&& r is Ok
                    &&& r->Ok_0@ == LinkView::registered(target_entry_point@, budget@)
                    &&& final(self)@ == next
                },
                Err(e) => r is Err && r->Err_0 == e && final(self)@ == old(self)@,
            },
    {
        proof {
            use_type_invariant(&*self);
        }
        if budget.is_zero() {
            return Err(EngineError::InsufficientBudget);
        }
        if self.continuation.is_some() {
            return Err(EngineError::ContinuationAlreadyBound);
        }
        let name = target_entry_point.clone();
        match ContinuationLink::register(target_entry_point, budget) {
            Err(e) => Err(e),
            Ok(link) => {
                self.continuation = Some(ContinuationDescriptor { target_entry_point: name, budget });
                Ok(link)
            },
        }
    }
}

} // verus!
