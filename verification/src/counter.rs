//! The counter actor: an 8-bit counter behind overflow guards, and the
//! entry points through which it schedules work on other actors.
use vstd::prelude::*;
use crate::budget::{can_split, share_of, ExecutionBudget};
use crate::chain::{lemma_budget_sum_push, ActionChain, ChainHandle, HandleView, OperationView};
use crate::continuation::{ContinuationLink, InjectedResult, InjectedView, LinkView};
use crate::error::EngineError;
use crate::identity::ActorIdentity;
use crate::injector::{continuation_call, CallbackInjector, Invocation, InvocationView};
use crate::run::{step_failure, ReportView, RunView, StepView};

verus! {

/// The counter after one step up, or why there is none.
pub open spec fn incremented(value: u8) -> Result<u8, EngineError> {
    if value < u8::MAX {
        Ok((value + 1) as u8)
    } else {
        Err(EngineError::CounterOverflow)
    }
}

/// The counter after one step down, or why there is none.
pub open spec fn decremented(value: u8) -> Result<u8, EngineError> {
    if value > 0 {
        Ok((value - 1) as u8)
    } else {
        Err(EngineError::CounterOverflow)
    }
}

/// A call of `entry_point` on `target`.
pub open spec fn scheduled(
    target: Seq<char>,
    entry_point: Seq<char>,
    payload: Seq<u8>,
    value_transfer: nat,
    budget: nat,
) -> OperationView {
    OperationView { target, entry_point, payload, value_transfer, budget }
}

/// The chain that sets up a new actor under `account_id`: create the
/// account, fund it with `amount`, give `signer_pk` full access, deploy
/// `code`. Each step gets a quarter of `budget`.
pub open spec fn deployment(
    account_id: Seq<char>,
    amount: nat,
    signer_pk: Seq<u8>,
    code: Seq<u8>,
    budget: nat,
) -> HandleView {
    let quarter = share_of(budget, 4);
    HandleView {
        target: account_id,
        operations: seq![
            scheduled(account_id, "create_account"@, Seq::empty(), 0, quarter),
            scheduled(account_id, "transfer"@, Seq::empty(), amount, quarter),
            scheduled(account_id, "add_full_access_key"@, signer_pk, 0, quarter),
            scheduled(account_id, "deploy_contract"@, code, 0, quarter),
        ],
        continuation: None,
    }
}

/// The chain that moves `deposit` to `account_id`: one transfer, on the
/// whole of `budget`.
pub open spec fn transfer(account_id: Seq<char>, deposit: nat, budget: nat) -> HandleView {
    HandleView {
        target: account_id,
        operations: seq![scheduled(account_id, "transfer"@, Seq::empty(), deposit, budget)],
        continuation: None,
    }
}

/// The chain that calls `entry_point` on `target` and brings the result
/// back to this actor's `receive`: half of `budget` for the call, half set
/// aside for the continuation.
pub open spec fn remote_call(
    target: Seq<char>,
    entry_point: Seq<char>,
    params: Seq<u8>,
    budget: nat,
) -> HandleView {
    let half = share_of(budget, 2);
    HandleView {
        target,
        operations: seq![scheduled(target, entry_point, params, 0, half)],
        continuation: Some(("receive"@, half)),
    }
}

/// What `receive` makes of an injected result: one more than the scalar
/// that was delivered, under the counter's overflow guard. A failure of the
/// source is passed on; a payload that is not one byte cannot be taken in.
pub open spec fn received(injected: InjectedView) -> Result<u8, EngineError> {
    match injected {
        InjectedView::Failure(reason) => Err(reason),
        InjectedView::Success(payload) => if payload.len() != 1 {
            Err(EngineError::DeliveryFailed)
        } else {
            incremented(payload[0])
        },
    }
}

/// What `receive` makes of an invocation: it takes nothing but the
/// resolution of a continuation that was bound to it.
pub open spec fn receive_of(invocation: InvocationView) -> Result<u8, EngineError> {
    if invocation.entry_point != "receive"@ || invocation.injected is None {
        Err(EngineError::UnauthorizedCallback)
    } else {
        received(invocation.injected->0)
    }
}

/// The entry points of the counter actor. All but `receive` are public.
pub open spec fn counter_entry_points() -> Map<Seq<char>, bool> {
    Map::<Seq<char>, bool>::empty().insert("get_num"@, false).insert("increment"@, false).insert(
        "decrement"@,
        false,
    ).insert("deploy_contract"@, false).insert("transfer_money"@, false).insert(
        "call_remote_and_chain"@,
        false,
    ).insert("receive"@, true)
}

/// An actor that owns one 8-bit counter. The counter starts at zero and
/// changes only through `increment` and `decrement`.
#[derive(Debug)]
pub struct Counter {
    val: u8,
}

impl View for Counter {
    type V = u8;

    closed spec fn view(&self) -> u8 {
        self.val
    }
}

impl Default for Counter {
    fn default() -> (counter: Counter)
        ensures
            counter@ == 0,
    {
        Counter { val: 0 }
    }
}

impl Counter {
    /// The actor as it was stored, with its counter at `val`.
    pub fn with_value(val: u8) -> (counter: Counter)
        ensures
            counter@ == val,
    {
        Counter { val }
    }

    /// The entry points of this actor, for the injector that every
    /// invocation passes: `receive` takes only the result of a continuation,
    /// the others are public.
    pub fn entry_points() -> (table: CallbackInjector)
        ensures
            table@ == counter_entry_points(),
    {
        proof {
            lemma_entry_point_names_differ();
        }
        let mut table = CallbackInjector::new();
        table.declare("get_num".to_owned(), false);
        table.declare("increment".to_owned(), false);
        table.declare("decrement".to_owned(), false);
        table.declare("deploy_contract".to_owned(), false);
        table.declare("transfer_money".to_owned(), false);
        table.declare("call_remote_and_chain".to_owned(), false);
        table.declare("receive".to_owned(), true);
        table
    }

    /// The value of the counter.
    pub fn get_num(&self) -> (val: u8)
        ensures
            val == self@,
    {
        self.val
    }

    /// Adds one to the counter.
    ///
    /// At the largest 8-bit value this fails with `CounterOverflow`; the
    /// check comes before the change, so a failed call changes nothing and
    /// the counter never wraps.
    pub fn increment(&mut self) -> (r: Result<(), EngineError>)
        ensures
            match incremented(old(self)@) {
                Ok(val) => r is Ok && final(self)@ == val,
                Err(e) => r == Err::<(), EngineError>(e) && final(self)@ == old(self)@,
            },
    {
        if self.val == u8::MAX {
            return Err(EngineError::CounterOverflow);
        }
        self.val = self.val + 1;
        Ok(())
    }

    /// Takes one from the counter.
    ///
    /// The lower bound is guarded as the upper one is: at zero this fails
    /// with `CounterOverflow`, changes nothing, and never wraps.
    pub fn decrement(&mut self) -> (r: Result<(), EngineError>)
        ensures
            match decremented(old(self)@) {
                Ok(val) => r is Ok && final(self)@ == val,
                Err(e) => r == Err::<(), EngineError>(e) && final(self)@ == old(self)@,
            },
    {
        if self.val == 0 {
            return Err(EngineError::CounterOverflow);
        }
        self.val = self.val - 1;
        Ok(())
    }

    /// Sets up a new actor under `account_id`: a chain that creates the
    /// account, moves `amount` to it, gives `signer_pk` full access to it and
    /// deploys `code` into it, in that order.
    ///
    /// `budget` is cut in quarters, one for each step, so the chain never
    /// spends more than it was given. With fewer than four units there is no
    /// quarter to give and the call fails with `BudgetExhausted`. If a step
    /// fails when the chain runs, the steps before it are not undone.
    pub fn deploy_contract(
        &self,
        account_id: String,
        amount: u128,
        signer_pk: Vec<u8>,
        code: Vec<u8>,
        budget: ExecutionBudget,
    ) -> (r: Result<ChainHandle, EngineError>)
        ensures
            r is Ok <==> can_split(budget@, 4),
            r matches Err(e) ==> e == EngineError::BudgetExhausted,
            r matches Ok(handle) ==> {
                &&& handle@ == deployment(account_id@, amount as nat, signer_pk@, code@, budget@)
                &&& handle@.well_formed()
                &&& handle@.total_budget() <= budget@
            },
    {
        let quarters = match budget.split(4) {
            Ok(quarters) => quarters,
            Err(e) => {
                return Err(e);
            },
        };
        let mut chain = ActionChain::new(ActorIdentity::new(account_id));
        chain.append("create_account".to_owned(), Vec::new(), 0, quarters[0])?;
        chain.append("transfer".to_owned(), Vec::new(), amount, quarters[1])?;
        chain.append("add_full_access_key".to_owned(), signer_pk, 0, quarters[2])?;
        chain.append("deploy_contract".to_owned(), code, 0, quarters[3])?;
        proof {
            assert(chain@.operations =~= deployment(
                account_id@,
                amount as nat,
                signer_pk@,
                code@,
                budget@,
            ).operations);
            lemma_deployment_within_budget(
                account_id@,
                amount as nat,
                signer_pk@,
                code@,
                budget@,
            );
        }
        chain.finalize()
    }

    /// Moves `deposit` to `account_id`: a chain of one transfer, which gets
    /// the whole of `budget`. A deposit of zero is as good as any other. With
    /// an empty budget the call fails with `BudgetExhausted`. The counter is
    /// not touched.
    pub fn transfer_money(&mut self, account_id: String, deposit: u128, budget: ExecutionBudget) -> (r:
        Result<ChainHandle, EngineError>)
        ensures
            final(self)@ == old(self)@,
            r is Ok <==> can_split(budget@, 1),
            r matches Err(e) ==> e == EngineError::BudgetExhausted,
            r matches Ok(handle) ==> {
                &&& handle@ == transfer(account_id@, deposit as nat, budget@)
                &&& handle@.well_formed()
                &&& handle@.total_budget() == budget@
            },
    {
        let whole = match budget.split(1) {
            Ok(whole) => whole,
            Err(e) => {
                return Err(e);
            },
        };
        let mut chain = ActionChain::new(ActorIdentity::new(account_id));
        chain.append("transfer".to_owned(), Vec::new(), deposit, whole[0])?;
        proof {
            assert(chain@.operations =~= transfer(account_id@, deposit as nat, budget@).operations);
            lemma_transfer_within_budget(account_id@, deposit as nat, budget@);
        }
        chain.finalize()
    }

    /// Calls `entry_point` on `target` and arranges for the result to come
    /// back: the chain of that one call, with a continuation to this actor's
    /// `receive` bound to its end.
    ///
    /// `budget` is cut in halves: one for the call, one set aside now for
    /// the continuation, which therefore never draws on what this invocation
    /// has left. With fewer than two units the call fails with
    /// `BudgetExhausted`. Along with the handle comes the link that fires
    /// when the chain resolves.
    pub fn call_remote_and_chain(
        &self,
        target: String,
        entry_point: String,
        params: Vec<u8>,
        budget: ExecutionBudget,
    ) -> (r: Result<(ChainHandle, ContinuationLink), EngineError>)
        ensures
            r is Ok <==> can_split(budget@, 2),
            r matches Err(e) ==> e == EngineError::BudgetExhausted,
            r matches Ok(scheduled) ==> {
                &&& scheduled.0@ == remote_call(target@, entry_point@, params@, budget@)
                &&& scheduled.0@.well_formed()
                &&& scheduled.0@.total_budget() <= budget@
                &&& scheduled.1@ == LinkView::registered("receive"@, share_of(budget@, 2))
            },
    {
        let halves = match budget.split(2) {
            Ok(halves) => halves,
            Err(e) => {
                return Err(e);
            },
        };
        let mut chain = ActionChain::new(ActorIdentity::new(target));
        chain.append(entry_point, params, 0, halves[0])?;
        let mut handle = chain.finalize()?;
        let link = handle.and_then("receive".to_owned(), halves[1])?;
        proof {
            assert(handle@.operations =~= remote_call(
                target@,
                entry_point@,
                params@,
                budget@,
            ).operations);
            lemma_remote_call_within_budget(target@, entry_point@, params@, budget@);
        }
        Ok((handle, link))
    }

    /// The entry point that takes the result of a remote call.
    ///
    /// It accepts only an invocation that is the resolution of a
    /// continuation bound to `receive`; anything else is refused with
    /// `UnauthorizedCallback`. Of a delivered scalar it returns the
    /// successor, guarded as the counter is; a failure of the source is
    /// passed on to the caller; a payload that is not a single byte is
    /// refused with `DeliveryFailed`. The counter is not touched.
    pub fn receive(&self, invocation: Invocation) -> (r: Result<u8, EngineError>)
        ensures
            r == receive_of(invocation@),
    {
        let name = "receive".to_owned();
        if !(*invocation.entry_point() == name) {
            return Err(EngineError::UnauthorizedCallback);
        }
        match invocation.injected() {
            None => Err(EngineError::UnauthorizedCallback),
            Some(InjectedResult::Failure(reason)) => Err(*reason),
            Some(InjectedResult::Success(payload)) => {
                if payload.len() != 1 {
                    Err(EngineError::DeliveryFailed)
                } else if payload[0] == u8::MAX {
                    Err(EngineError::CounterOverflow)
                } else {
                    Ok(payload[0] + 1)
                }
            },
        }
    }
}

/// Below the largest 8-bit value a step up succeeds and adds exactly one; at
/// the largest value it fails with `CounterOverflow`. A step down that
/// follows a step up gives the value back.
pub proof fn lemma_increment_is_guarded(value: u8)
    ensures
        value < 255 ==> incremented(value) == Ok::<u8, EngineError>((value + 1) as u8),
        value == 255 ==> incremented(value) == Err::<u8, EngineError>(
            EngineError::CounterOverflow,
        ),
        incremented(value) matches Ok(next) ==> decremented(next) == Ok::<u8, EngineError>(value),
{
}

/// Above zero a step down succeeds and takes exactly one; at zero it fails.
/// A step up that follows a step down gives the value back.
pub proof fn lemma_decrement_is_guarded(value: u8)
    ensures
        value > 0 ==> decremented(value) == Ok::<u8, EngineError>((value - 1) as u8),
        value == 0 ==> decremented(value) == Err::<u8, EngineError>(EngineError::CounterOverflow),
        decremented(value) matches Ok(next) ==> incremented(next) == Ok::<u8, EngineError>(value),
{
}

/// A remote call, from scheduling to `receive`: when the call completes
/// within its half of the budget and returns the scalar `value`, the
/// continuation fires with that scalar, the injector lets it through to
/// `receive`, on the half that was set aside, and `receive` returns the
/// successor of `value`.
pub proof fn lemma_remote_result_reaches_receive(
    target: Seq<char>,
    entry_point: Seq<char>,
    params: Seq<u8>,
    budget: nat,
    consumed: nat,
    value: u8,
    callback_params: Seq<u8>,
)
    requires
        can_split(budget, 2),
        consumed <= share_of(budget, 2),
    ensures
        ({
            let handle = remote_call(target, entry_point, params, budget);
            let report = ReportView { consumed, outcome: StepView::Completed(seq![value]) };
            let run = RunView::start(handle.operations).record(report);
            let bound = handle.continuation->0;
            let link = LinkView::registered(bound.0, bound.1).fire(run.resolution()->0)->Ok_0;
            let invocation = continuation_call(counter_entry_points(), link, callback_params);
            &&& run.resolution() == Some(InjectedView::Success(seq![value]))
            &&& invocation is Ok
            &&& invocation->Ok_0.injected == Some(InjectedView::Success(seq![value]))
            &&& invocation->Ok_0.budget == share_of(budget, 2)
            &&& receive_of(invocation->Ok_0) == incremented(value)
        }),
{
    lemma_entry_point_names_differ();
}

/// When the remote call fails, by its own fault or by using more than its
/// half of the budget, `receive` is still invoked, once, and is told why.
pub proof fn lemma_remote_failure_reaches_receive(
    target: Seq<char>,
    entry_point: Seq<char>,
    params: Seq<u8>,
    budget: nat,
    report: ReportView,
    callback_params: Seq<u8>,
)
    requires
        can_split(budget, 2),
        step_failure(remote_call(target, entry_point, params, budget).operations[0], report) is Some,
    ensures
        ({
            let handle = remote_call(target, entry_point, params, budget);
            let reason = step_failure(handle.operations[0], report)->0;
            let run = RunView::start(handle.operations).record(report);
            let bound = handle.continuation->0;
            let link = LinkView::registered(bound.0, bound.1).fire(run.resolution()->0)->Ok_0;
            let invocation = continuation_call(counter_entry_points(), link, callback_params);
            &&& run.resolution() == Some(InjectedView::Failure(reason))
            &&& invocation is Ok
            &&& receive_of(invocation->Ok_0) == Err::<u8, EngineError>(reason)
        }),
{
    lemma_entry_point_names_differ();
}

/// The names of the counter's entry points are all different, so each is
/// declared exactly as the table says: `receive` continuation-only, every
/// other one public.
pub proof fn lemma_entry_point_names_differ()
    ensures
        counter_entry_points().dom() =~= set![
            "get_num"@,
            "increment"@,
            "decrement"@,
            "deploy_contract"@,
            "transfer_money"@,
            "call_remote_and_chain"@,
            "receive"@,
        ],
        counter_entry_points()["receive"@],
        !counter_entry_points()["get_num"@],
        !counter_entry_points()["increment"@],
        !counter_entry_points()["decrement"@],
        !counter_entry_points()["deploy_contract"@],
        !counter_entry_points()["transfer_money"@],
        !counter_entry_points()["call_remote_and_chain"@],
        "receive"@ != "get_num"@,
        "increment"@ != "get_num"@,
        "decrement"@ != "get_num"@,
        "decrement"@ != "increment"@,
{
    reveal_strlit("get_num");
    reveal_strlit("increment");
    reveal_strlit("decrement");
    reveal_strlit("deploy_contract");
    reveal_strlit("transfer_money");
    reveal_strlit("call_remote_and_chain");
    reveal_strlit("receive");
    assert("receive"@[0] != "get_num"@[0]);
    assert("decrement"@[0] != "increment"@[0]);
}

/// Setting up a new actor spends four quarters of the budget, which is
/// never more than the budget, and no step goes without.
pub proof fn lemma_deployment_within_budget(
    account_id: Seq<char>,
    amount: nat,
    signer_pk: Seq<u8>,
    code: Seq<u8>,
    budget: nat,
)
    requires
        can_split(budget, 4),
    ensures
        deployment(account_id, amount, signer_pk, code, budget).well_formed(),
        deployment(account_id, amount, signer_pk, code, budget).total_budget() == 4 * share_of(
            budget,
            4,
        ),
        deployment(account_id, amount, signer_pk, code, budget).total_budget() <= budget,
{
    let plan = deployment(account_id, amount, signer_pk, code, budget);
    let ops = plan.operations;
    let none = Seq::<OperationView>::empty();
    assert(ops =~= none.push(ops[0]).push(ops[1]).push(ops[2]).push(ops[3]));
    lemma_budget_sum_push(none, ops[0]);
    lemma_budget_sum_push(none.push(ops[0]), ops[1]);
    lemma_budget_sum_push(none.push(ops[0]).push(ops[1]), ops[2]);
    lemma_budget_sum_push(none.push(ops[0]).push(ops[1]).push(ops[2]), ops[3]);
}

/// A transfer spends exactly the budget it was given.
pub proof fn lemma_transfer_within_budget(account_id: Seq<char>, deposit: nat, budget: nat)
    requires
        can_split(budget, 1),
    ensures
        transfer(account_id, deposit, budget).well_formed(),
        transfer(account_id, deposit, budget).total_budget() == budget,
{
    let ops = transfer(account_id, deposit, budget).operations;
    let none = Seq::<OperationView>::empty();
    assert(ops =~= none.push(ops[0]));
    lemma_budget_sum_push(none, ops[0]);
}

/// A remote call and its continuation together spend two halves of the
/// budget, which is never more than the budget, and neither goes without.
pub proof fn lemma_remote_call_within_budget(
    target: Seq<char>,
    entry_point: Seq<char>,
    params: Seq<u8>,
    budget: nat,
)
    requires
        can_split(budget, 2),
    ensures
        remote_call(target, entry_point, params, budget).well_formed(),
        remote_call(target, entry_point, params, budget).total_budget() == 2 * share_of(budget, 2),
        remote_call(target, entry_point, params, budget).total_budget() <= budget,
{
    let ops = remote_call(target, entry_point, params, budget).operations;
    let none = Seq::<OperationView>::empty();
    assert(ops =~= none.push(ops[0]));
    lemma_budget_sum_push(none, ops[0]);
}

} // verus!
