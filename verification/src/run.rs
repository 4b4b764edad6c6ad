//! How a handed-off chain runs: strictly in order, halting at the first
//! operation that fails.
//!
//! The host executes the operations; this module decides. It tells the host
//! which operation is next, takes the host's report of how that operation
//! went, and says what the chain has resolved to.
use vstd::prelude::*;
use crate::chain::{operation_views, ChainHandle, Operation, OperationView};
use crate::continuation::{InjectedResult, InjectedView};
use crate::error::EngineError;

verus! {

/// What the host reports of one executed operation.
#[derive(Debug, PartialEq, Eq)]
pub enum StepOutcome {
    /// The operation committed and returned this payload.
    Completed(Vec<u8>),
    /// The operation failed for this reason.
    Failed(EngineError),
}

/// The mathematical value of a [`StepOutcome`].
pub enum StepView {
    Completed(Seq<u8>),
    Failed(EngineError),
}

impl View for StepOutcome {
    type V = StepView;

    open spec fn view(&self) -> StepView {
        match self {
            StepOutcome::Completed(payload) => StepView::Completed(payload@),
            StepOutcome::Failed(reason) => StepView::Failed(*reason),
        }
    }
}

/// The host's report of one executed operation: the budget it used and how
/// it ended.
pub struct ReportView {
    pub consumed: nat,
    pub outcome: StepView,
}

/// Why an operation counts as failed, if it does: it used more than its
/// slice of budget, or the host reported a failure.
pub open spec fn step_failure(op: OperationView, report: ReportView) -> Option<EngineError> {
    if report.consumed > op.budget {
        Some(EngineError::BudgetExhausted)
    } else {
        match report.outcome {
            StepView::Completed(_) => None,
            StepView::Failed(reason) => Some(reason),
        }
    }
}

/// The mathematical value of a [`ChainRun`].
pub struct RunView {
    /// The operations of the chain, in order.
    pub operations: Seq<OperationView>,
    /// How many operations have been executed: always the first ones.
    pub executed: nat,
    /// The position and the reason of the failure that halted the run.
    pub failure: Option<(nat, EngineError)>,
    /// What the operation executed last returned.
    pub last_payload: Seq<u8>,
}

impl RunView {
    /// A run of `operations` of which nothing has been executed yet.
    pub open spec fn start(operations: Seq<OperationView>) -> RunView {
        RunView { operations, executed: 0, failure: None, last_payload: Seq::empty() }
    }

    /// What holds of every run: the executed operations are a prefix of the
    /// chain, and a failure is that of the operation executed last.
    pub open spec fn well_formed(self) -> bool {
        &&& self.executed <= self.operations.len()
        &&& self.failure matches Some(failure) ==> failure.0 + 1 == self.executed
    }

    /// Whether nothing more will be executed.
    pub open spec fn halted(self) -> bool {
        self.failure is Some || self.executed >= self.operations.len()
    }

    /// The operation that the host is to execute next.
    pub open spec fn next(self) -> Option<OperationView> {
        if self.halted() {
            None
        } else {
            Some(self.operations[self.executed as int])
        }
    }

    /// The run after the host has reported on the operation that was next.
    /// A report to a halted run changes nothing.
    pub open spec fn record(self, report: ReportView) -> RunView {
        if self.halted() {
            self
        } else {
            match step_failure(self.operations[self.executed as int], report) {
                Some(reason) => RunView {
                    executed: self.executed + 1,
                    failure: Some((self.executed, reason)),
                    ..self
                },
                None => RunView {
                    executed: self.executed + 1,
                    last_payload: report.outcome->Completed_0,
                    ..self
                },
            }
        }
    }

    /// The run after a series of reports, taken in order.
    pub open spec fn record_all(self, reports: Seq<ReportView>) -> RunView
        decreases reports.len(),
    {
        if reports.len() == 0 {
            self
        } else {
            self.record(reports.first()).record_all(reports.drop_first())
        }
    }

    /// Whether `status` says where this run stands. Exactly one status does,
    /// up to the width of the position it holds.
    pub open spec fn has_status(self, status: RunStatus) -> bool {
        match status {
            RunStatus::Running => !self.halted(),
            RunStatus::Succeeded => self.failure is None && self.halted(),
            RunStatus::Failed { at, reason } => self.failure == Some((at as nat, reason)),
        }
    }

    /// What the chain has resolved to, once it has: the failure that halted
    /// it, or else what its last operation returned.
    pub open spec fn resolution(self) -> Option<InjectedView> {
        match self.failure {
            Some(failure) => Some(InjectedView::Failure(failure.1)),
            None => if self.executed >= self.operations.len() {
                Some(InjectedView::Success(self.last_payload))
            } else {
                None
            },
        }
    }
}

/// Where a run stands.
#[derive(Clone, Copy, Debug, PartialEq, Eq, Structural)]
pub enum RunStatus {
    /// There is an operation left to execute.
    Running,
    /// Every operation has completed.
    Succeeded,
    /// The operation at position `at` failed; those after it were abandoned.
    Failed { at: usize, reason: EngineError },
}

/// The execution of one handed-off chain.
#[derive(Debug)]
pub struct ChainRun {
    operations: Vec<Operation>,
    executed: usize,
    failure: Option<(usize, EngineError)>,
    last_payload: Vec<u8>,
}

impl View for ChainRun {
    type V = RunView;

    closed spec fn view(&self) -> RunView {
        RunView {
            operations: operation_views(self.operations@),
            executed: self.executed as nat,
            failure: match self.failure {
                Some(failure) => Some((failure.0 as nat, failure.1)),
                None => None,
            },
            last_payload: self.last_payload@,
        }
    }
}

impl ChainRun {
    #[verifier::type_invariant]
    spec fn inv(self) -> bool {
        self@.well_formed()
    }

    /// Starts the run of a handed-off chain. Nothing has been executed yet.
    pub fn start(handle: ChainHandle) -> (run: ChainRun)
        ensures
            run@ == RunView::start(handle@.operations),
    {
        ChainRun {
            operations: handle.into_operations(),
            executed: 0,
            failure: None,
            last_payload: Vec::new(),
        }
    }

    /// How many operations have been executed. They are the first ones of
    /// the chain.
    pub fn executed(&self) -> (n: usize)
        ensures
            n == self@.executed,
            self@.well_formed(),
    {
        proof {
            use_type_invariant(self);
        }
        self.executed
    }

    /// The operation that the host is to execute next, or `None` when the
    /// run has halted: when all operations have completed or one has failed.
    pub fn next_operation(&self) -> (next: Option<&Operation>)
        ensures
            next is Some <==> self@.next() is Some,
            next matches Some(op) ==> op@ == self@.next()->0,
    {
        proof {
            use_type_invariant(self);
        }
        if self.failure.is_some() || self.executed >= self.operations.len() {
            None
        } else {
            Some(&self.operations[self.executed])
        }
    }

    /// Takes the host's report of the operation that was next: the budget
    /// it `consumed` and its `outcome`.
    ///
    /// The operation has failed if it used more than its slice
    /// (`BudgetExhausted`) or if the host says so. A failure halts the run:
    /// the operations after it are never handed out. What the failed
    /// operation and those before it have committed is not undone. A report
    /// to a halted run is ignored.
    pub fn record(&mut self, consumed: u64, outcome: StepOutcome) -> (status: RunStatus)
        ensures
            final(self)@ == old(self)@.record(ReportView { consumed: consumed as nat, outcome: outcome@ }),
            final(self)@.well_formed(),
            final(self)@.has_status(status),
    {
        proof {
            use_type_invariant(&*self);
        }
        if self.failure.is_some() || self.executed >= self.operations.len() {
            return self.status();
        }
        let at = self.executed;
        let allowed = self.operations[at].budget().units();
        if consumed > allowed {
            self.executed = at + 1;
            self.failure = Some((at, EngineError::BudgetExhausted));
        } else {
            match outcome {
                StepOutcome::Failed(reason) => {
                    self.executed = at + 1;
                    self.failure = Some((at, reason));
                },
                StepOutcome::Completed(payload) => {
                    self.last_payload = payload;
                    self.executed = at + 1;
                },
            }
        }
        self.status()
    }

    /// Where the run stands.
    pub fn status(&self) -> (status: RunStatus)
        ensures
            self@.has_status(status),
    {
        match self.failure {
            Some(failure) => RunStatus::Failed { at: failure.0, reason: failure.1 },
            None => if self.executed >= self.operations.len() {
                RunStatus::Succeeded
            } else {
                RunStatus::Running
            },
        }
    }

    /// What the chain has resolved to: `None` while it runs, then the
    /// failure that halted it, or else what its last operation returned.
    /// This is what a continuation bound to the chain fires with.
    pub fn resolution(&self) -> (resolved: Option<InjectedResult>)
        ensures
            resolved is Some <==> self@.resolution() is Some,
            resolved matches Some(result) ==> result@ == self@.resolution()->0,
    {
        match self.failure {
            Some(failure) => Some(InjectedResult::Failure(failure.1)),
            None => if self.executed >= self.operations.len() {
                Some(InjectedResult::Success(self.last_payload.clone()))
            } else {
                None
            },
        }
    }
}

/// A report keeps a run well formed, and executes at most one operation more.
pub proof fn lemma_record_keeps_prefix(run: RunView, report: ReportView)
    requires
        run.well_formed(),
    ensures
        run.record(report).well_formed(),
        run.record(report).operations == run.operations,
        run.record(report).executed == if run.halted() {
            run.executed
        } else {
            run.executed + 1
        },
{
}

/// A halted run stays as it is, whatever is reported to it.
pub proof fn lemma_halted_run_is_final(run: RunView, reports: Seq<ReportView>)
    requires
        run.halted(),
    ensures
        run.record_all(reports) == run,
    decreases reports.len(),
{
    if reports.len() > 0 {
        lemma_halted_run_is_final(run, reports.drop_first());
    }
}

/// From any point of a run that has not failed: if the next `k` operations
/// complete and the one after them fails, the run halts there.
pub proof fn lemma_run_halts_at_first_failure(run: RunView, reports: Seq<ReportView>, k: int)
    requires
        run.well_formed(),
        run.failure is None,
        0 <= k < reports.len(),
        run.executed + k < run.operations.len(),
        forall|j: int|
            0 <= j < k ==> step_failure(
                #[trigger] run.operations[run.executed + j],
                reports[j],
            ) is None,
        step_failure(run.operations[run.executed + k], reports[k]) is Some,
    ensures
        run.record_all(reports).executed == run.executed + k + 1,
        run.record_all(reports).failure == Some(
            (
                (run.executed + k) as nat,
                step_failure(run.operations[run.executed + k], reports[k])->0,
            ),
        ),
        run.record_all(reports).operations == run.operations,
    decreases k,
{
    let after = run.record(reports.first());
    let rest = reports.drop_first();
    if k == 0 {
        lemma_halted_run_is_final(after, rest);
    } else {
        assert(step_failure(run.operations[run.executed + 0int], reports[0]) is None);
        assert forall|j: int| 0 <= j < k - 1 implies step_failure(
            #[trigger] after.operations[after.executed + j],
            rest[j],
        ) is None by {
            assert(step_failure(run.operations[run.executed + (j + 1)], reports[j + 1]) is None);
        }
        lemma_run_halts_at_first_failure(after, rest, k - 1);
    }
}

/// A chain whose operation at position `k` is the first to fail halts there:
/// exactly the operations up to and including that one have been executed,
/// none after it is ever handed out, and the chain resolves to that failure.
pub proof fn lemma_chain_halts_at_first_failure(
    operations: Seq<OperationView>,
    reports: Seq<ReportView>,
    k: int,
)
    requires
        0 <= k < operations.len(),
        k < reports.len(),
        forall|j: int| 0 <= j < k ==> step_failure(#[trigger] operations[j], reports[j]) is None,
        step_failure(operations[k], reports[k]) is Some,
    ensures
        ({
            let end = RunView::start(operations).record_all(reports);
            let reason = step_failure(operations[k], reports[k])->0;
            &&& end.executed == k + 1
            &&& end.failure == Some((k as nat, reason))
            &&& end.next() is None
            &&& k <= usize::MAX ==> end.has_status(RunStatus::Failed { at: k as usize, reason })
            &&& end.resolution() == Some(InjectedView::Failure(reason))
        }),
{
    lemma_run_halts_at_first_failure(RunView::start(operations), reports, k);
}

/// Operations run in the order in which they stand in the chain: after the
/// first `reports.len()` of them have completed, the one at that position is
/// next.
pub proof fn lemma_operations_run_in_order(
    operations: Seq<OperationView>,
    reports: Seq<ReportView>,
)
    requires
        reports.len() < operations.len(),
        forall|j: int|
            0 <= j < reports.len() ==> step_failure(#[trigger] operations[j], reports[j]) is None,
    ensures
        RunView::start(operations).record_all(reports).next() == Some(
            operations[reports.len() as int],
        ),
{
    lemma_run_advances(RunView::start(operations), reports);
}

/// From any point of a run that has not failed: as long as operations
/// complete, the run moves on by one operation for each report.
pub proof fn lemma_run_advances(run: RunView, reports: Seq<ReportView>)
    requires
        run.well_formed(),
        run.failure is None,
        run.executed + reports.len() <= run.operations.len(),
        forall|j: int|
            0 <= j < reports.len() ==> step_failure(
                #[trigger] run.operations[run.executed + j],
                reports[j],
            ) is None,
    ensures
        run.record_all(reports).executed == run.executed + reports.len(),
        run.record_all(reports).failure is None,
        run.record_all(reports).operations == run.operations,
    decreases reports.len(),
{
    if reports.len() > 0 {
        let after = run.record(reports.first());
        let rest = reports.drop_first();
        assert(step_failure(run.operations[run.executed + 0int], reports[0]) is None);
        assert forall|j: int| 0 <= j < rest.len() implies step_failure(
            #[trigger] after.operations[after.executed + j],
            rest[j],
        ) is None by {
            assert(step_failure(run.operations[run.executed + (j + 1)], reports[j + 1]) is None);
        }
        lemma_run_advances(after, rest);
    }
}

/// From any point of a run that has not failed: if every operation that is
/// left completes, the run ends with all operations executed and no failure,
/// holding what the last of them returned.
pub proof fn lemma_run_completes(run: RunView, reports: Seq<ReportView>)
    requires
        run.well_formed(),
        run.failure is None,
        run.executed + reports.len() == run.operations.len(),
        forall|j: int|
            0 <= j < reports.len() ==> step_failure(
                #[trigger] run.operations[run.executed + j],
                reports[j],
            ) is None,
    ensures
        run.record_all(reports).executed == run.operations.len(),
        run.record_all(reports).failure is None,
        run.record_all(reports).operations == run.operations,
        run.record_all(reports).last_payload == if reports.len() == 0 {
            run.last_payload
        } else {
            reports.last().outcome->Completed_0
        },
    decreases reports.len(),
{
    if reports.len() > 0 {
        let after = run.record(reports.first());
        let rest = reports.drop_first();
        assert(step_failure(run.operations[run.executed + 0int], reports[0]) is None);
        assert forall|j: int| 0 <= j < rest.len() implies step_failure(
            #[trigger] after.operations[after.executed + j],
            rest[j],
        ) is None by {
            assert(step_failure(run.operations[run.executed + (j + 1)], reports[j + 1]) is None);
        }
        lemma_run_completes(after, rest);
        if rest.len() > 0 {
        }
    }
}

/// A chain all of whose operations complete resolves to what its last
/// operation returned; an empty chain resolves at once, to an empty payload.
pub proof fn lemma_chain_resolves_to_last_payload(
    operations: Seq<OperationView>,
    reports: Seq<ReportView>,
)
    requires
        reports.len() == operations.len(),
        forall|j: int|
            0 <= j < operations.len() ==> step_failure(#[trigger] operations[j], reports[j]) is None,
    ensures
        ({
            let end = RunView::start(operations).record_all(reports);
            &&& end.executed == operations.len()
            &&& end.has_status(RunStatus::Succeeded)
            &&& end.resolution() == Some(
                InjectedView::Success(
                    if operations.len() == 0 {
                        Seq::<u8>::empty()
                    } else {
                        reports.last().outcome->Completed_0
                    },
                ),
            )
        }),
{
    lemma_run_completes(RunView::start(operations), reports);
}

} // verus!
