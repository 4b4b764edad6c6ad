//! Execution budgets and how they are divided.
use vstd::prelude::*;
use vstd::arithmetic::div_mod::lemma_fundamental_div_mod;
use crate::error::EngineError;

verus! {

/// A finite amount of execution resource, fixed once it has been made.
#[derive(Clone, Copy, Debug, PartialEq, Eq, Structural)]
pub struct ExecutionBudget {
    units: u64,
}

impl View for ExecutionBudget {
    type V = nat;

    closed spec fn view(&self) -> nat {
        self.units as nat
    }
}

/// The size of each of `n` equal slices of `total`.
pub open spec fn share_of(total: nat, n: nat) -> nat {
    if n == 0 {
        0
    } else {
        total / n
    }
}

/// What stays with the caller when `total` is cut into `n` equal slices: the
/// least amount that leaves the rest evenly divisible.
pub open spec fn reserve_of(total: nat, n: nat) -> nat {
    if n == 0 {
        total
    } else {
        total % n
    }
}

/// Whether `total` can be cut into `n` slices that are all above zero.
pub open spec fn can_split(total: nat, n: nat) -> bool {
    n <= total
}

/// The sum of a sequence of budgets.
pub open spec fn sum_units(budgets: Seq<ExecutionBudget>) -> nat
    decreases budgets.len(),
{
    if budgets.len() == 0 {
        0
    } else {
        sum_units(budgets.drop_last()) + budgets.last()@
    }
}

/// Adding one budget to a sequence adds its units to the sum.
pub proof fn lemma_sum_units_push(budgets: Seq<ExecutionBudget>, b: ExecutionBudget)
    ensures
        sum_units(budgets.push(b)) == sum_units(budgets) + b@,
{
    assert(budgets.push(b).drop_last() =~= budgets);
}

impl ExecutionBudget {
    /// A budget of `units`.
    pub fn new(units: u64) -> (b: ExecutionBudget)
        ensures
            b@ == units,
    {
        ExecutionBudget { units }
    }

    /// The amount this budget holds.
    pub fn units(&self) -> (u: u64)
        ensures
            u == self@,
    {
        self.units
    }

    /// Whether nothing is left in this budget.
    pub fn is_zero(&self) -> (z: bool)
        ensures
            z == (self@ == 0),
    {
        self.units == 0
    }

    /// Cuts this budget into `n` equal slices.
    ///
    /// Each slice holds the `n`-th part of the budget, rounded down; what is
    /// left over stays with the caller. The slices and the reserve add up to
    /// the budget exactly, so nothing is spent twice. The split fails with
    /// `BudgetExhausted` exactly when the budget holds fewer than `n` units,
    /// since a slice would then be empty. Cutting into no slices succeeds and
    /// hands out nothing.
    pub fn split(&self, n: usize) -> (r: Result<Vec<ExecutionBudget>, EngineError>)
        ensures
            r is Ok <==> can_split(self@, n as nat),
            r matches Err(e) ==> e == EngineError::BudgetExhausted,
            r matches Ok(slices) ==> {
                &&& slices@.len() == n
                &&& forall|i: int| 0 <= i < n ==> (#[trigger] slices@[i])@ == share_of(self@, n as nat)
                &&& n > 0 ==> share_of(self@, n as nat) > 0
                &&& sum_units(slices@) + reserve_of(self@, n as nat) == self@
            },
    {
        let mut slices: Vec<ExecutionBudget> = Vec::new();
        if n == 0 {
            return Ok(slices);
        }
        let count: u64 = n as u64;
        if self.units < count {
            return Err(EngineError::BudgetExhausted);
        }
        let share: u64 = self.units / count;
        proof {
            lemma_fundamental_div_mod(self.units as int, count as int);
            assert(share >= 1) by (nonlinear_arith)
                requires
                    share == self.units / count,
                    count >= 1,
                    self.units >= count,
            ;
        }
        let mut i: usize = 0;
        while i < n
            invariant
                i <= n,
                slices@.len() == i,
                forall|j: int| 0 <= j < i ==> (#[trigger] slices@[j])@ == share,
                sum_units(slices@) == i * share,
            decreases n - i,
        {
            let ghost before = slices@;
            let slice = ExecutionBudget { units: share };
            slices.push(slice);
            proof {
                lemma_sum_units_push(before, slice);
                assert((i + 1) * share == i * share + share) by (nonlinear_arith);
            }
            i = i + 1;
        }
        proof {
            assert(n * share == count * (self.units / count)) by (nonlinear_arith)
                requires
                    n == count,
                    share == self.units / count,
            ;
        }
        Ok(slices)
    }
}

/// Halving a budget: with at least two units it yields two slices that are
/// both above zero and together hold no more than the budget; with fewer it
/// cannot be done.
pub proof fn lemma_split_in_two(total: nat)
    ensures
        can_split(total, 2) <==> total >= 2,
        can_split(total, 2) ==> share_of(total, 2) > 0 && 2 * share_of(total, 2) <= total,
        !can_split(1, 2),
{
}

/// However a budget is cut, the slices never hold more than the budget, and
/// none of them is empty.
pub proof fn lemma_split_never_exceeds(total: nat, n: nat)
    requires
        can_split(total, n),
    ensures
        n * share_of(total, n) + reserve_of(total, n) == total,
        n * share_of(total, n) <= total,
        n > 0 ==> share_of(total, n) > 0,
{
    if n > 0 {
        lemma_fundamental_div_mod(total as int, n as int);
        assert(total / n >= 1) by (nonlinear_arith)
            requires
                n >= 1,
                total >= n,
        ;
    }
}

} // verus!
