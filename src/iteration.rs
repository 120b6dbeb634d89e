use vstd::prelude::*;

verus! {

/// Iteration cap of a plain Newton solve when the caller gives none.
pub const DEFAULT_MAX_ITERATIONS: usize = 10000;

/// What the plain Newton loop is to do next.
#[derive(Debug, Clone, Copy, PartialEq, Eq, Structural)]
pub enum PlainAction {
    /// Solve `J(x)·δ = F(x)`, set `x ← x − δ`, and test `‖δ‖ < atol` or
    /// `‖δ‖ < rtol·‖x‖`.
    Step,
    /// Stop with the current iterate as the solution.
    Converged,
    /// Stop without a solution: the iteration budget is spent.
    Exhausted,
}

/// The decisions of a plain Newton solve: how many steps were taken, out of
/// how many allowed, and what comes next.
#[derive(Debug, Clone, Copy, PartialEq, Eq, Structural)]
pub struct PlainNewton {
    pub taken: usize,
    pub max_iterations: usize,
    pub pending: PlainAction,
}

/// The state after a step whose convergence test gave `converged`. Once
/// stopped, the state no longer changes.
pub open spec fn next_plain(s: PlainNewton, converged: bool) -> PlainNewton {
    if s.pending == PlainAction::Step {
        PlainNewton {
            taken: (s.taken + 1) as usize,
            pending: if converged {
                PlainAction::Converged
            } else if s.taken + 1 == s.max_iterations {
                PlainAction::Exhausted
            } else {
                PlainAction::Step
            },
            ..s
        }
    } else {
        s
    }
}

/// The state after the steps whose tests gave `tests`, in turn.
pub open spec fn run_plain(s: PlainNewton, tests: Seq<bool>) -> PlainNewton
    decreases tests.len(),
{
    if tests.len() == 0 {
        s
    } else {
        run_plain(next_plain(s, tests[0]), tests.drop_first())
    }
}

impl PlainNewton {
    /// Steps stay within the budget; a step is pending only while budget is
    /// left, and the budget is spent only when no step converged.
    pub open spec fn wf(&self) -> bool {
        &&& self.taken <= self.max_iterations
        &&& (self.pending == PlainAction::Step ==> self.taken < self.max_iterations)
        &&& (self.pending == PlainAction::Exhausted ==> self.taken == self.max_iterations)
    }

    /// A solve allowed `max_iterations` steps; with none allowed it has
    /// failed before it starts.
    pub fn new(max_iterations: usize) -> (r: PlainNewton)
        ensures
            r.wf(),
            r.taken == 0,
            r.max_iterations == max_iterations,
            r.pending == (if max_iterations == 0 {
                PlainAction::Exhausted
            } else {
                PlainAction::Step
            }),
    {
        PlainNewton {
            taken: 0,
            max_iterations,
            pending: if max_iterations == 0 {
                PlainAction::Exhausted
            } else {
                PlainAction::Step
            },
        }
    }

    /// The action the loop is to carry out now.
    pub fn action(&self) -> (r: PlainAction)
        ensures
            r == self.pending,
    {
        self.pending
    }

    /// Takes the outcome of the convergence test of the step just taken and
    /// returns the next action.
    pub fn handle(&mut self, converged: bool) -> (r: PlainAction)
        requires
            old(self).wf(),
        ensures
            *final(self) == next_plain(*old(self), converged),
            final(self).wf(),
            r == final(self).pending,
    {
        if self.pending == PlainAction::Step {
            self.taken = self.taken + 1;
            self.pending = if converged {
                PlainAction::Converged
            } else if self.taken == self.max_iterations {
                PlainAction::Exhausted
            } else {
                PlainAction::Step
            };
        }
        self.pending
    }
}

/// Whatever the convergence tests give, a solve never takes more steps than
/// its cap, takes one step per test until it stops, and gives up only after
/// all `max_iterations` steps failed the test.
pub proof fn lemma_plain_within_budget(s: PlainNewton, tests: Seq<bool>)
    requires
        s.wf(),
    ensures
        run_plain(s, tests).wf(),
        run_plain(s, tests).max_iterations == s.max_iterations,
        run_plain(s, tests).taken <= s.taken + tests.len(),
        run_plain(s, tests).pending == PlainAction::Step ==> run_plain(s, tests).taken == s.taken
            + tests.len(),
        (s.pending == PlainAction::Step && forall|i: int| 0 <= i < tests.len() ==> !tests[i])
            ==> run_plain(s, tests).pending != PlainAction::Converged,
    decreases tests.len(),
{
    if tests.len() > 0 {
        let t = next_plain(s, tests[0]);
        lemma_plain_within_budget(t, tests.drop_first());
        if s.pending != PlainAction::Step {
            lemma_plain_stopped(s, tests);
        }
        if s.pending == PlainAction::Step && forall|i: int| 0 <= i < tests.len() ==> !tests[i] {
            assert(!tests[0]);
            assert forall|i: int| 0 <= i < tests.drop_first().len() implies !tests.drop_first()[i] by {
                assert(tests.drop_first()[i] == tests[i + 1]);
            }
            if t.pending == PlainAction::Exhausted {
                lemma_plain_stopped(t, tests.drop_first());
            }
        }
    }
}

/// A stopped solve stays as it is.
pub proof fn lemma_plain_stopped(s: PlainNewton, tests: Seq<bool>)
    requires
        s.pending != PlainAction::Step,
    ensures
        run_plain(s, tests) == s,
    decreases tests.len(),
{
    if tests.len() > 0 {
        lemma_plain_stopped(s, tests.drop_first());
    }
}

/// A solve whose first step already meets the tolerances (as at an exact
/// root, where `F(x) = 0` gives `δ = 0`) stops converged after one step.
pub proof fn lemma_plain_root_one_step(max_iterations: usize)
    requires
        max_iterations > 0,
    ensures
        ({
            let s = next_plain(
                PlainNewton { taken: 0, max_iterations, pending: PlainAction::Step },
                true,
            );
            s.pending == PlainAction::Converged && s.taken == 1
        }),
{
}

} // verus!
