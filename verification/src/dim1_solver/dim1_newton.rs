//! Newton's method.

use crate::base_float::BaseFloat;
use crate::dim1_func::{Dim1ContinuousFunc, Dim1Func};
use crate::dim1_solver::{
    is_small_step, step_is_small, DEFAULT_ITER_COUNT_LIMIT, Dim1Solver, SolveResult,
};
use vstd::prelude::*;

verus! {

/// Newton's iteration `x -> x - f(x) / f'(x)` from `root`, of which `done`
/// steps are taken and at most `limit` are allowed: it stops with the first
/// iterate that a small step leads to, and without a zero when the steps are
/// used up.
pub open spec fn newton_search<T: BaseFloat, F: Dim1Func<T>, D: Dim1Func<T>>(
    func: &F,
    derivative: &D,
    root: T,
    tolerance: T,
    done: usize,
    limit: usize,
) -> SolveResult<T>
    decreases limit - done,
{
    if done >= limit {
        SolveResult { solution: None, iter_count: limit }
    } else {
        let next = root.minus(func.value(root).over(derivative.value(root)));
        if step_is_small(root, next, tolerance) {
            SolveResult { solution: Some(next), iter_count: (done + 1) as usize }
        } else {
            newton_search(func, derivative, next, tolerance, (done + 1) as usize, limit)
        }
    }
}

/// A solver by Newton's method for a function `F` with the first derivative
/// `D`. It converges quadratically near a simple zero, and may fail to
/// converge at all.
pub struct Dim1NewtonSolver<'a, T, F, D> {
    pub start_point: T,
    pub error_tolerance: T,
    pub iter_count_limit: usize,
    pub func: &'a F,
    pub func_first_derivative: &'a D,
}

impl<'a, T: BaseFloat, F: Dim1Func<T>, D: Dim1Func<T>> Dim1NewtonSolver<'a, T, F, D> {
    /// The solver for `func` with the derivative `func_first_derivative` that
    /// starts at `start_point`, with the tolerance and the number of steps
    /// that are usual.
    pub fn new(start_point: T, func: &'a F, func_first_derivative: &'a D) -> (solver: Self)
        ensures
            solver.start_point == start_point,
            solver.error_tolerance == T::epsilon_value(),
            solver.iter_count_limit == DEFAULT_ITER_COUNT_LIMIT,
            solver.func == func,
            solver.func_first_derivative == func_first_derivative,
    {
        Self {
            start_point,
            error_tolerance: T::epsilon(),
            iter_count_limit: DEFAULT_ITER_COUNT_LIMIT,
            func,
            func_first_derivative,
        }
    }

    /// The same solver with another tolerance.
    pub fn with_error_tolerance(self, error_tolerance: T) -> (solver: Self)
        ensures
            solver.start_point == self.start_point,
            solver.error_tolerance == error_tolerance,
            solver.iter_count_limit == self.iter_count_limit,
            solver.func == self.func,
            solver.func_first_derivative == self.func_first_derivative,
    {
        Self {
            start_point: self.start_point,
            error_tolerance,
            iter_count_limit: self.iter_count_limit,
            func: self.func,
            func_first_derivative: self.func_first_derivative,
        }
    }

    /// The same solver with another number of steps.
    pub fn with_iter_count_limit(self, iter_count_limit: usize) -> (solver: Self)
        ensures
            solver.start_point == self.start_point,
            solver.error_tolerance == self.error_tolerance,
            solver.iter_count_limit == iter_count_limit,
            solver.func == self.func,
            solver.func_first_derivative == self.func_first_derivative,
    {
        Self {
            start_point: self.start_point,
            error_tolerance: self.error_tolerance,
            iter_count_limit,
            func: self.func,
            func_first_derivative: self.func_first_derivative,
        }
    }

    /// What the solver gives.
    pub open spec fn result(&self) -> SolveResult<T> {
        newton_search(
            self.func,
            self.func_first_derivative,
            self.start_point,
            self.error_tolerance,
            0,
            self.iter_count_limit,
        )
    }

    /// Looks for a zero of the function of the solver.
    pub fn solve(&self) -> (result: SolveResult<T>)
        ensures
            result == self.result(),
    {
        let mut root = self.start_point;
        let mut i: usize = 0;
        while i < self.iter_count_limit
            invariant
                0 <= i <= self.iter_count_limit,
                self.result() == newton_search(
                    self.func,
                    self.func_first_derivative,
                    root,
                    self.error_tolerance,
                    i,
                    self.iter_count_limit,
                ),
            decreases self.iter_count_limit - i,
        {
            let next = root.sub(self.func.eval(root).div(self.func_first_derivative.eval(root)));
            if is_small_step(root, next, self.error_tolerance) {
                return SolveResult { solution: Some(next), iter_count: i + 1 };
            }
            root = next;
            i += 1;
        }
        SolveResult { solution: None, iter_count: self.iter_count_limit }
    }
}

impl<'a, T: BaseFloat, F: Dim1Func<T>, D: Dim1Func<T>, G: Dim1ContinuousFunc<T>> Dim1Solver<
    T,
    G,
> for Dim1NewtonSolver<'a, T, F, D> {
    open spec fn accepts(&self, func: &G) -> bool {
        true
    }

    /// What the solver gives for its own function, whatever `func` is.
    open spec fn outcome(&self, func: &G) -> SolveResult<T> {
        self.result()
    }

    fn solve(&self, func: &G) -> (result: SolveResult<T>) {
        Dim1NewtonSolver::solve(self)
    }
}

} // verus!
