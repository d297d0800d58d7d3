//! Fixed-point iteration.

use crate::base_float::BaseFloat;
use crate::dim1_func::{Dim1ContinuousFunc, Dim1Func};
use crate::dim1_solver::{
    is_small_step, step_is_small, DEFAULT_ITER_COUNT_LIMIT, Dim1Solver, SolveResult,
};
use vstd::prelude::*;

verus! {

/// The iteration `x -> f(x) + x` from `root`, of which `done` steps are
/// taken and at most `limit` are allowed: it stops with the first iterate
/// that a small step leads to, and without a zero when the steps are used up.
pub open spec fn fixed_point_search<T: BaseFloat, F: Dim1Func<T>>(
    func: &F,
    root: T,
    tolerance: T,
    done: usize,
    limit: usize,
) -> SolveResult<T>
    decreases limit - done,
{
    if done >= limit {
        SolveResult { solution: None, iter_count: limit }
    } else {
        let next = func.value(root).plus(root);
        if step_is_small(root, next, tolerance) {
            SolveResult { solution: Some(next), iter_count: (done + 1) as usize }
        } else {
            fixed_point_search(func, next, tolerance, (done + 1) as usize, limit)
        }
    }
}

/// A solver by the fixed-point iteration `x -> f(x) + x`, which converges
/// linearly where it converges.
pub struct FixedPointSolver<T> {
    pub start_point: T,
    pub error_tolerance: T,
    pub iter_count_limit: usize,
}

impl<T: BaseFloat> FixedPointSolver<T> {
    /// The solver that starts at `start_point`, with the tolerance and the
    /// number of steps that are usual.
    pub fn with_start_point(start_point: T) -> (solver: Self)
        ensures
            solver.start_point == start_point,
            solver.error_tolerance == T::epsilon_value(),
            solver.iter_count_limit == DEFAULT_ITER_COUNT_LIMIT,
    {
        Self {
            start_point,
            error_tolerance: T::epsilon(),
            iter_count_limit: DEFAULT_ITER_COUNT_LIMIT,
        }
    }

    /// The solver that starts at `start_point`, stops at steps below
    /// `error_tolerance` and takes at most `max_iter_num` steps.
    pub fn new(start_point: T, error_tolerance: T, max_iter_num: usize) -> (solver: Self)
        ensures
            solver.start_point == start_point,
            solver.error_tolerance == error_tolerance,
            solver.iter_count_limit == max_iter_num,
    {
        Self { start_point, error_tolerance, iter_count_limit: max_iter_num }
    }

    /// The same solver with another tolerance.
    pub fn with_error_tolerance(self, error_tolerance: T) -> (solver: Self)
        ensures
            solver.start_point == self.start_point,
            solver.error_tolerance == error_tolerance,
            solver.iter_count_limit == self.iter_count_limit,
    {
        Self {
            start_point: self.start_point,
            error_tolerance,
            iter_count_limit: self.iter_count_limit,
        }
    }

    /// The same solver with another number of steps.
    pub fn with_iter_count_limit(self, iter_count_limit: usize) -> (solver: Self)
        ensures
            solver.start_point == self.start_point,
            solver.error_tolerance == self.error_tolerance,
            solver.iter_count_limit == iter_count_limit,
    {
        Self {
            start_point: self.start_point,
            error_tolerance: self.error_tolerance,
            iter_count_limit,
        }
    }
}

impl<T: BaseFloat, F: Dim1ContinuousFunc<T>> Dim1Solver<T, F> for FixedPointSolver<T> {
    open spec fn accepts(&self, func: &F) -> bool {
        true
    }

    open spec fn outcome(&self, func: &F) -> SolveResult<T> {
        fixed_point_search(func, self.start_point, self.error_tolerance, 0, self.iter_count_limit)
    }

    fn solve(&self, func: &F) -> (result: SolveResult<T>) {
        let mut root = self.start_point;
        let mut i: usize = 0;
        while i < self.iter_count_limit
            invariant
                0 <= i <= self.iter_count_limit,
                self.outcome(func) == fixed_point_search(
                    func,
                    root,
                    self.error_tolerance,
                    i,
                    self.iter_count_limit,
                ),
            decreases self.iter_count_limit - i,
        {
            let next = func.eval(root).add(root);
            if is_small_step(root, next, self.error_tolerance) {
                return SolveResult { solution: Some(next), iter_count: i + 1 };
            }
            root = next;
            i += 1;
        }
        SolveResult { solution: None, iter_count: self.iter_count_limit }
    }
}

} // verus!
