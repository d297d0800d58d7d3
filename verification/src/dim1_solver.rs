//! Solvers that look for a zero of a continuous function of one variable.

pub mod bisection;
pub mod brent;
pub mod dim1_newton;
pub mod fixed_point;

use crate::base_float::BaseFloat;
use crate::dim1_func::Dim1ContinuousFunc;
use vstd::prelude::*;

verus! {

/// The number of steps after which a solver gives up unless told otherwise.
pub const DEFAULT_ITER_COUNT_LIMIT: usize = 100;

/// What a solver found, and after how many steps.
pub struct SolveResult<T> {
    pub solution: Option<T>,
    pub iter_count: usize,
}

impl<T: Copy> SolveResult<T> {
    /// The number of steps that the solver took.
    pub fn iter_count(&self) -> (count: usize)
        ensures
            count == self.iter_count,
    {
        self.iter_count
    }

    /// The zero, if the solver found one.
    pub fn solution(&self) -> (solution: Option<T>)
        ensures
            solution == self.solution,
    {
        self.solution
    }
}

/// Whether the step from `root` to `next` is small relative to `next`:
/// `|next - root| / max(|next|, 1) < tolerance`.
pub open spec fn step_is_small<T: BaseFloat>(root: T, next: T, tolerance: T) -> bool {
    next.minus(root).magnitude().over(next.magnitude().greater_of(T::one_value())).precedes(
        tolerance,
    )
}

/// Whether the step from `root` to `next` is small relative to `next`.
pub fn is_small_step<T: BaseFloat>(root: T, next: T, tolerance: T) -> (small: bool)
    ensures
        small == step_is_small(root, next, tolerance),
{
    let diff = next.sub(root).abs();
    let relative_diff = diff.div(next.abs().max(T::one()));
    relative_diff.lt(tolerance)
}

/// A solver for the zero of a continuous function of the kind `F` of one
/// variable.
pub trait Dim1Solver<T, F: Dim1ContinuousFunc<T>> {
    /// The solver can be run on `func`.
    spec fn accepts(&self, func: &F) -> bool;

    /// What the solver gives for `func`.
    spec fn outcome(&self, func: &F) -> SolveResult<T>;

    /// Looks for a zero of `func`.
    fn solve(&self, func: &F) -> (result: SolveResult<T>)
        requires
            self.accepts(func),
        ensures
            result == self.outcome(func),
    ;
}

} // verus!
