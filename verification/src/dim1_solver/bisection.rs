//! Bisection.

use crate::base_float::{sign_differs, BaseFloat};
use crate::dim1_func::{Dim1ContinuousFunc, Dim1Func};
use crate::dim1_solver::{Dim1Solver, SolveResult};
use vstd::prelude::*;

verus! {

/// The interval `(a, b)` is wider than twice the tolerance.
pub open spec fn is_wide<T: BaseFloat>(a: T, b: T, tolerance: T) -> bool {
    tolerance.doubled().precedes(b.minus(a))
}

/// The interval that bisection ends with, and the number of halvings, from
/// the interval `(a, b)` after `done` halvings. A step evaluates the function
/// in the middle of the interval and keeps the half at whose ends the
/// function has different signs. The search ends when the interval is no
/// wider than twice the tolerance, when the function is exactly zero in the
/// middle, or when the count of the halvings can grow no more.
pub open spec fn bisection_search<T: BaseFloat, F: Dim1Func<T>>(
    func: &F,
    a: T,
    b: T,
    tolerance: T,
    done: usize,
) -> (T, T, usize)
    decreases usize::MAX - done,
{
    if done < usize::MAX && is_wide(a, b, tolerance) {
        let c = b.plus(a).halved();
        let fc = func.value(c);
        if fc.equals(T::zero_value()) {
            (a, b, done)
        } else if sign_differs(func.value(a), fc) {
            bisection_search(func, a, c, tolerance, (done + 1) as usize)
        } else {
            bisection_search(func, c, b, tolerance, (done + 1) as usize)
        }
    } else {
        (a, b, done)
    }
}

/// A solver by bisection of an interval at whose ends the function has
/// different signs. It converges linearly.
pub struct BisectionSolver<T> {
    pub search_range: [T; 2],
    pub error_tolerance: T,
}

impl<T: BaseFloat> BisectionSolver<T> {
    /// The solver on the interval from `range[0]` to `range[1]`, with the
    /// tolerance that is usual.
    pub fn with_search_range(range: [T; 2]) -> (solver: Self)
        requires
            range[0].precedes(range[1]),
        ensures
            solver.search_range == range,
            solver.error_tolerance == T::epsilon_value(),
    {
        Self { search_range: range, error_tolerance: T::epsilon() }
    }

    /// The same solver with another tolerance.
    pub fn with_error_tolerance(self, tolerance: T) -> (solver: Self)
        ensures
            solver.search_range == self.search_range,
            solver.error_tolerance == tolerance,
    {
        Self { search_range: self.search_range, error_tolerance: tolerance }
    }
}

impl<T: BaseFloat, F: Dim1ContinuousFunc<T>> Dim1Solver<T, F> for BisectionSolver<T> {
    /// The function has different signs at the ends of the interval.
    open spec fn accepts(&self, func: &F) -> bool {
        sign_differs(func.value(self.search_range[0]), func.value(self.search_range[1]))
    }

    /// The middle of the interval that the search ends with.
    open spec fn outcome(&self, func: &F) -> SolveResult<T> {
        let (a, b, count) = bisection_search(
            func,
            self.search_range[0],
            self.search_range[1],
            self.error_tolerance,
            0,
        );
        SolveResult { solution: Some(a.plus(b).halved()), iter_count: count }
    }

    fn solve(&self, func: &F) -> (result: SolveResult<T>) {
        let mut a = self.search_range[0];
        let mut b = self.search_range[1];
        let mut iter_count: usize = 0;
        let ghost whole = bisection_search(
            func,
            self.search_range[0],
            self.search_range[1],
            self.error_tolerance,
            0,
        );
        while iter_count < usize::MAX && self.error_tolerance.double().lt(b.sub(a))
            invariant
                whole == bisection_search(func, a, b, self.error_tolerance, iter_count),
            ensures
                whole == (a, b, iter_count),
            decreases usize::MAX - iter_count,
        {
            let c = b.add(a).half();
            let fc = func.eval(c);
            if fc.eq(T::zero()) {
                break ;
            }
            if func.eval(a).sig_ne(fc) {
                b = c;
            } else {
                a = c;
            }
            iter_count += 1;
        }
        SolveResult { solution: Some(a.add(b).half()), iter_count }
    }
}

} // verus!
