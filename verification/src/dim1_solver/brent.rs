//! Brent's method: inverse quadratic interpolation where it helps, the
//! method of false position where that fails, and bisection where both fail.
//!
//! A step by interpolation or false position is taken only if the backward
//! error improves and the interval that brackets the zero is at least halved.
//! Otherwise the step is a bisection, which halves the uncertainty.

use crate::base_float::{sign_agrees, sign_differs, BaseFloat};
use crate::dim1_func::{Dim1ContinuousFunc, Dim1Func};
use crate::dim1_solver::bisection::is_wide;
use crate::dim1_solver::{Dim1Solver, SolveResult};
use vstd::prelude::*;

verus! {

/// A point of the graph of a function.
#[derive(Clone, Copy, Debug)]
pub struct XYPair<T> {
    pub x: T,
    pub y: T,
}

impl<T> XYPair<T> {
    /// The point `(x, y)`.
    pub fn new(x: T, y: T) -> (pair: Self)
        ensures
            pair.x == x,
            pair.y == y,
    {
        Self { x, y }
    }
}

/// Three points of the graph of a function, of which the first and the last
/// bracket a zero.
#[derive(Clone, Copy, Debug)]
pub struct Bracket<T> {
    pub first: XYPair<T>,
    pub middle: XYPair<T>,
    pub last: XYPair<T>,
}

/// One of the three points of a bracket.
#[derive(Clone, Copy, Debug, PartialEq, Eq, Structural)]
pub enum Place {
    First,
    Middle,
    Last,
}

/// What a step of the solver gives: a point where the function is exactly
/// zero, or the next bracket.
pub enum BrentStep<T> {
    Found(T),
    Next(Bracket<T>),
}

/// `a >= b`.
pub open spec fn at_least<T: BaseFloat>(a: T, b: T) -> bool {
    b.precedes(a) || a.equals(b)
}

/// The point at `place`.
pub open spec fn point_at<T>(bracket: Bracket<T>, place: Place) -> XYPair<T> {
    match place {
        Place::First => bracket.first,
        Place::Middle => bracket.middle,
        Place::Last => bracket.last,
    }
}

/// The bracket with `pair` at `place`.
pub open spec fn with_point<T>(bracket: Bracket<T>, place: Place, pair: XYPair<T>) -> Bracket<T> {
    match place {
        Place::First => Bracket { first: pair, middle: bracket.middle, last: bracket.last },
        Place::Middle => Bracket { first: bracket.first, middle: pair, last: bracket.last },
        Place::Last => Bracket { first: bracket.first, middle: bracket.middle, last: pair },
    }
}

/// The bracket in which the middle point has moved to `place` and `pair` has
/// become the middle point.
pub open spec fn with_new_middle<T>(bracket: Bracket<T>, place: Place, pair: XYPair<T>) -> Bracket<
    T,
> {
    with_point(with_point(bracket, place, bracket.middle), Place::Middle, pair)
}

/// The place of the point with the largest backward error `|y|`; of several
/// such points the first.
pub open spec fn worst_place<T: BaseFloat>(bracket: Bracket<T>) -> Place {
    let first = bracket.first.y.magnitude();
    let middle = bracket.middle.y.magnitude();
    let last = bracket.last.y.magnitude();
    if first.precedes(middle) {
        if middle.precedes(last) {
            Place::Last
        } else {
            Place::Middle
        }
    } else if first.precedes(last) {
        Place::Last
    } else {
        Place::First
    }
}

/// The estimate of the zero by inverse quadratic interpolation through the
/// three points.
pub open spec fn inverse_quadratic_estimate<T: BaseFloat>(bracket: Bracket<T>) -> T {
    let one = T::one_value();
    let (a, fa) = (bracket.first.x, bracket.first.y);
    let (b, fb) = (bracket.middle.x, bracket.middle.y);
    let (c, fc) = (bracket.last.x, bracket.last.y);
    let q = fa.over(fb);
    let r = fc.over(fb);
    let s = fc.over(fa);
    c.minus(
        r.times(r.minus(q)).times(c.minus(b)).plus(one.minus(r).times(s).times(c.minus(a))).over(
            q.minus(one).times(r.minus(one)).times(s.minus(one)),
        ),
    )
}

/// The estimate of the zero by the secant through `p` and `q`:
/// `(q.x * p.y - p.x * q.y) / (p.y - q.y)`.
pub open spec fn secant_estimate<T: BaseFloat>(p: XYPair<T>, q: XYPair<T>) -> T {
    q.x.times(p.y).minus(p.x.times(q.y)).over(p.y.minus(q.y))
}

/// The bracket after a step by inverse quadratic interpolation to the point
/// `next`, if the step is taken: it replaces the point `worst` of largest
/// backward error, where `worst` is an end of the bracket and the error at
/// `next` is smaller. The step is taken if the new bracket still brackets a
/// zero and is at most half as wide.
pub open spec fn interpolation_step<T: BaseFloat>(
    bracket: Bracket<T>,
    worst: Place,
    next: XYPair<T>,
) -> Option<Bracket<T>> {
    let (first, middle, last) = (bracket.first, bracket.middle, bracket.last);
    let beyond_middle = if worst == Place::First {
        middle.x.precedes(next.x)
    } else {
        next.x.precedes(middle.x)
    };
    let new_interval = if worst == Place::First {
        if beyond_middle {
            last.x.minus(middle.x)
        } else {
            last.x.minus(next.x)
        }
    } else {
        if beyond_middle {
            middle.x.minus(first.x)
        } else {
            next.x.minus(first.x)
        }
    };
    let axis_crossed = if worst == Place::First {
        if beyond_middle {
            sign_differs(last.y, middle.y)
        } else {
            sign_differs(next.y, last.y)
        }
    } else {
        if beyond_middle {
            sign_differs(middle.y, first.y)
        } else {
            sign_differs(next.y, first.y)
        }
    };
    let old_interval = last.x.minus(first.x);
    if axis_crossed && at_least(old_interval, new_interval.doubled()) {
        if beyond_middle {
            Some(with_new_middle(bracket, worst, next))
        } else {
            Some(with_point(bracket, worst, next))
        }
    } else {
        None
    }
}

/// The end of the bracket that a step by false position replaces: the last
/// point if the zero lies between the first two, else the first.
pub open spec fn false_position_place<T: BaseFloat>(bracket: Bracket<T>) -> Place {
    if sign_differs(bracket.first.y, bracket.middle.y) {
        Place::Last
    } else {
        Place::First
    }
}

/// The estimate of the zero by false position: by the secant through the two
/// points that bracket it.
pub open spec fn false_position_estimate<T: BaseFloat>(bracket: Bracket<T>) -> T {
    if false_position_place(bracket) == Place::Last {
        secant_estimate(bracket.first, bracket.middle)
    } else {
        secant_estimate(bracket.middle, bracket.last)
    }
}

/// Whether the step by false position to the point `next` is taken: the
/// backward error is smaller than at the point that is replaced, and the
/// interval that brackets the zero is at least halved.
pub open spec fn false_position_helps<T: BaseFloat>(bracket: Bracket<T>, next: XYPair<T>) -> bool {
    let (first, middle, last) = (bracket.first, bracket.middle, bracket.last);
    let replaced = false_position_place(bracket);
    let old_interval = if replaced == Place::Last {
        middle.x.minus(first.x)
    } else {
        last.x.minus(middle.x)
    };
    let new_interval = if replaced == Place::First {
        if sign_agrees(next.y, middle.y) {
            last.x.minus(next.x)
        } else {
            next.x.minus(middle.x)
        }
    } else if sign_agrees(next.y, first.y) {
        middle.x.minus(next.x)
    } else {
        next.x.minus(first.x)
    };
    next.y.magnitude().precedes(point_at(bracket, replaced).y.magnitude()) && at_least(
        old_interval,
        new_interval.doubled(),
    )
}

/// The middle of the two points that stay when the point at `replaced`, an
/// end of the bracket, goes.
pub open spec fn bisection_estimate<T: BaseFloat>(bracket: Bracket<T>, replaced: Place) -> T {
    if replaced == Place::First {
        bracket.middle.x.plus(bracket.last.x).halved()
    } else {
        bracket.first.x.plus(bracket.middle.x).halved()
    }
}

/// The part of a step that follows a failed or skipped interpolation: false
/// position if it helps, else bisection.
pub open spec fn fallback_step<T: BaseFloat, F: Dim1Func<T>>(
    func: &F,
    bracket: Bracket<T>,
) -> BrentStep<T> {
    let replaced = false_position_place(bracket);
    let next_x = false_position_estimate(bracket);
    let next_y = func.value(next_x);
    if next_y.equals(T::zero_value()) {
        BrentStep::Found(next_x)
    } else if false_position_helps(bracket, XYPair { x: next_x, y: next_y }) {
        BrentStep::Next(with_new_middle(bracket, replaced, XYPair { x: next_x, y: next_y }))
    } else {
        let half_x = bisection_estimate(bracket, replaced);
        let half_y = func.value(half_x);
        if half_y.equals(T::zero_value()) {
            BrentStep::Found(half_x)
        } else {
            BrentStep::Next(with_new_middle(bracket, replaced, XYPair { x: half_x, y: half_y }))
        }
    }
}

/// One step of the solver.
pub open spec fn brent_step<T: BaseFloat, F: Dim1Func<T>>(
    func: &F,
    bracket: Bracket<T>,
) -> BrentStep<T> {
    let worst = worst_place(bracket);
    if worst != Place::Middle {
        let next_x = inverse_quadratic_estimate(bracket);
        let next_y = func.value(next_x);
        if next_y.equals(T::zero_value()) {
            BrentStep::Found(next_x)
        } else if next_y.magnitude().precedes(point_at(bracket, worst).y.magnitude()) {
            match interpolation_step(bracket, worst, XYPair { x: next_x, y: next_y }) {
                Some(next) => BrentStep::Next(next),
                None => fallback_step(func, bracket),
            }
        } else {
            fallback_step(func, bracket)
        }
    } else {
        fallback_step(func, bracket)
    }
}

/// What the solver gives from `bracket` after `done` steps: the point where
/// a step finds the function exactly zero, or the middle point once the
/// bracket is no wider than twice the tolerance or the count of the steps
/// can grow no more.
pub open spec fn brent_search<T: BaseFloat, F: Dim1Func<T>>(
    func: &F,
    bracket: Bracket<T>,
    tolerance: T,
    done: usize,
) -> SolveResult<T>
    decreases usize::MAX - done,
{
    if done < usize::MAX && is_wide(bracket.first.x, bracket.last.x, tolerance) {
        match brent_step(func, bracket) {
            BrentStep::Found(x) => SolveResult {
                solution: Some(x),
                iter_count: (done + 1) as usize,
            },
            BrentStep::Next(next) => brent_search(func, next, tolerance, (done + 1) as usize),
        }
    } else {
        SolveResult { solution: Some(bracket.middle.x), iter_count: done }
    }
}

/// The bracket that the solver starts with on the interval from `a` to `b`:
/// the ends and the middle of the interval.
pub open spec fn first_bracket<T: BaseFloat, F: Dim1Func<T>>(func: &F, a: T, b: T) -> Bracket<T> {
    let c = a.plus(b).halved();
    Bracket {
        first: XYPair { x: a, y: func.value(a) },
        middle: XYPair { x: c, y: func.value(c) },
        last: XYPair { x: b, y: func.value(b) },
    }
}

/// `a >= b`.
fn is_at_least<T: BaseFloat>(a: T, b: T) -> (r: bool)
    ensures
        r == at_least(a, b),
{
    b.lt(a) || a.eq(b)
}

/// The bracket in which the middle point has moved to `place` and `pair` has
/// become the middle point.
fn replace_through_middle<T: Copy>(bracket: Bracket<T>, place: Place, pair: XYPair<T>) -> (next:
    Bracket<T>)
    ensures
        next == with_new_middle(bracket, place, pair),
{
    match place {
        Place::First => Bracket { first: bracket.middle, middle: pair, last: bracket.last },
        Place::Middle => Bracket { first: bracket.first, middle: pair, last: bracket.last },
        Place::Last => Bracket { first: bracket.first, middle: pair, last: bracket.middle },
    }
}

/// The bracket with `pair` at `place`.
fn replace_point<T: Copy>(bracket: Bracket<T>, place: Place, pair: XYPair<T>) -> (next: Bracket<T>)
    ensures
        next == with_point(bracket, place, pair),
{
    match place {
        Place::First => Bracket { first: pair, middle: bracket.middle, last: bracket.last },
        Place::Middle => Bracket { first: bracket.first, middle: pair, last: bracket.last },
        Place::Last => Bracket { first: bracket.first, middle: bracket.middle, last: pair },
    }
}

/// The place of the point with the largest backward error and that error.
fn largest_error<T: BaseFloat>(bracket: &Bracket<T>) -> (worst: (Place, T))
    ensures
        worst.0 == worst_place(*bracket),
        worst.1 == point_at(*bracket, worst.0).y.magnitude(),
{
    let mut max_error_place = Place::First;
    let mut max_error = bracket.first.y.abs();
    let error = bracket.middle.y.abs();
    if max_error.lt(error) {
        max_error_place = Place::Middle;
        max_error = error;
    }
    let error = bracket.last.y.abs();
    if max_error.lt(error) {
        max_error_place = Place::Last;
        max_error = error;
    }
    (max_error_place, max_error)
}

/// The estimate of the zero by inverse quadratic interpolation.
pub fn inverse_quadratic_interpolate<T: BaseFloat>(bracket: &Bracket<T>) -> (estimate: T)
    ensures
        estimate == inverse_quadratic_estimate(*bracket),
{
    let one = T::one();
    let (a, fa) = (bracket.first.x, bracket.first.y);
    let (b, fb) = (bracket.middle.x, bracket.middle.y);
    let (c, fc) = (bracket.last.x, bracket.last.y);
    let q = fa.div(fb);
    let r = fc.div(fb);
    let s = fc.div(fa);
    c.sub(
        r.mul(r.sub(q)).mul(c.sub(b)).add(one.sub(r).mul(s).mul(c.sub(a))).div(
            q.sub(one).mul(r.sub(one)).mul(s.sub(one)),
        ),
    )
}

/// The estimate of the zero by the secant through `p` and `q`.
pub fn secant_iter<T: BaseFloat>(p: &XYPair<T>, q: &XYPair<T>) -> (estimate: T)
    ensures
        estimate == secant_estimate(*p, *q),
{
    q.x.mul(p.y).sub(p.x.mul(q.y)).div(p.y.sub(q.y))
}

/// The bracket after a step by inverse quadratic interpolation to `next`, if
/// the step is taken.
fn interpolate<T: BaseFloat>(bracket: &Bracket<T>, worst: Place, next: XYPair<T>) -> (step: Option<
    Bracket<T>,
>)
    requires
        worst != Place::Middle,
    ensures
        step == interpolation_step(*bracket, worst, next),
{
    let (first, middle, last) = (bracket.first, bracket.middle, bracket.last);
    let from_first = match worst {
        Place::First => true,
        _ => false,
    };
    let (new_interval, axis_crossed, replace_and_swap) = if from_first && middle.x.lt(next.x) {
        (last.x.sub(middle.x), last.y.sig_ne(middle.y), true)
    } else if !from_first && next.x.lt(middle.x) {
        (middle.x.sub(first.x), middle.y.sig_ne(first.y), true)
    } else if from_first {
        (last.x.sub(next.x), next.y.sig_ne(last.y), false)
    } else {
        (next.x.sub(first.x), next.y.sig_ne(first.y), false)
    };
    let old_interval = last.x.sub(first.x);
    if axis_crossed && is_at_least(old_interval, new_interval.double()) {
        if replace_and_swap {
            Some(replace_through_middle(*bracket, worst, next))
        } else {
            Some(replace_point(*bracket, worst, next))
        }
    } else {
        None
    }
}

/// The part of a step that follows a failed or skipped interpolation.
fn fall_back<T: BaseFloat, F: Dim1Func<T>>(func: &F, bracket: &Bracket<T>) -> (step: BrentStep<T>)
    ensures
        step == fallback_step(func, *bracket),
{
    let (first, middle, last) = (bracket.first, bracket.middle, bracket.last);
    let replace_last = first.y.sig_ne(middle.y);
    let (replaced, next_x, old_interval) = if replace_last {
        (Place::Last, secant_iter(&first, &middle), middle.x.sub(first.x))
    } else {
        (Place::First, secant_iter(&middle, &last), last.x.sub(middle.x))
    };
    let next_y = func.eval(next_x);
    if next_y.eq(T::zero()) {
        return BrentStep::Found(next_x);
    }
    let new_interval = if !replace_last {
        if next_y.sig_eq(middle.y) {
            last.x.sub(next_x)
        } else {
            next_x.sub(middle.x)
        }
    } else if next_y.sig_eq(first.y) {
        middle.x.sub(next_x)
    } else {
        next_x.sub(first.x)
    };
    let replaced_error = if replace_last {
        last.y.abs()
    } else {
        first.y.abs()
    };
    if next_y.abs().lt(replaced_error) && is_at_least(old_interval, new_interval.double()) {
        BrentStep::Next(replace_through_middle(*bracket, replaced, XYPair::new(next_x, next_y)))
    } else {
        let half_x = if replace_last {
            first.x.add(middle.x).half()
        } else {
            middle.x.add(last.x).half()
        };
        let half_y = func.eval(half_x);
        if half_y.eq(T::zero()) {
            BrentStep::Found(half_x)
        } else {
            BrentStep::Next(replace_through_middle(*bracket, replaced, XYPair::new(half_x, half_y)))
        }
    }
}

/// One step of the solver.
pub fn step<T: BaseFloat, F: Dim1Func<T>>(func: &F, bracket: &Bracket<T>) -> (step: BrentStep<T>)
    ensures
        step == brent_step(func, *bracket),
{
    let (max_error_place, max_error) = largest_error(bracket);
    let at_an_end = match max_error_place {
        Place::Middle => false,
        _ => true,
    };
    if at_an_end {
        let next_x = inverse_quadratic_interpolate(bracket);
        let next_y = func.eval(next_x);
        if next_y.eq(T::zero()) {
            return BrentStep::Found(next_x);
        } else if next_y.abs().lt(max_error) {
            match interpolate(bracket, max_error_place, XYPair::new(next_x, next_y)) {
                Some(next) => {
                    return BrentStep::Next(next);
                },
                None => {},
            }
        }
    }
    fall_back(func, bracket)
}

/// A solver by Brent's method on an interval at whose ends the function has
/// different signs.
pub struct BrentSolver<T> {
    pub search_range: [T; 2],
    pub error_tolerance: T,
}

impl<T: BaseFloat> BrentSolver<T> {
    /// The solver on the interval from `range[0]` to `range[1]`, with the
    /// tolerance that is usual.
    pub fn with_search_range(range: [T; 2]) -> (solver: Self)
        requires
            range[0].precedes(range[1]),
        ensures
            solver.search_range == range,
            solver.error_tolerance == T::epsilon_value(),
    {
        Self { search_range: range, error_tolerance: T::epsilon() }
    }

    /// The same solver with another tolerance.
    pub fn with_error_tolerance(self, tolerance: T) -> (solver: Self)
        ensures
            solver.search_range == self.search_range,
            solver.error_tolerance == tolerance,
    {
        Self { search_range: self.search_range, error_tolerance: tolerance }
    }
}

impl<T: BaseFloat, F: Dim1ContinuousFunc<T>> Dim1Solver<T, F> for BrentSolver<T> {
    /// The function has different signs at the ends of the interval.
    open spec fn accepts(&self, func: &F) -> bool {
        sign_differs(func.value(self.search_range[0]), func.value(self.search_range[1]))
    }

    open spec fn outcome(&self, func: &F) -> SolveResult<T> {
        brent_search(
            func,
            first_bracket(func, self.search_range[0], self.search_range[1]),
            self.error_tolerance,
            0,
        )
    }

    fn solve(&self, func: &F) -> (result: SolveResult<T>) {
        let a = self.search_range[0];
        let b = self.search_range[1];
        let c = a.add(b).half();
        let mut bracket = Bracket {
            first: XYPair::new(a, func.eval(a)),
            middle: XYPair::new(c, func.eval(c)),
            last: XYPair::new(b, func.eval(b)),
        };
        let ghost whole = brent_search(func, bracket, self.error_tolerance, 0);
        let mut iter_count: usize = 0;
        while iter_count < usize::MAX && self.error_tolerance.double().lt(
            bracket.last.x.sub(bracket.first.x),
        )
            invariant
                whole == self.outcome(func),
                whole == brent_search(func, bracket, self.error_tolerance, iter_count),
            decreases usize::MAX - iter_count,
        {
            proof {
                assert(is_wide(bracket.first.x, bracket.last.x, self.error_tolerance));
                assert(whole == match brent_step(func, bracket) {
                    BrentStep::Found(x) => SolveResult {
                        solution: Some(x),
                        iter_count: (iter_count + 1) as usize,
                    },
                    BrentStep::Next(next) => brent_search(
                        func,
                        next,
                        self.error_tolerance,
                        (iter_count + 1) as usize,
                    ),
                });
            }
            iter_count += 1;
            match step(func, &bracket) {
                BrentStep::Found(x) => {
                    return SolveResult { solution: Some(x), iter_count };
                },
                BrentStep::Next(next) => {
                    bracket = next;
                },
            }
        }
        SolveResult { solution: Some(bracket.middle.x), iter_count }
    }
}

} // verus!
