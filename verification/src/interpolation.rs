//! Polynomial interpolation in Newton's form by divided differences.

use crate::base_float::BaseFloat;
use crate::polynomial::nested_value;
use vstd::prelude::*;

verus! {

/// The abscissas of the points.
pub open spec fn abscissas<T>(points: Seq<(T, T)>) -> Seq<T> {
    Seq::new(points.len(), |i: int| points[i].0)
}

/// The divided difference `f[x_lo, ..., x_hi]` of the points: the ordinate
/// for a single point, and else
/// `(f[x_lo+1, ..., x_hi] - f[x_lo, ..., x_hi-1]) / (x_hi - x_lo)`.
pub open spec fn divided_difference<T: BaseFloat>(points: Seq<(T, T)>, lo: int, hi: int) -> T
    decreases hi - lo,
{
    if hi <= lo {
        points[lo].1
    } else {
        divided_difference(points, lo + 1, hi).minus(divided_difference(points, lo, hi - 1)).over(
            points[hi].0.minus(points[lo].0),
        )
    }
}

/// `states` holds, for the `n` points, the divided differences that end at
/// the last point: `states[i]` is `f[x_{n-1-i}, ..., x_{n-1}]`.
pub open spec fn tracks<T: BaseFloat>(states: Seq<T>, points: Seq<(T, T)>) -> bool {
    &&& states.len() == points.len()
    &&& forall|i: int|
        0 <= i < states.len() ==> #[trigger] states[i] == divided_difference(
            points,
            points.len() - 1 - i,
            points.len() - 1,
        )
}

/// A divided difference depends only on the points that it spans.
pub proof fn lemma_divided_difference_agrees<T: BaseFloat>(
    p: Seq<(T, T)>,
    q: Seq<(T, T)>,
    lo: int,
    hi: int,
)
    requires
        forall|k: int| lo <= k <= hi ==> p[k] == q[k],
        lo <= hi,
    ensures
        divided_difference(p, lo, hi) == divided_difference(q, lo, hi),
    decreases hi - lo,
{
    if lo < hi {
        lemma_divided_difference_agrees(p, q, lo + 1, hi);
        lemma_divided_difference_agrees(p, q, lo, hi - 1);
    }
}

/// Adds a point to the points that were interpolated so far, brings the
/// divided differences in `states` up to date, and returns the coefficient
/// of the new term of the interpolating polynomial: the divided difference
/// over all the points.
pub fn add_point<T: BaseFloat>(
    new_point: (T, T),
    points: &mut Vec<(T, T)>,
    states: &mut Vec<T>,
) -> (coefficient: T)
    requires
        tracks(old(states)@, old(points)@),
    ensures
        final(points)@ == old(points)@.push(new_point),
        tracks(final(states)@, final(points)@),
        coefficient == divided_difference(final(points)@, 0, old(points)@.len() as int),
{
    let (x, y) = new_point;
    let n = points.len();
    let ghost before = points@;
    let ghost after = points@.push(new_point);
    let mut new = y;
    let mut i: usize = 0;
    while i < n
        invariant
            0 <= i <= n,
            n == before.len(),
            points@ == before,
            after == before.push(new_point),
            x == new_point.0,
            states.len() == n,
            new == divided_difference(after, n - i, n as int),
            forall|k: int|
                0 <= k < i ==> #[trigger] states@[k] == divided_difference(after, n - k, n as int),
            forall|k: int|
                i <= k < n ==> #[trigger] states@[k] == divided_difference(
                    before,
                    n - 1 - k,
                    n - 1,
                ),
        decreases n - i,
    {
        let old_state = states[i];
        proof {
            lemma_divided_difference_agrees(before, after, n - 1 - i, n - 1);
        }
        states.set(i, new);
        new = new.sub(old_state).div(x.sub(points[n - i - 1].0));
        i += 1;
    }
    states.push(new);
    points.push(new_point);
    new
}

/// The coefficients of the polynomial in Newton's form through the points:
/// coefficient `k` is the divided difference `f[x_0, ..., x_k]`.
pub fn polynomial_interpolation<T: BaseFloat>(points: Vec<(T, T)>) -> (coes: Vec<T>)
    ensures
        coes.len() == points.len(),
        forall|k: int|
            0 <= k < points.len() ==> #[trigger] coes@[k] == divided_difference(points@, 0, k),
{
    let mut coes: Vec<T> = Vec::new();
    let mut temp_states: Vec<T> = Vec::new();
    let mut temp_points: Vec<(T, T)> = Vec::new();
    let mut i: usize = 0;
    while i < points.len()
        invariant
            0 <= i <= points.len(),
            coes.len() == i,
            temp_points@ == points@.subrange(0, i as int),
            tracks(temp_states@, temp_points@),
            forall|k: int| 0 <= k < i ==> #[trigger] coes@[k] == divided_difference(points@, 0, k),
        decreases points.len() - i,
    {
        let coefficient = add_point(points[i], &mut temp_points, &mut temp_states);
        proof {
            assert(temp_points@ =~= points@.subrange(0, i + 1));
            lemma_divided_difference_agrees(temp_points@, points@, 0, i as int);
        }
        coes.push(coefficient);
        i += 1;
    }
    coes
}

/// The value at `x` of the polynomial in Newton's form with the coefficients
/// `coes` and the base points `base_points`.
pub fn interpolated_polynomial<T: BaseFloat>(x: T, coes: &Vec<T>, base_points: &Vec<T>) -> (y: T)
    requires
        coes.len() == base_points.len() + 1,
    ensures
        y == nested_value(coes@, Some(base_points@), x, 0),
{
    let n = coes.len();
    let mut y = coes[n - 1];
    let mut i: usize = n - 1;
    while i > 0
        invariant
            0 <= i <= n - 1,
            n == coes.len(),
            n == base_points.len() + 1,
            y == nested_value(coes@, Some(base_points@), x, i as int),
        decreases i,
    {
        i -= 1;
        y = y.mul(x.sub(base_points[i])).add(coes[i]);
    }
    y
}

} // verus!
