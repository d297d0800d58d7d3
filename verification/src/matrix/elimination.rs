//! What Gaussian elimination with partial pivoting computes, step by step.
//!
//! The working matrix holds, after the step for column `j`, the multipliers
//! of that column below the diagonal and the reduced rows to the right of it.

use crate::algebra::{
    backward_solution, exchanged, forward_solution, identity_permutation, is_permutation, is_square,
    lemma_exchanged_is_permutation, lemma_identity_is_permutation, permuted, rows_swapped,
    unit_vector,
};
use crate::base_float::BaseFloat;
use crate::row_major::entry;
use vstd::prelude::*;

verus! {

/// How the multiplier of a row is formed from its entry in the pivot column
/// and the pivot.
#[derive(Clone, Copy, Debug, PartialEq, Eq, Structural)]
pub enum Multiplier {
    /// The entry divided by the pivot.
    Quotient,
    /// The entry times the reciprocal of the pivot.
    Reciprocal,
}

/// The multiplier of a row with `entry` in the pivot column.
pub open spec fn multiplier<T: BaseFloat>(rule: Multiplier, entry: T, pivot: T) -> T {
    match rule {
        Multiplier::Quotient => entry.over(pivot),
        Multiplier::Reciprocal => entry.times(T::one_value().over(pivot)),
    }
}

/// The working matrix of an elimination and, for each of its rows, the row of
/// the matrix to be factored that it stems from.
pub struct Elimination<T> {
    pub rows: Seq<Seq<T>>,
    pub perm: Seq<usize>,
}

/// The row that the search for a pivot in column `j` selects among the rows
/// `j..upto`: the first one whose entry in that column has the largest
/// magnitude. A later row replaces an earlier one only if its magnitude is
/// strictly larger.
pub open spec fn pivot_row<T: BaseFloat>(m: Seq<Seq<T>>, j: int, upto: int) -> int
    decreases upto - j,
{
    if upto <= j + 1 {
        j
    } else {
        let best = pivot_row(m, j, upto - 1);
        if m[best][j].magnitude().precedes(m[upto - 1][j].magnitude()) {
            upto - 1
        } else {
            best
        }
    }
}

/// The state after the pivot row of column `j` has been moved to row `j`.
pub open spec fn pivoted<T: BaseFloat>(s: Elimination<T>, j: int) -> Elimination<T> {
    let r = pivot_row(s.rows, j, s.rows.len() as int);
    Elimination { rows: rows_swapped(s.rows, j, r), perm: exchanged(s.perm, j, r) }
}

/// Row `i` of `m` after the elimination of column `j` with the pivot
/// `m[j][j]`: the multiplier of the row in column `j`, and to the right of it
/// the row less the multiplier times row `j`.
pub open spec fn eliminated_row<T: BaseFloat>(
    m: Seq<Seq<T>>,
    j: int,
    i: int,
    rule: Multiplier,
) -> Seq<T> {
    let factor = multiplier(rule, m[i][j], m[j][j]);
    Seq::new(
        m[i].len(),
        |k: int|
            if k < j {
                m[i][k]
            } else if k == j {
                factor
            } else {
                m[i][k].minus(factor.times(m[j][k]))
            },
    )
}

/// `m` after the elimination of column `j`: the rows below row `j` are
/// reduced, the others stay.
pub open spec fn eliminated<T: BaseFloat>(m: Seq<Seq<T>>, j: int, rule: Multiplier) -> Seq<Seq<T>> {
    Seq::new(m.len(), |i: int| if i <= j { m[i] } else { eliminated_row(m, j, i, rule) })
}

/// The state after the steps for the columns `0..j`, none of which is held
/// up by a zero pivot.
pub open spec fn state_after<T: BaseFloat>(
    a: Seq<Seq<T>>,
    j: int,
    rule: Multiplier,
) -> Elimination<T>
    decreases j,
{
    if j <= 0 {
        Elimination { rows: a, perm: identity_permutation(a.len() as int) }
    } else {
        let s = pivoted(state_after(a, j - 1, rule), j - 1);
        Elimination { rows: eliminated(s.rows, j - 1, rule), perm: s.perm }
    }
}

/// The pivot of column `j`: the entry of largest magnitude that the search
/// selected, after the steps for the columns before it.
pub open spec fn pivot_at<T: BaseFloat>(a: Seq<Seq<T>>, j: int, rule: Multiplier) -> T {
    pivoted(state_after(a, j, rule), j).rows[j][j]
}

/// The elimination meets a pivot that is exactly zero in column `j`.
pub open spec fn breaks_at<T: BaseFloat>(a: Seq<Seq<T>>, j: int, rule: Multiplier) -> bool {
    pivot_at(a, j, rule).equals(T::zero_value())
}

/// The elimination of `a` meets a pivot that is exactly zero.
pub open spec fn is_singular<T: BaseFloat>(a: Seq<Seq<T>>, rule: Multiplier) -> bool {
    exists|j: int| 0 <= j < a.len() && #[trigger] breaks_at(a, j, rule)
}

/// The working matrix after the steps for the columns `0..j` of an
/// elimination that exchanges no rows, none of which is held up by a zero
/// pivot.
pub open spec fn plain_state_after<T: BaseFloat>(
    a: Seq<Seq<T>>,
    j: int,
    rule: Multiplier,
) -> Seq<Seq<T>>
    decreases j,
{
    if j <= 0 {
        a
    } else {
        eliminated(plain_state_after(a, j - 1, rule), j - 1, rule)
    }
}

/// The elimination without row exchanges meets a pivot that is exactly zero
/// in column `j`.
pub open spec fn plain_breaks_at<T: BaseFloat>(a: Seq<Seq<T>>, j: int, rule: Multiplier) -> bool {
    plain_state_after(a, j, rule)[j][j].equals(T::zero_value())
}

/// The elimination of `a` without row exchanges meets a pivot that is
/// exactly zero.
pub open spec fn is_plainly_singular<T: BaseFloat>(a: Seq<Seq<T>>, rule: Multiplier) -> bool {
    exists|j: int| 0 <= j < a.len() && #[trigger] plain_breaks_at(a, j, rule)
}

/// The unit lower-triangular factor read off the working matrix `m`: the
/// multipliers below the diagonal, ones on it.
pub open spec fn lower_factor<T: BaseFloat>(m: Seq<Seq<T>>) -> Seq<Seq<T>> {
    Seq::new(
        m.len(),
        |i: int|
            Seq::new(
                m.len(),
                |j: int|
                    if j < i {
                        m[i][j]
                    } else if j == i {
                        T::one_value()
                    } else {
                        T::zero_value()
                    },
            ),
    )
}

/// The upper-triangular factor read off the working matrix `m`: its entries
/// on and above the diagonal.
pub open spec fn upper_factor<T: BaseFloat>(m: Seq<Seq<T>>) -> Seq<Seq<T>> {
    Seq::new(
        m.len(),
        |i: int| Seq::new(m.len(), |j: int| if i <= j { m[i][j] } else { T::zero_value() }),
    )
}

/// The solution of `l * (u * x) = p * b` by forward and then backward
/// substitution.
pub open spec fn factored_solution<T: BaseFloat>(
    l: Seq<Seq<T>>,
    u: Seq<Seq<T>>,
    p: Seq<usize>,
    b: Seq<T>,
) -> Seq<T> {
    let pb = permuted(p, b);
    backward_solution(u, forward_solution(l, pb, pb.len() as int), 0)
}

/// The solution of `a * x = b` that the factorization of `a` gives.
pub open spec fn lu_solution<T: BaseFloat>(a: Seq<Seq<T>>, b: Seq<T>, rule: Multiplier) -> Seq<T> {
    let s = state_after(a, a.len() as int, rule);
    factored_solution(lower_factor(s.rows), upper_factor(s.rows), s.perm, b)
}

/// The inverse of `a` that the factorization of `a` gives: column `c` is the
/// solution of `a * x = e_c`.
pub open spec fn lu_inverse<T: BaseFloat>(a: Seq<Seq<T>>, rule: Multiplier) -> Seq<Seq<T>> {
    Seq::new(
        a.len(),
        |r: int|
            Seq::new(
                a.len(),
                |c: int| lu_solution(a, unit_vector::<T>(a.len() as int, c), rule)[r],
            ),
    )
}

/// The search for a pivot among the rows `j..upto` selects one of them.
pub proof fn lemma_pivot_row_in_range<T: BaseFloat>(m: Seq<Seq<T>>, j: int, upto: int)
    requires
        j < upto,
    ensures
        j <= pivot_row(m, j, upto) < upto,
    decreases upto - j,
{
    if upto > j + 1 {
        lemma_pivot_row_in_range(m, j, upto - 1);
    }
}

/// No row after the one that the search for a pivot selects has an entry of
/// strictly larger magnitude in the pivot column: a later row is selected
/// only when it is strictly larger than the one selected before it, so of
/// rows of equal magnitude the first stays.
pub proof fn lemma_pivot_row_is_not_exceeded<T: BaseFloat>(
    m: Seq<Seq<T>>,
    j: int,
    upto: int,
    i: int,
)
    requires
        j < upto,
        pivot_row(m, j, upto) < i < upto,
    ensures
        !m[pivot_row(m, j, upto)][j].magnitude().precedes(m[i][j].magnitude()),
    decreases upto - j,
{
    if upto > j + 1 {
        lemma_pivot_row_in_range(m, j, upto - 1);
        if i < upto - 1 {
            lemma_pivot_row_is_not_exceeded(m, j, upto - 1, i);
        }
    }
}

/// Every state of an elimination of a square matrix is a square matrix of
/// the same size together with a permutation of its rows.
pub proof fn lemma_state_shape<T: BaseFloat>(a: Seq<Seq<T>>, j: int, rule: Multiplier)
    requires
        is_square(a),
        0 <= j <= a.len(),
        a.len() <= usize::MAX,
    ensures
        is_square(state_after(a, j, rule).rows),
        state_after(a, j, rule).rows.len() == a.len(),
        state_after(a, j, rule).perm.len() == a.len(),
        is_permutation(state_after(a, j, rule).perm),
    decreases j,
{
    if j > 0 {
        lemma_state_shape(a, j - 1, rule);
        let before = state_after(a, j - 1, rule);
        lemma_pivot_row_in_range(before.rows, j - 1, a.len() as int);
        let r = pivot_row(before.rows, j - 1, before.rows.len() as int);
        lemma_exchanged_is_permutation(before.perm, j - 1, r);
        let s = pivoted(before, j - 1);
        assert(is_square(s.rows));
        let e = eliminated(s.rows, j - 1, rule);
        assert forall|i: int| 0 <= i < e.len() implies (#[trigger] e[i]).len() == a.len() by {}
        assert(is_square(e));
    } else {
        lemma_identity_is_permutation(a.len() as int);
    }
}

/// Every state of an elimination of a square matrix without row exchanges is
/// a square matrix of the same size.
pub proof fn lemma_plain_state_shape<T: BaseFloat>(a: Seq<Seq<T>>, j: int, rule: Multiplier)
    requires
        is_square(a),
        0 <= j <= a.len(),
    ensures
        is_square(plain_state_after(a, j, rule)),
        plain_state_after(a, j, rule).len() == a.len(),
    decreases j,
{
    if j > 0 {
        lemma_plain_state_shape(a, j - 1, rule);
        let e = eliminated(plain_state_after(a, j - 1, rule), j - 1, rule);
        assert forall|i: int| 0 <= i < e.len() implies (#[trigger] e[i]).len() == a.len() by {}
        assert(is_square(e));
    }
}

/// The lower factor is unit lower triangular: ones on the diagonal, zeros
/// above it.
pub proof fn lemma_lower_factor_is_unit_triangular<T: BaseFloat>(m: Seq<Seq<T>>, i: int, j: int)
    requires
        0 <= i < m.len(),
        0 <= j < m.len(),
    ensures
        i == j ==> lower_factor(m)[i][j] == T::one_value(),
        i < j ==> lower_factor(m)[i][j] == T::zero_value(),
        j < i ==> lower_factor(m)[i][j] == m[i][j],
{
}

/// The upper factor is upper triangular: zeros below the diagonal.
pub proof fn lemma_upper_factor_is_triangular<T: BaseFloat>(m: Seq<Seq<T>>, i: int, j: int)
    requires
        0 <= i < m.len(),
        0 <= j < m.len(),
    ensures
        j < i ==> upper_factor(m)[i][j] == T::zero_value(),
        i <= j ==> upper_factor(m)[i][j] == m[i][j],
{
}

/// A step of the elimination leaves the rows down to the pivot row as they
/// are, and with them what the earlier steps left in their columns.
pub proof fn lemma_eliminated_keeps_upper_rows<T: BaseFloat>(
    m: Seq<Seq<T>>,
    j: int,
    i: int,
    rule: Multiplier,
)
    requires
        0 <= i <= j < m.len(),
    ensures
        eliminated(m, j, rule)[i] == m[i],
{
}

/// A step of the elimination leaves the columns before the pivot column as
/// they are: the multipliers of the earlier steps stay.
pub proof fn lemma_eliminated_keeps_left_columns<T: BaseFloat>(
    m: Seq<Seq<T>>,
    j: int,
    i: int,
    k: int,
    rule: Multiplier,
)
    requires
        0 <= i < m.len(),
        0 <= k < j,
        k < m[i].len(),
    ensures
        eliminated(m, j, rule)[i][k] == m[i][k],
{
}

/// The elimination is singular exactly if it breaks at some column, and then
/// there is a first such column, before which every pivot is other than
/// zero.
pub proof fn lemma_first_break<T: BaseFloat>(a: Seq<Seq<T>>, rule: Multiplier) -> (first: int)
    requires
        is_singular(a, rule),
    ensures
        0 <= first < a.len(),
        breaks_at(a, first, rule),
        forall|j: int| 0 <= j < first ==> !#[trigger] breaks_at(a, j, rule),
{
    let some = choose|j: int| 0 <= j < a.len() && #[trigger] breaks_at(a, j, rule);
    first_break_before(a, rule, some)
}

/// The first column at which the elimination breaks, which is `bound` or
/// lies before it.
proof fn first_break_before<T: BaseFloat>(a: Seq<Seq<T>>, rule: Multiplier, bound: int) -> (first:
    int)
    requires
        0 <= bound < a.len(),
        breaks_at(a, bound, rule),
    ensures
        0 <= first <= bound,
        breaks_at(a, first, rule),
        forall|j: int| 0 <= j < first ==> !#[trigger] breaks_at(a, j, rule),
    decreases bound,
{
    if exists|j: int| 0 <= j < bound && #[trigger] breaks_at(a, j, rule) {
        let earlier = choose|j: int| 0 <= j < bound && #[trigger] breaks_at(a, j, rule);
        first_break_before(a, rule, earlier)
    } else {
        bound
    }
}

} // verus!
