//! The mathematical vocabulary of the contracts: matrices as sequences of
//! rows, and the sums, maxima and products that the operations compute.
//!
//! Scalar addition is not assumed to be associative, so every sum is stated
//! with the order in which its terms are added, lowest index first.

use crate::base_float::BaseFloat;
use vstd::prelude::*;

verus! {

/// `m` has `rows` rows of `cols` entries each.
pub open spec fn has_shape<T>(m: Seq<Seq<T>>, rows: int, cols: int) -> bool {
    &&& m.len() == rows
    &&& forall|i: int| 0 <= i < rows ==> (#[trigger] m[i]).len() == cols
}

/// `m` is a matrix with at least one row and one column.
pub open spec fn is_matrix<T>(m: Seq<Seq<T>>) -> bool {
    &&& m.len() > 0
    &&& m[0].len() > 0
    &&& has_shape(m, m.len() as int, m[0].len() as int)
}

/// `m` is a matrix with as many rows as columns.
pub open spec fn is_square<T>(m: Seq<Seq<T>>) -> bool {
    is_matrix(m) && m[0].len() == m.len()
}

/// Column `j` of `m`, top to bottom.
pub open spec fn column<T>(m: Seq<Seq<T>>, j: int) -> Seq<T> {
    Seq::new(m.len(), |i: int| m[i][j])
}

/// A sequence of `n` zeros.
pub open spec fn zeros<T: BaseFloat>(n: int) -> Seq<T> {
    Seq::new(n as nat, |i: int| T::zero_value())
}

/// The `i`-th standard basis vector of length `n`.
pub open spec fn unit_vector<T: BaseFloat>(n: int, i: int) -> Seq<T> {
    Seq::new(n as nat, |k: int| if k == i { T::one_value() } else { T::zero_value() })
}

/// `a[lo]*b[lo] + ... + a[hi-1]*b[hi-1]`, added from zero in this order.
pub open spec fn dot_range<T: BaseFloat>(a: Seq<T>, b: Seq<T>, lo: int, hi: int) -> T
    decreases hi - lo,
{
    if hi <= lo {
        T::zero_value()
    } else {
        dot_range(a, b, lo, hi - 1).plus(a[hi - 1].times(b[hi - 1]))
    }
}

/// `|a[0]| + ... + |a[k-1]|`, added from zero in this order.
pub open spec fn magnitude_sum<T: BaseFloat>(a: Seq<T>, k: int) -> T
    decreases k,
{
    if k <= 0 {
        T::zero_value()
    } else {
        magnitude_sum(a, k - 1).plus(a[k - 1].magnitude())
    }
}

/// The largest of zero and `a[0], ..., a[k-1]`, taken in this order.
pub open spec fn max_from_zero<T: BaseFloat>(a: Seq<T>, k: int) -> T
    decreases k,
{
    if k <= 0 {
        T::zero_value()
    } else {
        max_from_zero(a, k - 1).greater_of(a[k - 1])
    }
}

/// The entries of `m` in row-major order.
pub open spec fn row_major<T>(m: Seq<Seq<T>>) -> Seq<T> {
    Seq::new(m.len() * m[0].len(), |k: int| m[k / (m[0].len() as int)][k % (m[0].len() as int)])
}

/// `m` with the entry at `(i, j)` replaced by `value`.
pub open spec fn with_entry<T>(m: Seq<Seq<T>>, i: int, j: int, value: T) -> Seq<Seq<T>> {
    m.update(i, m[i].update(j, value))
}

/// `m` with the entries at `a` and `b` exchanged.
pub open spec fn entries_swapped<T>(m: Seq<Seq<T>>, a: (int, int), b: (int, int)) -> Seq<Seq<T>> {
    let once = with_entry(m, a.0, a.1, m[b.0][b.1]);
    with_entry(once, b.0, b.1, m[a.0][a.1])
}

/// The product of `a` and the vector `v`.
pub open spec fn mat_vec<T: BaseFloat>(a: Seq<Seq<T>>, v: Seq<T>) -> Seq<T> {
    Seq::new(a.len(), |i: int| dot_range(a[i], v, 0, v.len() as int))
}

/// The entrywise sum of `a` and `b`.
pub open spec fn mat_add<T: BaseFloat>(a: Seq<Seq<T>>, b: Seq<Seq<T>>) -> Seq<Seq<T>> {
    Seq::new(a.len(), |i: int| Seq::new(a[i].len(), |j: int| a[i][j].plus(b[i][j])))
}

/// The entrywise difference of `a` and `b`.
pub open spec fn mat_sub<T: BaseFloat>(a: Seq<Seq<T>>, b: Seq<Seq<T>>) -> Seq<Seq<T>> {
    Seq::new(a.len(), |i: int| Seq::new(a[i].len(), |j: int| a[i][j].minus(b[i][j])))
}

/// The entrywise sum of the sequences `a` and `b`.
pub open spec fn seq_add<T: BaseFloat>(a: Seq<T>, b: Seq<T>) -> Seq<T> {
    Seq::new(a.len(), |k: int| a[k].plus(b[k]))
}

/// The entrywise difference of the sequences `a` and `b`.
pub open spec fn seq_sub<T: BaseFloat>(a: Seq<T>, b: Seq<T>) -> Seq<T> {
    Seq::new(a.len(), |k: int| a[k].minus(b[k]))
}

/// The entries of a `rows * cols` matrix read from row-major storage.
pub open spec fn from_row_major<T>(storage: Seq<T>, rows: int, cols: int) -> Seq<Seq<T>> {
    Seq::new(rows as nat, |i: int| Seq::new(cols as nat, |j: int| storage[i * cols + j]))
}

/// The product of the `rows * inner` matrix `a` and the `inner * cols`
/// matrix `b`: entry `(i, j)` is row `i` of `a` times column `j` of `b`.
pub open spec fn mat_mul_sized<T: BaseFloat>(
    a: Seq<Seq<T>>,
    b: Seq<Seq<T>>,
    rows: int,
    inner: int,
    cols: int,
) -> Seq<Seq<T>> {
    Seq::new(
        rows as nat,
        |i: int| Seq::new(cols as nat, |j: int| dot_range(a[i], column(b, j), 0, inner)),
    )
}

/// The product of the matrices `a` and `b`, where `b` has at least one row.
pub open spec fn mat_mul<T: BaseFloat>(a: Seq<Seq<T>>, b: Seq<Seq<T>>) -> Seq<Seq<T>> {
    mat_mul_sized(a, b, a.len() as int, b.len() as int, b[0].len() as int)
}

/// The transpose of a `rows * cols` matrix.
pub open spec fn transposed_sized<T>(m: Seq<Seq<T>>, rows: int, cols: int) -> Seq<Seq<T>> {
    Seq::new(cols as nat, |j: int| Seq::new(rows as nat, |i: int| m[i][j]))
}

/// `m` with rows `a` and `b` exchanged.
pub open spec fn rows_swapped<T>(m: Seq<Seq<T>>, a: int, b: int) -> Seq<Seq<T>> {
    m.update(a, m[b]).update(b, m[a])
}

/// The sums of the magnitudes of the columns of `m`, left to right.
pub open spec fn column_sums<T: BaseFloat>(m: Seq<Seq<T>>) -> Seq<T> {
    Seq::new(m[0].len(), |j: int| magnitude_sum(column(m, j), m.len() as int))
}

/// The induced 1-norm of `m`: the largest column sum of magnitudes.
pub open spec fn one_norm<T: BaseFloat>(m: Seq<Seq<T>>) -> T {
    max_from_zero(column_sums(m), m[0].len() as int)
}

/// The magnitudes of the entries of `a`.
pub open spec fn magnitudes<T: BaseFloat>(a: Seq<T>) -> Seq<T> {
    Seq::new(a.len(), |i: int| a[i].magnitude())
}

/// The first `k` unknowns of `l * x = b` for a lower-triangular `l`, by
/// forward substitution: `x[i] = (b[i] - (l[i][0]*x[0] + ... +
/// l[i][i-1]*x[i-1])) / l[i][i]`.
pub open spec fn forward_solution<T: BaseFloat>(l: Seq<Seq<T>>, b: Seq<T>, k: int) -> Seq<T>
    decreases k,
{
    if k <= 0 {
        Seq::empty()
    } else {
        let x = forward_solution(l, b, k - 1);
        x.push(b[k - 1].minus(dot_range(l[k - 1], x, 0, k - 1)).over(l[k - 1][k - 1]))
    }
}

/// The unknowns `i..n` of `u * x = b` for an upper-triangular `u`, by
/// backward substitution, in a vector of length `n = b.len()` whose first `i`
/// entries are zero: `x[i] = (b[i] - (u[i][i+1]*x[i+1] + ... +
/// u[i][n-1]*x[n-1])) / u[i][i]`.
pub open spec fn backward_solution<T: BaseFloat>(u: Seq<Seq<T>>, b: Seq<T>, i: int) -> Seq<T>
    decreases b.len() - i,
{
    if i >= b.len() {
        zeros(b.len() as int)
    } else {
        let x = backward_solution(u, b, i + 1);
        x.update(i, b[i].minus(dot_range(u[i], x, i + 1, b.len() as int)).over(u[i][i]))
    }
}

/// `v` reordered by the index vector `p`: entry `i` is `v[p[i]]`.
pub open spec fn permuted<T>(p: Seq<usize>, v: Seq<T>) -> Seq<T> {
    Seq::new(p.len(), |i: int| v[p[i] as int])
}

/// The rows of `m` reordered by the index vector `p`: row `i` is row `p[i]`
/// of `m`.
pub open spec fn rows_permuted<T>(p: Seq<usize>, m: Seq<Seq<T>>) -> Seq<Seq<T>> {
    Seq::new(p.len(), |i: int| m[p[i] as int])
}

/// The index vector that applies `p0` first and then `p1`: entry `i` is
/// `p1[p0[i]]`.
pub open spec fn composed(p0: Seq<usize>, p1: Seq<usize>) -> Seq<usize> {
    Seq::new(p0.len(), |i: int| p1[p0[i] as int])
}

/// `p` with the entries at `a` and `b` exchanged.
pub open spec fn exchanged(p: Seq<usize>, a: int, b: int) -> Seq<usize> {
    p.update(a, p[b]).update(b, p[a])
}

/// Every entry of `p` is an index into a sequence of length `n`.
pub open spec fn indexes_into(p: Seq<usize>, n: int) -> bool {
    forall|i: int| 0 <= i < p.len() ==> (#[trigger] p[i]) < n
}

/// `p` holds each of `0, ..., p.len() - 1` exactly once.
pub open spec fn is_permutation(p: Seq<usize>) -> bool {
    &&& forall|i: int| 0 <= i < p.len() ==> (#[trigger] p[i]) < p.len()
    &&& forall|i: int, j: int| 0 <= i < j < p.len() ==> #[trigger] p[i] != #[trigger] p[j]
}

/// The identity permutation of size `n`.
pub open spec fn identity_permutation(n: int) -> Seq<usize> {
    Seq::new(n as nat, |i: int| i as usize)
}

/// A sum of products over a range depends only on the terms in the range.
pub proof fn lemma_dot_range_agrees<T: BaseFloat>(a: Seq<T>, x: Seq<T>, y: Seq<T>, lo: int, hi: int)
    requires
        forall|k: int| lo <= k < hi ==> x[k] == y[k],
    ensures
        dot_range(a, x, lo, hi) == dot_range(a, y, lo, hi),
    decreases hi - lo,
{
    if lo < hi {
        lemma_dot_range_agrees(a, x, y, lo, hi - 1);
    }
}

/// Forward substitution extends its result: the first `i` unknowns are the
/// same whatever the number of unknowns solved for.
pub proof fn lemma_forward_solution_prefix<T: BaseFloat>(l: Seq<Seq<T>>, b: Seq<T>, i: int, k: int)
    requires
        0 <= i <= k,
    ensures
        forward_solution(l, b, k).len() == k,
        forward_solution(l, b, i).len() == i,
        forall|q: int| 0 <= q < i ==> forward_solution(l, b, k)[q] == forward_solution(l, b, i)[q],
    decreases k,
{
    if k > 0 {
        if i < k {
            lemma_forward_solution_prefix(l, b, i, k - 1);
        } else {
            lemma_forward_solution_prefix(l, b, k - 1, k - 1);
        }
    }
}

/// Backward substitution keeps what it has solved: the unknowns from `k` on
/// are the same whatever the number of unknowns solved for before them.
pub proof fn lemma_backward_solution_suffix<T: BaseFloat>(
    u: Seq<Seq<T>>,
    b: Seq<T>,
    i: int,
    k: int,
)
    requires
        0 <= i <= k <= b.len(),
    ensures
        backward_solution(u, b, i).len() == b.len(),
        backward_solution(u, b, k).len() == b.len(),
        forall|q: int|
            k <= q < b.len() ==> backward_solution(u, b, i)[q] == backward_solution(u, b, k)[q],
    decreases b.len() - i,
{
    if i < b.len() {
        if i < k {
            lemma_backward_solution_suffix(u, b, i + 1, k);
        } else {
            lemma_backward_solution_suffix(u, b, i + 1, i + 1);
        }
    }
}

/// The result `x` of forward substitution satisfies, for every row `i`,
/// `x[i] = (b[i] - (l[i][0]*x[0] + ... + l[i][i-1]*x[i-1])) / l[i][i]`.
pub proof fn lemma_forward_solution_solves<T: BaseFloat>(l: Seq<Seq<T>>, b: Seq<T>, n: int, i: int)
    requires
        0 <= i < n,
    ensures
        forward_solution(l, b, n).len() == n,
        forward_solution(l, b, n)[i] == b[i].minus(
            dot_range(l[i], forward_solution(l, b, n), 0, i),
        ).over(l[i][i]),
{
    let x = forward_solution(l, b, n);
    lemma_forward_solution_prefix(l, b, i + 1, n);
    lemma_forward_solution_prefix(l, b, i, n);
    lemma_dot_range_agrees(l[i], x, forward_solution(l, b, i), 0, i);
}

/// The result `x` of backward substitution satisfies, for every row `i`,
/// `x[i] = (b[i] - (u[i][i+1]*x[i+1] + ... + u[i][n-1]*x[n-1])) / u[i][i]`.
pub proof fn lemma_backward_solution_solves<T: BaseFloat>(u: Seq<Seq<T>>, b: Seq<T>, i: int)
    requires
        0 <= i < b.len(),
    ensures
        backward_solution(u, b, 0).len() == b.len(),
        backward_solution(u, b, 0)[i] == b[i].minus(
            dot_range(u[i], backward_solution(u, b, 0), i + 1, b.len() as int),
        ).over(u[i][i]),
{
    let x = backward_solution(u, b, 0);
    lemma_backward_solution_suffix(u, b, 0, i);
    lemma_backward_solution_suffix(u, b, 0, i + 1);
    lemma_backward_solution_suffix(u, b, i + 1, i + 1);
    lemma_dot_range_agrees(u[i], x, backward_solution(u, b, i + 1), i + 1, b.len() as int);
}

/// Exchanging two entries of a permutation gives a permutation.
pub proof fn lemma_exchanged_is_permutation(p: Seq<usize>, a: int, b: int)
    requires
        is_permutation(p),
        0 <= a < p.len(),
        0 <= b < p.len(),
    ensures
        is_permutation(exchanged(p, a, b)),
        exchanged(p, a, b).len() == p.len(),
{
    let q = exchanged(p, a, b);
    assert forall|i: int, j: int| 0 <= i < j < q.len() implies #[trigger] q[i]
        != #[trigger] q[j] by {
        let si = if i == a { b } else if i == b { a } else { i };
        let sj = if j == a { b } else if j == b { a } else { j };
        assert(q[i] == p[si]);
        assert(q[j] == p[sj]);
        if si < sj {
            assert(p[si] != p[sj]);
        } else {
            assert(p[sj] != p[si]);
        }
    }
}

/// The identity is a permutation.
pub proof fn lemma_identity_is_permutation(n: int)
    requires
        0 <= n <= usize::MAX,
    ensures
        is_permutation(identity_permutation(n)),
        identity_permutation(n).len() == n,
{
}

/// Reordering a vector by the composition of two index vectors is
/// reordering it by the second and then the result by the first.
pub proof fn lemma_composed_permutes_in_turn<T>(p0: Seq<usize>, p1: Seq<usize>, v: Seq<T>)
    requires
        indexes_into(p0, p1.len() as int),
    ensures
        permuted(composed(p0, p1), v) == permuted(p0, permuted(p1, v)),
{
    assert(permuted(composed(p0, p1), v) =~= permuted(p0, permuted(p1, v)));
}

/// The composition of two permutations of the same size is a permutation.
pub proof fn lemma_composed_is_permutation(p0: Seq<usize>, p1: Seq<usize>)
    requires
        is_permutation(p0),
        is_permutation(p1),
        p0.len() == p1.len(),
    ensures
        is_permutation(composed(p0, p1)),
{
    let q = composed(p0, p1);
    assert forall|i: int, j: int| 0 <= i < j < q.len() implies #[trigger] q[i]
        != #[trigger] q[j] by {
        let a = p0[i] as int;
        let b = p0[j] as int;
        assert(p0[i] != p0[j]);
        if a < b {
            assert(p1[a] != p1[b]);
        } else {
            assert(p1[b] != p1[a]);
        }
    }
}

/// Exchanging the same two entries twice gives the index vector back.
pub proof fn lemma_exchanged_twice(p: Seq<usize>, a: int, b: int)
    requires
        0 <= a < p.len(),
        0 <= b < p.len(),
    ensures
        exchanged(exchanged(p, a, b), a, b) == p,
{
    assert(exchanged(exchanged(p, a, b), a, b) =~= p);
}

/// Exchanging two entries of an index vector puts each in the place of the
/// other and leaves the rest.
pub proof fn lemma_exchanged_entries(p: Seq<usize>, a: int, b: int, i: int)
    requires
        0 <= a < p.len(),
        0 <= b < p.len(),
        0 <= i < p.len(),
    ensures
        exchanged(p, a, b).len() == p.len(),
        exchanged(p, a, b)[a] == p[b],
        exchanged(p, a, b)[b] == p[a],
        i != a && i != b ==> exchanged(p, a, b)[i] == p[i],
{
}

/// Reordering a vector by the identity leaves it as it is.
pub proof fn lemma_identity_permutes_nothing<T>(v: Seq<T>)
    requires
        v.len() <= usize::MAX,
    ensures
        permuted(identity_permutation(v.len() as int), v) == v,
{
    assert(permuted(identity_permutation(v.len() as int), v) =~= v);
}

} // verus!
