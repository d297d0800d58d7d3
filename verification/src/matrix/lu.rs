//! Factorization of a square matrix into a unit lower-triangular and an
//! upper-triangular factor with partial pivoting, and what is built on it:
//! solving linear systems, inversion and the condition number.

use crate::algebra::{
    exchanged, has_shape, identity_permutation, is_matrix, is_permutation, is_square,
    lemma_backward_solution_suffix, lemma_forward_solution_prefix, one_norm, permuted, unit_vector,
};
use crate::base_float::BaseFloat;
use crate::index2d::{
    full_offset, lemma_full_offset_in_range, lemma_packed_len_monotonic, lemma_triangle_number,
    lemma_whole_rows,
};
use crate::matrix::elimination::{
    breaks_at, eliminated, eliminated_row, factored_solution, is_singular, lemma_state_shape,
    lower_factor, lu_inverse, lu_solution, multiplier, pivot_row, pivoted, state_after,
    upper_factor, Multiplier,
};
use crate::matrix::full_mat::FullMat;
use crate::matrix::triangle_mat::{TriFullMat, TriangleMatType};
use crate::packed::{
    in_triangle, lemma_next_row_start, lemma_packed_offset_in_range,
    lemma_packed_offset_injective_order, lemma_storage_end, packed_offset, packed_row_first,
    unpacked,
};
use crate::row_major::entry;
use vstd::prelude::*;

verus! {

/// The index vector `0, 1, ..., n - 1`.
fn identity_indices(n: usize) -> (p: Vec<usize>)
    ensures
        p@ == identity_permutation(n as int),
{
    let mut p: Vec<usize> = Vec::new();
    let mut i: usize = 0;
    while i < n
        invariant
            0 <= i <= n,
            p.len() == i,
            forall|k: int| 0 <= k < i ==> #[trigger] p@[k] == k,
        decreases n - i,
    {
        p.push(i);
        i += 1;
    }
    assert(p@ =~= identity_permutation(n as int));
    p
}

/// Exchanges the entries at `a` and `b` of an index vector.
fn exchange_indices(p: &mut Vec<usize>, a: usize, b: usize)
    requires
        a < old(p).len(),
        b < old(p).len(),
    ensures
        final(p)@ == exchanged(old(p)@, a as int, b as int),
{
    let at_a: usize = p[a];
    let at_b: usize = p[b];
    p.set(a, at_b);
    p.set(b, at_a);
}

/// `b` reordered by the index vector `p`: entry `i` is `b[p[i]]`.
fn permute<T: Copy>(p: &Vec<usize>, b: &Vec<T>) -> (pb: Vec<T>)
    requires
        forall|i: int| 0 <= i < p.len() ==> (#[trigger] p@[i]) < b.len(),
    ensures
        pb@ == permuted(p@, b@),
{
    let mut pb: Vec<T> = Vec::new();
    let mut i: usize = 0;
    while i < p.len()
        invariant
            0 <= i <= p.len(),
            forall|k: int| 0 <= k < p.len() ==> (#[trigger] p@[k]) < b.len(),
            pb.len() == i,
            forall|k: int| 0 <= k < i ==> #[trigger] pb@[k] == b@[p@[k] as int],
        decreases p.len() - i,
    {
        pb.push(b[p[i]]);
        i += 1;
    }
    assert(pb@ =~= permuted(p@, b@));
    pb
}

/// The `i`-th standard basis vector of length `n`.
fn basis_vector<T: BaseFloat>(n: usize, i: usize) -> (e: Vec<T>)
    ensures
        e@ == unit_vector::<T>(n as int, i as int),
{
    let mut e: Vec<T> = Vec::new();
    let mut k: usize = 0;
    while k < n
        invariant
            0 <= k <= n,
            e.len() == k,
            forall|q: int|
                0 <= q < k ==> #[trigger] e@[q] == unit_vector::<T>(n as int, i as int)[q],
        decreases n - k,
    {
        e.push(if k == i { T::one() } else { T::zero() });
        k += 1;
    }
    assert(e@ =~= unit_vector::<T>(n as int, i as int));
    e
}

/// Solves `l * (u * x) = p * b` with the factors of a matrix.
fn solve_factored<T: BaseFloat>(
    l: &TriFullMat<T>,
    u: &TriFullMat<T>,
    p: &Vec<usize>,
    b: &Vec<T>,
) -> (x: Vec<T>)
    requires
        l.wf(),
        u.wf(),
        l.kind() == TriangleMatType::Lower,
        u.kind() == TriangleMatType::Upper,
        l.size() == b.len(),
        u.size() == b.len(),
        p.len() == b.len(),
        is_permutation(p@),
    ensures
        x@ == factored_solution(l@, u@, p@, b@),
        x.len() == b.len(),
{
    let pb = permute(p, b);
    proof {
        lemma_forward_solution_prefix(l@, pb@, 0, pb.len() as int);
    }
    let y = l.solve(pb);
    proof {
        lemma_backward_solution_suffix(u@, y@, 0, 0);
    }
    u.solve(y)
}

impl<T: BaseFloat> FullMat<T> {
    /// The row among `j..n` whose entry in column `j` has the largest
    /// magnitude; of several such rows the first.
    fn find_pivot_row(&self, j: usize) -> (row: usize)
        requires
            self.wf(),
            self.rows() == self.cols(),
            j < self.rows(),
        ensures
            row == pivot_row(self@, j as int, self.rows()),
            j <= row < self.rows(),
    {
        proof {
            self.lemma_wf_is_matrix();
        }
        let n = self.col_count();
        let mut max_abs = self.get((j, j)).abs();
        let mut max_abs_row: usize = j;
        let mut i: usize = j + 1;
        while i < n
            invariant
                j + 1 <= i <= n,
                self.wf(),
                is_matrix(self@),
                n == self.rows(),
                n == self.cols(),
                j <= max_abs_row < i,
                max_abs_row == pivot_row(self@, j as int, i as int),
                max_abs == self@[max_abs_row as int][j as int].magnitude(),
            decreases n - i,
        {
            let abs = self.get((i, j)).abs();
            if max_abs.lt(abs) {
                max_abs = abs;
                max_abs_row = i;
            }
            i += 1;
        }
        max_abs_row
    }

    /// Reduces the rows below row `j` with the pivot at `(j, j)`, leaving the
    /// multipliers in column `j`.
    pub(crate) fn eliminate_column(&mut self, j: usize, rule: Multiplier)
        requires
            old(self).wf(),
            old(self).rows() == old(self).cols(),
            j < old(self).rows(),
        ensures
            final(self).wf(),
            final(self)@ == eliminated(old(self)@, j as int, rule),
    {
        proof {
            self.lemma_wf_is_matrix();
        }
        let ghost before = self@;
        let n = self.col_count();
        let pivot = self.get((j, j));
        let reciprocal = T::one().div(pivot);
        let mut i: usize = j + 1;
        while i < n
            invariant
                j + 1 <= i <= n,
                self.wf(),
                reciprocal == T::one_value().over(pivot),
                is_square(before),
                n == before.len(),
                has_shape(self@, n as int, n as int),
                pivot == before[j as int][j as int],
                forall|r: int|
                    0 <= r < i ==> #[trigger] self@[r] == eliminated(before, j as int, rule)[r],
                forall|r: int| i <= r < n ==> #[trigger] self@[r] == before[r],
            decreases n - i,
        {
            let ghost target = eliminated_row(before, j as int, i as int, rule);
            let ghost start = self@;
            let m = match rule {
                Multiplier::Quotient => self.get((i, j)).div(pivot),
                Multiplier::Reciprocal => self.get((i, j)).mul(reciprocal),
            };
            self.set((i, j), m);
            let mut k: usize = j + 1;
            while k < n
                invariant
                    j + 1 <= k <= n,
                    j + 1 <= i < n,
                    self.wf(),
                    is_square(before),
                    n == before.len(),
                    has_shape(self@, n as int, n as int),
                    has_shape(start, n as int, n as int),
                    target == eliminated_row(before, j as int, i as int, rule),
                    m == multiplier(rule, before[i as int][j as int], before[j as int][j as int]),
                    start[j as int] == before[j as int],
                    start[i as int] == before[i as int],
                    forall|r: int| 0 <= r < n && r != i ==> #[trigger] self@[r] == start[r],
                    forall|c: int| 0 <= c < k ==> #[trigger] self@[i as int][c] == target[c],
                    forall|c: int|
                        k <= c < n ==> #[trigger] self@[i as int][c] == before[i as int][c],
                decreases n - k,
            {
                let col_pivot = self.get((j, k));
                let reduced = self.get((i, k)).sub(m.mul(col_pivot));
                self.set((i, k), reduced);
                k += 1;
            }
            proof {
                assert(self@[i as int] =~= target);
            }
            i += 1;
        }
        proof {
            assert(self@ =~= eliminated(before, j as int, rule));
        }
    }

    /// The triangle `ty` of the working matrix of an elimination as a
    /// triangular matrix: for the lower triangle with ones on the diagonal.
    pub(crate) fn factor(&self, ty: TriangleMatType) -> (tri: TriFullMat<T>)
        requires
            self.wf(),
            self.rows() == self.cols(),
        ensures
            tri.wf(),
            tri.kind() == ty,
            tri.size() == self.rows(),
            tri@ == match ty {
                TriangleMatType::Lower => lower_factor(self@),
                TriangleMatType::Upper => upper_factor(self@),
            },
    {
        proof {
            self.lemma_wf_is_matrix();
        }
        let n = self.col_count();
        let ghost expected = match ty {
            TriangleMatType::Lower => lower_factor(self@),
            TriangleMatType::Upper => upper_factor(self@),
        };
        let mut v: Vec<T> = Vec::new();
        let mut i: usize = 0;
        while i < n
            invariant
                0 <= i <= n,
                self.wf(),
                is_matrix(self@),
                n == self.rows(),
                n == self.cols(),
                expected == match ty {
                    TriangleMatType::Lower => lower_factor(self@),
                    TriangleMatType::Upper => upper_factor(self@),
                },
                v.len() == packed_offset(ty, i as int, packed_row_first(ty, i as int), n as int),
                forall|r: int, c: int|
                    0 <= r < i && 0 <= c < n && in_triangle(ty, r, c) ==> v@[
                    #[trigger] packed_offset(ty, r, c, n as int)] == expected[r][c],
            decreases n - i,
        {
            let (first, end): (usize, usize) = match ty {
                TriangleMatType::Lower => (0, i + 1),
                TriangleMatType::Upper => (i, n),
            };
            let mut j: usize = first;
            while j < end
                invariant
                    first <= j <= end <= n,
                    0 <= i < n,
                    self.wf(),
                    is_matrix(self@),
                    n == self.rows(),
                    n == self.cols(),
                    first == packed_row_first(ty, i as int),
                    end == match ty {
                        TriangleMatType::Lower => i + 1,
                        TriangleMatType::Upper => n as int,
                    },
                    expected == match ty {
                        TriangleMatType::Lower => lower_factor(self@),
                        TriangleMatType::Upper => upper_factor(self@),
                    },
                    v.len() == packed_offset(ty, i as int, j as int, n as int),
                    forall|r: int, c: int|
                        0 <= r < i && 0 <= c < n && in_triangle(ty, r, c) ==> v@[
                        #[trigger] packed_offset(ty, r, c, n as int)] == expected[r][c],
                    forall|c: int|
                        first <= c < j ==> v@[#[trigger] packed_offset(ty, i as int, c, n as int)]
                            == expected[i as int][c],
                decreases end - j,
            {
                proof {
                    assert forall|r: int, c: int|
                        0 <= r < i && 0 <= c < n && in_triangle(ty, r, c) implies
                        #[trigger] packed_offset(ty, r, c, n as int) < v.len() by {
                        lemma_packed_offset_injective_order(ty, r, c, i as int, j as int, n as int);
                    }
                }
                let on_unit_diagonal = match ty {
                    TriangleMatType::Lower => j == i,
                    TriangleMatType::Upper => false,
                };
                let entry = if on_unit_diagonal {
                    T::one()
                } else {
                    self.get((i, j))
                };
                v.push(entry);
                j += 1;
            }
            proof {
                lemma_next_row_start(ty, i as int, n as int);
            }
            i += 1;
        }
        proof {
            lemma_storage_end(ty, n as int);
            lemma_triangle_number(n as int);
        }
        let tri = TriFullMat::from_vec(ty, v);
        proof {
            if tri.size() < n {
                lemma_packed_len_monotonic(tri.size() + 1, n as int);
                lemma_triangle_number(tri.size());
            } else if tri.size() > n {
                lemma_packed_len_monotonic(n as int + 1, tri.size());
            }
            tri.lemma_view();
            assert forall|r: int| 0 <= r < n implies #[trigger] tri@[r] =~= expected[r] by {
                assert forall|c: int| 0 <= c < n implies tri@[r][c] == expected[r][c] by {
                    if in_triangle(ty, r, c) {
                        lemma_packed_offset_in_range(ty, r, c, n as int);
                    }
                }
            }
            assert(tri@ =~= expected);
        }
        tri
    }

    /// Factors the square matrix as `P * A = L * U` by Gaussian elimination
    /// with partial pivoting, forming the multipliers by `rule`. There is no
    /// result if a pivot is exactly zero.
    pub(crate) fn factorize(&self, rule: Multiplier) -> (factors: Option<
        (TriFullMat<T>, TriFullMat<T>, Vec<usize>),
    >)
        requires
            self.wf(),
            self.rows() == self.cols(),
        ensures
            factors.is_none() <==> is_singular(self@, rule),
            match factors {
                Some((l, u, p)) => {
                    let s = state_after(self@, self.rows(), rule);
                    &&& l.wf()
                    &&& l.kind() == TriangleMatType::Lower
                    &&& l.size() == self.rows()
                    &&& l@ == lower_factor(s.rows)
                    &&& u.wf()
                    &&& u.kind() == TriangleMatType::Upper
                    &&& u.size() == self.rows()
                    &&& u@ == upper_factor(s.rows)
                    &&& p@ == s.perm
                    &&& p@.len() == self.rows()
                    &&& is_permutation(p@)
                },
                None => true,
            },
    {
        proof {
            self.lemma_wf_is_matrix();
        }
        let ghost a = self@;
        let mut mat = self.clone();
        let n = mat.col_count();
        let mut p = identity_indices(n);
        let mut j: usize = 0;
        while j < n
            invariant
                0 <= j <= n,
                a == self@,
                is_square(a),
                n == a.len(),
                mat.wf(),
                mat@ == state_after(a, j as int, rule).rows,
                p@ == state_after(a, j as int, rule).perm,
                forall|q: int| 0 <= q < j ==> !#[trigger] breaks_at(a, q, rule),
            decreases n - j,
        {
            proof {
                lemma_state_shape(a, j as int, rule);
            }
            let ghost before = state_after(a, j as int, rule);
            let max_abs_row = mat.find_pivot_row(j);
            if max_abs_row != j {
                mat.swap_row(j, max_abs_row);
                exchange_indices(&mut p, j, max_abs_row);
            }
            proof {
                let s = pivoted(before, j as int);
                assert(mat@ =~= s.rows);
                assert(p@ =~= s.perm);
            }
            let pivot = mat.get((j, j));
            if pivot.eq(T::zero()) {
                proof {
                    assert(breaks_at(a, j as int, rule));
                }
                return None;
            }
            mat.eliminate_column(j, rule);
            j += 1;
        }
        proof {
            lemma_state_shape(a, n as int, rule);
        }
        let l = mat.factor(TriangleMatType::Lower);
        let u = mat.factor(TriangleMatType::Upper);
        Some((l, u, p))
    }

    /// Factors the square matrix as `P * A = L * U` by Gaussian elimination
    /// with partial pivoting, where `L` is unit lower triangular, `U` upper
    /// triangular and row `i` of `P * A` is row `p[i]` of `A`.
    ///
    /// In each column the entry of largest magnitude on or below the diagonal
    /// becomes the pivot, and each row below it is reduced by its entry in that
    /// column divided by the pivot. There is no result if a pivot is exactly
    /// zero.
    pub fn lu(&self) -> (factors: Option<(TriFullMat<T>, TriFullMat<T>, Vec<usize>)>)
        requires
            self.wf(),
            self.rows() == self.cols(),
        ensures
            factors.is_none() <==> is_singular(self@, Multiplier::Quotient),
            match factors {
                Some((l, u, p)) => {
                    let s = state_after(self@, self.rows(), Multiplier::Quotient);
                    &&& l.wf()
                    &&& l.kind() == TriangleMatType::Lower
                    &&& l.size() == self.rows()
                    &&& l@ == lower_factor(s.rows)
                    &&& u.wf()
                    &&& u.kind() == TriangleMatType::Upper
                    &&& u.size() == self.rows()
                    &&& u@ == upper_factor(s.rows)
                    &&& p@ == s.perm
                    &&& p@.len() == self.rows()
                    &&& is_permutation(p@)
                },
                None => true,
            },
    {
        self.factorize(Multiplier::Quotient)
    }

    /// Solves `self * x = b` with the factorization of the matrix. There is
    /// no result if the matrix is singular.
    pub fn lu_solve(&self, b: &Vec<T>) -> (x: Option<Vec<T>>)
        requires
            self.wf(),
            self.rows() == self.cols(),
            b.len() == self.cols(),
        ensures
            x.is_none() <==> is_singular(self@, Multiplier::Quotient),
            match x {
                Some(x) => x@ == lu_solution(self@, b@, Multiplier::Quotient),
                None => true,
            },
    {
        match self.lu() {
            Some((l, u, p)) => Some(solve_factored(&l, &u, &p, b)),
            None => None,
        }
    }

    /// The inverse of the square matrix: its column `c` solves
    /// `self * x = e_c`, all columns with one factorization. There is no
    /// result if the matrix is singular.
    pub fn inv(&self) -> (inverse: Option<Self>)
        requires
            self.wf(),
            self.rows() == self.cols(),
        ensures
            inverse.is_none() <==> is_singular(self@, Multiplier::Quotient),
            match inverse {
                Some(m) => m.wf() && m@ == lu_inverse(self@, Multiplier::Quotient),
                None => true,
            },
    {
        proof {
            self.lemma_wf_is_matrix();
        }
        let n = self.col_count();
        match self.lu() {
            Some((l, u, p)) => {
                let mut cols: Vec<Vec<T>> = Vec::new();
                let mut i: usize = 0;
                while i < n
                    invariant
                        0 <= i <= n,
                        n == self@.len(),
                        l.wf(),
                        u.wf(),
                        l.kind() == TriangleMatType::Lower,
                        u.kind() == TriangleMatType::Upper,
                        l.size() == n,
                        u.size() == n,
                        p.len() == n,
                        is_permutation(p@),
                        l@ == lower_factor(state_after(self@, n as int, Multiplier::Quotient).rows),
                        u@ == upper_factor(state_after(self@, n as int, Multiplier::Quotient).rows),
                        p@ == state_after(self@, n as int, Multiplier::Quotient).perm,
                        cols.len() == i,
                        forall|c: int|
                            0 <= c < i ==> (#[trigger] cols@[c])@ == lu_solution(
                                self@,
                                unit_vector::<T>(n as int, c),
                                Multiplier::Quotient,
                            ) && cols@[c].len() == n,
                    decreases n - i,
                {
                    let b = basis_vector::<T>(n, i);
                    let x = solve_factored(&l, &u, &p, &b);
                    cols.push(x);
                    i += 1;
                }
                let mut v: Vec<T> = Vec::new();
                let mut r: usize = 0;
                while r < n
                    invariant
                        0 <= r <= n,
                        0 < n,
                        n == self@.len(),
                        cols.len() == n,
                        forall|c: int|
                            0 <= c < n ==> (#[trigger] cols@[c])@ == lu_solution(
                                self@,
                                unit_vector::<T>(n as int, c),
                                Multiplier::Quotient,
                            ) && cols@[c].len() == n,
                        v.len() == r * n,
                        forall|i: int, j: int|
                            0 <= i < r && 0 <= j < n ==> v@[#[trigger] full_offset(i, j, n as int)]
                                == lu_inverse(self@, Multiplier::Quotient)[i][j],
                    decreases n - r,
                {
                    let mut c: usize = 0;
                    while c < n
                        invariant
                            0 <= c <= n,
                            0 <= r < n,
                            n == self@.len(),
                            cols.len() == n,
                            forall|c: int|
                                0 <= c < n ==> (#[trigger] cols@[c])@ == lu_solution(
                                    self@,
                                    unit_vector::<T>(n as int, c),
                                    Multiplier::Quotient,
                                ) && cols@[c].len() == n,
                            v.len() == r * n + c,
                            forall|i: int, j: int|
                                0 <= i < r && 0 <= j < n ==> v@[#[trigger] full_offset(
                                    i,
                                    j,
                                    n as int,
                                )] == lu_inverse(self@, Multiplier::Quotient)[i][j],
                            forall|j: int|
                                0 <= j < c ==> v@[#[trigger] full_offset(r as int, j, n as int)]
                                    == lu_inverse(self@, Multiplier::Quotient)[r as int][j],
                        decreases n - c,
                    {
                        proof {
                            assert forall|i: int, j: int| 0 <= i < r && 0 <= j < n implies
                                #[trigger] full_offset(i, j, n as int) < r * n by {
                                lemma_full_offset_in_range(i, j, r as int, n as int);
                            }
                        }
                        let col = &cols[c];
                        v.push(col[r]);
                        c += 1;
                    }
                    proof {
                        assert((r + 1) * n == r * n + n) by (nonlinear_arith);
                    }
                    r += 1;
                }
                proof {
                    let len = v.len() as int;
                    let c = n as int;
                    assert(len % c == 0 && len / c == c && len > 0) by (nonlinear_arith)
                        requires
                            len == c * c,
                            c > 0,
                    ;
                }
                let inverse = Self::from_vec(n, v);
                proof {
                    let expected = lu_inverse(self@, Multiplier::Quotient);
                    assert forall|i: int| 0 <= i < n implies #[trigger] inverse@[i]
                        =~= expected[i] by {
                        assert forall|j: int| 0 <= j < n implies inverse@[i][j]
                            == expected[i][j] by {
                            assert(inverse@[i][j] == v@[full_offset(i, j, n as int)]);
                        }
                    }
                    assert(inverse@ =~= expected);
                }
                Some(inverse)
            },
            None => None,
        }
    }

    /// The condition number of the square matrix in the 1-norm: the norm of
    /// the matrix times the norm of its inverse. There is no result if the
    /// matrix is singular.
    pub fn condition_number(&self) -> (condition: Option<T>)
        requires
            self.wf(),
            self.rows() == self.cols(),
        ensures
            condition.is_none() <==> is_singular(self@, Multiplier::Quotient),
            match condition {
                Some(c) => c == one_norm(self@).times(
                    one_norm(lu_inverse(self@, Multiplier::Quotient)),
                ),
                None => true,
            },
    {
        proof {
            self.lemma_wf_is_matrix();
        }
        match self.inv() {
            Some(inverse) => {
                let norm = self.norm();
                let inverse_norm = inverse.norm();
                Some(norm.mul(inverse_norm))
            },
            None => None,
        }
    }

    /// The triangular matrix as a full matrix, zeros included.
    pub fn from(tri_mat: TriFullMat<T>) -> (mat: Self)
        requires
            tri_mat.wf(),
            tri_mat.size() > 0,
        ensures
            mat.wf(),
            mat@ == tri_mat@,
    {
        proof {
            tri_mat.lemma_view();
        }
        let n = tri_mat.col_count();
        let v = unpacked(tri_mat.as_packed(), tri_mat.triangle(), n);
        proof {
            lemma_whole_rows(v.len() as int, n as int, n as int);
        }
        Self::from_vec(n, v)
    }
}

} // verus!
