//! Factorization of a square matrix into a unit lower-triangular and an
//! upper-triangular factor, with and without row exchanges, and the solution
//! of linear systems with the factors.

use crate::algebra::{
    backward_solution, forward_solution, is_permutation, is_square, lemma_forward_solution_prefix,
    permuted,
};
use crate::base_float::BaseFloat;
use crate::helpers::copied;
use crate::index2d::lemma_whole_rows;
use crate::matrix::elimination::{
    is_plainly_singular, is_singular, lemma_plain_state_shape, lower_factor, lu_solution,
    plain_breaks_at, plain_state_after, state_after, upper_factor, Multiplier,
};
use crate::matrix::full_mat::FullMat;
use crate::matrix::triangle_mat::{TriFullMat, TriangleMatType};
use crate::tensor::matrix::lt_inner_vec::MatrixLTVec;
use crate::tensor::matrix::permutation::MatrixPermutationVec;
use crate::tensor::matrix::square_inner_vec::MatrixSquareFullVec;
use crate::tensor::matrix::ut_inner_vec::MatrixUTVec;
use crate::tensor::vector::VectorInnerVec;
use vstd::prelude::*;

verus! {

/// Matrices that can be factored as `A = L * U` or, with row exchanges, as
/// `P * A = L * U`.
pub trait LUFactorization {
    type LowerTriangular;

    type UpperTriangular;

    type Permutation;

    /// The matrix is one that the factorization is defined for.
    spec fn factorable(&self) -> bool;

    /// `factors` is what the factorization without row exchanges gives:
    /// nothing if it meets a zero pivot, else the two factors.
    spec fn is_lu(&self, factors: Option<(Self::LowerTriangular, Self::UpperTriangular)>) -> bool;

    /// `factors` is what the factorization with partial pivoting gives:
    /// nothing if it meets a zero pivot, else the permutation and the two
    /// factors.
    spec fn is_pa_lu(
        &self,
        factors: Option<(Self::Permutation, Self::LowerTriangular, Self::UpperTriangular)>,
    ) -> bool;

    /// Factors the matrix as `A = L * U`.
    fn lu(&self) -> (factors: Option<(Self::LowerTriangular, Self::UpperTriangular)>)
        requires
            self.factorable(),
        ensures
            self.is_lu(factors),
    ;

    /// Factors the matrix as `P * A = L * U` with partial pivoting.
    fn pa_lu(&self) -> (factors: Option<
        (Self::Permutation, Self::LowerTriangular, Self::UpperTriangular),
    >)
        requires
            self.factorable(),
        ensures
            self.is_pa_lu(factors),
    ;
}

/// The entries of a square matrix in a matrix of unrestricted shape with
/// storage of its own.
fn working_copy<T: BaseFloat>(m: &MatrixSquareFullVec<T>) -> (copy: FullMat<T>)
    requires
        m.wf(),
        m.dims().row > 0,
    ensures
        copy.wf(),
        copy@ == m@,
{
    let n = m.row_size();
    let v = copied(m.as_entries());
    proof {
        m.lemma_view();
        lemma_whole_rows(v.len() as int, n as int, n as int);
    }
    FullMat::from_vec(n, v)
}

/// The lower-triangular matrix with the entries of `l`.
fn lower_of<T: BaseFloat>(l: TriFullMat<T>) -> (lt: MatrixLTVec<T>)
    requires
        l.wf(),
        l.kind() == TriangleMatType::Lower,
        0 <= l.size() <= usize::MAX,
    ensures
        lt.wf(),
        lt.dims().row == l.size(),
        lt@ == l@,
{
    proof {
        l.lemma_view();
    }
    let n = l.row_count();
    let lt = MatrixLTVec::new_with_vec(n, l.into_packed());
    proof {
        lt.lemma_view();
    }
    lt
}

/// The upper-triangular matrix with the entries of `u`.
fn upper_of<T: BaseFloat>(u: TriFullMat<T>) -> (ut: MatrixUTVec<T>)
    requires
        u.wf(),
        u.kind() == TriangleMatType::Upper,
        0 <= u.size() <= usize::MAX,
    ensures
        ut.wf(),
        ut.dims().row == u.size(),
        ut@ == u@,
{
    proof {
        u.lemma_view();
    }
    let n = u.row_count();
    let ut = MatrixUTVec::new_with_vec(n, u.into_packed());
    proof {
        ut.lemma_view();
    }
    ut
}

impl<T: BaseFloat> LUFactorization for MatrixSquareFullVec<T> {
    type LowerTriangular = MatrixLTVec<T>;

    type UpperTriangular = MatrixUTVec<T>;

    type Permutation = MatrixPermutationVec<T>;

    /// The matrix is valid and has more than one row.
    open spec fn factorable(&self) -> bool {
        self.wf() && self.dims().row > 1
    }

    open spec fn is_lu(&self, factors: Option<(MatrixLTVec<T>, MatrixUTVec<T>)>) -> bool {
        &&& factors.is_none() <==> is_plainly_singular(self@, Multiplier::Reciprocal)
        &&& match factors {
            Some((l, u)) => {
                let m = plain_state_after(self@, self.dims().row as int, Multiplier::Reciprocal);
                &&& l.wf()
                &&& l.dims() == self.dims()
                &&& l@ == lower_factor(m)
                &&& u.wf()
                &&& u.dims() == self.dims()
                &&& u@ == upper_factor(m)
            },
            None => true,
        }
    }

    open spec fn is_pa_lu(
        &self,
        factors: Option<(MatrixPermutationVec<T>, MatrixLTVec<T>, MatrixUTVec<T>)>,
    ) -> bool {
        &&& factors.is_none() <==> is_singular(self@, Multiplier::Reciprocal)
        &&& match factors {
            Some((p, l, u)) => {
                let s = state_after(self@, self.dims().row as int, Multiplier::Reciprocal);
                &&& p.wf()
                &&& p.perm() == s.perm
                &&& p.perm().len() == self.dims().row
                &&& is_permutation(p.perm())
                &&& l.wf()
                &&& l.dims() == self.dims()
                &&& l@ == lower_factor(s.rows)
                &&& u.wf()
                &&& u.dims() == self.dims()
                &&& u@ == upper_factor(s.rows)
            },
            None => true,
        }
    }

    fn lu(&self) -> (factors: Option<(MatrixLTVec<T>, MatrixUTVec<T>)>) {
        proof {
            self.lemma_view();
        }
        let mut mat = working_copy(self);
        proof {
            mat.lemma_wf_is_matrix();
        }
        let n = mat.col_count();
        let ghost a = self@;
        let mut j: usize = 0;
        while j < n
            invariant
                0 <= j <= n,
                a == self@,
                is_square(a),
                n == a.len(),
                n == self.dims().row,
                mat.wf(),
                mat@ == plain_state_after(a, j as int, Multiplier::Reciprocal),
                forall|q: int|
                    0 <= q < j ==> !#[trigger] plain_breaks_at(a, q, Multiplier::Reciprocal),
            decreases n - j,
        {
            proof {
                lemma_plain_state_shape(a, j as int, Multiplier::Reciprocal);
            }
            let pivot = mat.get((j, j));
            if pivot.eq(T::zero()) {
                proof {
                    assert(plain_breaks_at(a, j as int, Multiplier::Reciprocal));
                }
                return None;
            }
            mat.eliminate_column(j, Multiplier::Reciprocal);
            j += 1;
        }
        proof {
            lemma_plain_state_shape(a, n as int, Multiplier::Reciprocal);
        }
        let l = lower_of(mat.factor(TriangleMatType::Lower));
        let u = upper_of(mat.factor(TriangleMatType::Upper));
        proof {
            l.lemma_view();
            u.lemma_view();
            self.lemma_view();
        }
        Some((l, u))
    }

    fn pa_lu(&self) -> (factors: Option<
        (MatrixPermutationVec<T>, MatrixLTVec<T>, MatrixUTVec<T>),
    >) {
        proof {
            self.lemma_view();
        }
        let mat = working_copy(self);
        proof {
            mat.lemma_wf_is_matrix();
        }
        match mat.factorize(Multiplier::Reciprocal) {
            Some((l, u, p)) => {
                let l = lower_of(l);
                let u = upper_of(u);
                proof {
                    l.lemma_view();
                    u.lemma_view();
                    self.lemma_view();
                }
                Some((MatrixPermutationVec::new_from_vec(p), l, u))
            },
            None => None,
        }
    }
}

impl<T: BaseFloat> MatrixSquareFullVec<T> {
    /// Solves `self * x = b` with the factorization without row exchanges.
    /// There is no result if the factorization meets a zero pivot.
    pub fn lu_solve(&self, b: &VectorInnerVec<T>) -> (x: Option<VectorInnerVec<T>>)
        requires
            self.wf(),
            self.dims().row > 1,
            self.dims().row == b@.len(),
        ensures
            x.is_none() <==> is_plainly_singular(self@, Multiplier::Reciprocal),
            match x {
                Some(x) => {
                    let m = plain_state_after(
                        self@,
                        self.dims().row as int,
                        Multiplier::Reciprocal,
                    );
                    x@ == backward_solution(
                        upper_factor(m),
                        forward_solution(lower_factor(m), b@, b@.len() as int),
                        0,
                    )
                },
                None => true,
            },
    {
        match self.lu() {
            Some((lt, ut)) => {
                proof {
                    lemma_forward_solution_prefix(lt@, b@, 0, b@.len() as int);
                }
                let x1 = lt.back_substitution(b);
                Some(ut.back_substitution(&x1))
            },
            None => None,
        }
    }

    /// Solves `self * x = b` with the factorization with partial pivoting.
    /// There is no result if the matrix is singular.
    pub fn pa_lu_solve(&self, b: &VectorInnerVec<T>) -> (x: Option<VectorInnerVec<T>>)
        requires
            self.wf(),
            self.dims().row > 1,
            self.dims().row == b@.len(),
        ensures
            x.is_none() <==> is_singular(self@, Multiplier::Reciprocal),
            match x {
                Some(x) => x@ == lu_solution(self@, b@, Multiplier::Reciprocal),
                None => true,
            },
    {
        match self.pa_lu() {
            Some((p, lt, ut)) => {
                proof {
                    self.lemma_view();
                    lemma_forward_solution_prefix(
                        lt@,
                        permuted(p.perm(), b@),
                        0,
                        b@.len() as int,
                    );
                }
                let pb = p.mul_vector(b);
                let x1 = lt.back_substitution(&pb);
                Some(ut.back_substitution(&x1))
            },
            None => None,
        }
    }
}

} // verus!
