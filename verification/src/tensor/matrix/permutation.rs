//! Permutation matrices stored as an index vector.
//!
//! A permutation matrix is an `N * N` matrix of zeros with a single one in
//! every row and column. Row `i` has its one in the column that the index
//! vector names at `i`; multiplied from the left, it moves row `p[i]` of the
//! other factor to row `i`.

use core::marker::PhantomData;
use crate::algebra::{
    composed, exchanged, identity_permutation, indexes_into, permuted, rows_permuted,
};
use crate::base_float::BaseFloat;
use crate::helpers::copied;
use crate::index2d::{full_offset, lemma_full_offset_in_range, Index2D};
use crate::tensor::matrix::Matrix;
use crate::tensor::matrix::base_traits::{MatrixMulSelf, Square};
use crate::tensor::matrix::square_inner_vec::MatrixSquareFullVec;
use crate::tensor::vector::{Vector, VectorInnerVec};
use vstd::prelude::*;

verus! {

/// Storage of a permutation matrix: for each row the column of its one.
#[derive(PartialEq, Eq)]
pub struct PermutationVec<T> {
    permutation: Vec<usize>,
    phantom: PhantomData<T>,
}

impl<T> PermutationVec<T> {
    /// The index vector.
    pub closed spec fn indices(&self) -> Seq<usize> {
        self.permutation@
    }
}

impl<T> Clone for PermutationVec<T> {
    /// A copy of the index vector.
    fn clone(&self) -> (copy: Self)
        ensures
            copy.indices() == self.indices(),
    {
        Self { permutation: copied(&self.permutation), phantom: PhantomData }
    }
}

/// A permutation matrix.
pub type MatrixPermutationVec<T> = Matrix<T, PermutationVec<T>>;

impl<T: BaseFloat> MatrixPermutationVec<T> {
    /// The index vector.
    pub closed spec fn perm(&self) -> Seq<usize> {
        self.inner.indices()
    }

    /// The matrix is square, of the size of the index vector.
    pub closed spec fn wf(&self) -> bool {
        &&& self.shape.row == self.inner.permutation.len()
        &&& self.shape.col == self.inner.permutation.len()
    }

    /// Whether the matrix is square, of the size of the index vector.
    pub fn is_valid(&self) -> (valid: bool)
        ensures
            valid == self.wf(),
    {
        self.shape.row == self.inner.permutation.len() && self.shape.col
            == self.inner.permutation.len()
    }

    /// Whether every entry of the index vector names a row of the matrix.
    pub fn is_in_range(&self) -> (in_range: bool)
        ensures
            in_range == indexes_into(self.perm(), self.perm().len() as int),
    {
        let n = self.inner.permutation.len();
        let mut i: usize = 0;
        while i < n
            invariant
                0 <= i <= n,
                n == self.perm().len(),
                forall|k: int| 0 <= k < i ==> (#[trigger] self.perm()[k]) < n,
            decreases n - i,
        {
            if self.inner.permutation[i] >= n {
                return false;
            }
            i += 1;
        }
        true
    }

    /// The size of a valid matrix is the length of its index vector.
    pub proof fn lemma_size(&self)
        requires
            self.wf(),
        ensures
            self.dims().row == self.perm().len(),
            self.dims().col == self.perm().len(),
    {
    }

    /// The permutation matrix with the index vector `v`.
    pub fn new_from_vec(v: Vec<usize>) -> (p: Self)
        ensures
            p.wf(),
            p.perm() == v@,
    {
        let n = v.len();
        Self::new(
            Index2D { row: n, col: n },
            PermutationVec { permutation: v, phantom: PhantomData },
        )
    }

    /// The identity matrix of size `n`.
    pub fn identity(n: usize) -> (p: Self)
        ensures
            p.wf(),
            p.perm() == identity_permutation(n as int),
    {
        let mut v: Vec<usize> = Vec::new();
        let mut i: usize = 0;
        while i < n
            invariant
                0 <= i <= n,
                v.len() == i,
                forall|k: int| 0 <= k < i ==> #[trigger] v@[k] == k,
            decreases n - i,
        {
            v.push(i);
            i += 1;
        }
        assert(v@ =~= identity_permutation(n as int));
        Self::new_from_vec(v)
    }

    /// Exchanges the rows `a` and `b`.
    pub fn exchange(&mut self, a: usize, b: usize)
        requires
            old(self).wf(),
            a != b ==> a < old(self).perm().len() && b < old(self).perm().len(),
        ensures
            final(self).wf(),
            final(self).perm() == if a == b {
                old(self).perm()
            } else {
                exchanged(old(self).perm(), a as int, b as int)
            },
    {
        if a == b {
            return ;
        }
        let at_a: usize = self.inner.permutation[a];
        let at_b: usize = self.inner.permutation[b];
        self.inner.permutation.set(a, at_b);
        self.inner.permutation.set(b, at_a);
    }

    /// The entry at `index`, given as `(row, column)`: one where the index
    /// vector names the column at the row, zero elsewhere.
    pub fn get(&self, index: (usize, usize)) -> (value: T)
        requires
            self.wf(),
            index.0 < self.perm().len(),
        ensures
            value == if self.perm()[index.0 as int] == index.1 {
                T::one_value()
            } else {
                T::zero_value()
            },
    {
        if self.inner.permutation[index.0] == index.1 {
            T::one()
        } else {
            T::zero()
        }
    }

    /// The product of the permutation matrix and the square matrix `rhs`:
    /// row `i` of the product is row `p[i]` of `rhs`.
    pub fn mul_matrix(&self, rhs: &MatrixSquareFullVec<T>) -> (product: MatrixSquareFullVec<T>)
        requires
            self.wf(),
            rhs.wf(),
            self.perm().len() == rhs.dims().row,
            indexes_into(self.perm(), self.perm().len() as int),
        ensures
            product.wf(),
            product.dims() == rhs.dims(),
            product@ == rows_permuted(self.perm(), rhs@),
    {
        proof {
            rhs.lemma_view();
        }
        let n = self.shape.row;
        let mut v: Vec<T> = Vec::new();
        let mut i: usize = 0;
        while i < n
            invariant
                0 <= i <= n,
                self.wf(),
                rhs.wf(),
                n == self.perm().len(),
                n == rhs.dims().row,
                n == rhs.dims().col,
                indexes_into(self.perm(), n as int),
                v.len() == i * n,
                forall|r: int, c: int|
                    0 <= r < i && 0 <= c < n ==> v@[#[trigger] full_offset(r, c, n as int)]
                        == rhs@[self.perm()[r] as int][c],
            decreases n - i,
        {
            let source: usize = self.inner.permutation[i];
            let mut j: usize = 0;
            while j < n
                invariant
                    0 <= j <= n,
                    0 <= i < n,
                    self.wf(),
                    rhs.wf(),
                    n == self.perm().len(),
                    n == rhs.dims().row,
                    n == rhs.dims().col,
                    source == self.perm()[i as int],
                    source < n,
                    v.len() == i * n + j,
                    forall|r: int, c: int|
                        0 <= r < i && 0 <= c < n ==> v@[#[trigger] full_offset(r, c, n as int)]
                            == rhs@[self.perm()[r] as int][c],
                    forall|c: int|
                        0 <= c < j ==> v@[#[trigger] full_offset(i as int, c, n as int)]
                            == rhs@[source as int][c],
                decreases n - j,
            {
                proof {
                    assert forall|r: int, c: int| 0 <= r < i && 0 <= c < n implies
                        #[trigger] full_offset(r, c, n as int) < i * n by {
                        lemma_full_offset_in_range(r, c, i as int, n as int);
                    }
                }
                v.push(rhs.get((source, j)));
                j += 1;
            }
            proof {
                assert((i + 1) * n == i * n + n) by (nonlinear_arith);
            }
            i += 1;
        }
        let product = MatrixSquareFullVec::new_with_vec(n, v);
        proof {
            product.lemma_view();
            let expected = rows_permuted(self.perm(), rhs@);
            assert forall|r: int| 0 <= r < n implies #[trigger] product@[r] =~= expected[r] by {
                assert forall|c: int| 0 <= c < n implies product@[r][c] == expected[r][c] by {
                    assert(product@[r][c] == v@[full_offset(r, c, n as int)]);
                }
            }
            assert(product@ =~= expected);
        }
        product
    }

    /// The product of the permutation matrix and the vector `rhs`: entry `i`
    /// of the product is entry `p[i]` of `rhs`.
    pub fn mul_vector(&self, rhs: &VectorInnerVec<T>) -> (product: VectorInnerVec<T>)
        requires
            self.wf(),
            self.perm().len() == rhs@.len(),
            indexes_into(self.perm(), self.perm().len() as int),
        ensures
            product@ == permuted(self.perm(), rhs@),
    {
        let n = self.shape.row;
        let mut v: Vec<T> = Vec::new();
        let mut i: usize = 0;
        while i < n
            invariant
                0 <= i <= n,
                self.wf(),
                n == self.perm().len(),
                n == rhs@.len(),
                indexes_into(self.perm(), n as int),
                v.len() == i,
                forall|k: int| 0 <= k < i ==> #[trigger] v@[k] == rhs@[self.perm()[k] as int],
            decreases n - i,
        {
            v.push(rhs.get(self.inner.permutation[i]));
            i += 1;
        }
        assert(v@ =~= permuted(self.perm(), rhs@));
        let product = Vector::new(v);
        proof {
            product.lemma_view();
        }
        product
    }
}

impl<T> Square for Matrix<T, PermutationVec<T>> {
    open spec fn order(&self) -> nat {
        self.dims().row as nat
    }

    fn size(&self) -> (size: usize) {
        self.shape.row
    }
}

impl<T: BaseFloat> MatrixMulSelf<T> for Matrix<T, PermutationVec<T>> {
    /// Both matrices are valid and have the same size, and the entries of
    /// the first index vector are indices into the second.
    open spec fn multipliable(&self, rhs: &Self) -> bool {
        &&& self.wf()
        &&& rhs.wf()
        &&& self.perm().len() == rhs.perm().len()
        &&& indexes_into(self.perm(), rhs.perm().len() as int)
    }

    /// The index vector of the product applies that of `lhs` first and then
    /// that of `rhs`.
    open spec fn is_product(&self, lhs: &Self, rhs: &Self) -> bool {
        &&& self.wf()
        &&& self.perm() == composed(lhs.perm(), rhs.perm())
    }

    fn mul(&self, rhs: &Self) -> (product: Self) {
        let n = self.shape.row;
        let mut v: Vec<usize> = Vec::new();
        let mut i: usize = 0;
        while i < n
            invariant
                0 <= i <= n,
                self.wf(),
                rhs.wf(),
                n == self.perm().len(),
                n == rhs.perm().len(),
                indexes_into(self.perm(), n as int),
                v.len() == i,
                forall|k: int|
                    0 <= k < i ==> #[trigger] v@[k] == rhs.perm()[self.perm()[k] as int],
            decreases n - i,
        {
            v.push(rhs.inner.permutation[self.inner.permutation[i]]);
            i += 1;
        }
        assert(v@ =~= composed(self.perm(), rhs.perm()));
        Self::new_from_vec(v)
    }
}

} // verus!
