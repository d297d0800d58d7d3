//! Square matrices that store all their entries row by row in one vector.

use crate::algebra::{
    dot_range, from_row_major, mat_mul_sized, mat_vec, rows_swapped, transposed_sized, with_entry,
};
use crate::base_float::BaseFloat;
use crate::helpers::{add_entries, add_entries_assign, sub_entries, sub_entries_assign};
use crate::index2d::Index2D;
use crate::matrix::triangle_mat::TriangleMatType;
use crate::packed::unpacked;
use crate::row_major::{
    entry, exchange_rows, holds_all, product_entries, set_entry, transposed_entries,
};
use crate::tensor::matrix::Matrix;
use crate::tensor::matrix::base_traits::{MatrixAddSubSelf, MatrixMulSelf, Square};
use crate::tensor::matrix::lt_inner_vec::MatrixLTVec;
use crate::tensor::matrix::ut_inner_vec::MatrixUTVec;
use crate::tensor::vector::{Vector, VectorInnerVec};
use vstd::prelude::*;

verus! {

/// Storage of all `N * N` entries of a square matrix, row by row.
#[derive(Clone, PartialEq, Eq)]
pub struct SquareFullVec<T>(Vec<T>);

/// A square matrix that stores all its entries.
pub type MatrixSquareFullVec<T> = Matrix<T, SquareFullVec<T>>;

impl<T> View for Matrix<T, SquareFullVec<T>> {
    type V = Seq<Seq<T>>;

    /// The rows of the matrix, top to bottom.
    closed spec fn view(&self) -> Seq<Seq<T>> {
        from_row_major(self.inner.0@, self.shape.row as int, self.shape.col as int)
    }
}

impl<T> MatrixSquareFullVec<T> {
    /// The matrix is square and its storage holds as many entries as the
    /// shape has positions.
    pub closed spec fn wf(&self) -> bool {
        &&& self.shape.row == self.shape.col
        &&& self.shape.row * self.shape.col == self.inner.0.len()
    }

    /// The entries in the order of the storage.
    pub closed spec fn entries(&self) -> Seq<T> {
        self.inner.0@
    }

    /// The view is what the storage holds, cut into rows.
    pub proof fn lemma_view(&self)
        requires
            self.wf(),
        ensures
            self@ == from_row_major(self.entries(), self.dims().row as int, self.dims().row as int),
            self.entries().len() == self.dims().row * self.dims().row,
            self.dims().row == self.dims().col,
    {
    }
}

impl<T: BaseFloat> MatrixSquareFullVec<T> {
    /// Whether the matrix is square and its storage holds as many entries as
    /// the shape has positions.
    pub fn is_valid(&self) -> (valid: bool)
        ensures
            valid == self.wf(),
    {
        self.shape.row == self.shape.col && holds_all(
            self.inner.0.len(),
            self.shape.row,
            self.shape.col,
        )
    }

    /// The matrix of size `size` whose entries are `v`, row by row.
    pub fn new_with_vec(size: usize, v: Vec<T>) -> (mat: Self)
        requires
            size * size == v.len(),
        ensures
            mat.wf(),
            mat.dims().row == size,
            mat.dims().col == size,
            mat.entries() == v@,
    {
        Self::new(Index2D { row: size, col: size }, SquareFullVec(v))
    }

    /// The entry at `index`, given as `(row, column)`.
    pub fn get(&self, index: (usize, usize)) -> (value: T)
        requires
            self.wf(),
            index.0 < self.dims().row,
            index.1 < self.dims().col,
        ensures
            value == self@[index.0 as int][index.1 as int],
    {
        entry(&self.inner.0, self.shape.row, self.shape.col, index.0, index.1)
    }

    /// Replaces the entry at `index`, given as `(row, column)`.
    pub fn set(&mut self, index: (usize, usize), value: T)
        requires
            old(self).wf(),
            index.0 < old(self).dims().row,
            index.1 < old(self).dims().col,
        ensures
            final(self).wf(),
            final(self).dims() == old(self).dims(),
            final(self)@ == with_entry(old(self)@, index.0 as int, index.1 as int, value),
    {
        set_entry(&mut self.inner.0, self.shape.row, self.shape.col, index.0, index.1, value);
    }

    /// The transpose of the matrix.
    pub fn transpose(&self) -> (t: Self)
        requires
            self.wf(),
        ensures
            t.wf(),
            t.dims() == self.dims(),
            t@ == transposed_sized(self@, self.dims().row as int, self.dims().row as int),
    {
        let v = transposed_entries(&self.inner.0, self.shape.row, self.shape.col);
        Self::new_with_vec(self.shape.row, v)
    }

    /// The product of the matrix and the vector `v`: the linear
    /// transformation of `v` that the matrix stands for.
    pub fn transform_vector(&self, v: &VectorInnerVec<T>) -> (x: VectorInnerVec<T>)
        requires
            self.wf(),
            self.dims().row == v@.len(),
        ensures
            x@ == mat_vec(self@, v@),
    {
        let n = self.shape.row;
        let mut x: Vec<T> = Vec::new();
        let mut i: usize = 0;
        while i < n
            invariant
                0 <= i <= n,
                self.wf(),
                n == self.dims().row,
                n == v@.len(),
                self@.len() == n,
                x.len() == i,
                forall|r: int| 0 <= r < i ==> #[trigger] x@[r] == mat_vec(self@, v@)[r],
            decreases n - i,
        {
            let mut y = T::zero();
            let mut j: usize = 0;
            while j < n
                invariant
                    0 <= j <= n,
                    0 <= i < n,
                    self.wf(),
                    n == self.dims().row,
                    n == v@.len(),
                    y == dot_range(self@[i as int], v@, 0, j as int),
                decreases n - j,
            {
                y = y.add(self.get((i, j)).mul(v.get(j)));
                j += 1;
            }
            x.push(y);
            i += 1;
        }
        assert(x@ =~= mat_vec(self@, v@));
        let x = Vector::new(x);
        proof {
            x.lemma_view();
        }
        x
    }

    /// Exchanges the rows `a` and `b`.
    pub fn exchange_row(&mut self, a: usize, b: usize)
        requires
            old(self).wf(),
            a != b ==> a < old(self).dims().row && b < old(self).dims().row,
        ensures
            final(self).wf(),
            final(self).dims() == old(self).dims(),
            final(self)@ == if a == b {
                old(self)@
            } else {
                rows_swapped(old(self)@, a as int, b as int)
            },
    {
        if a == b {
            return ;
        }
        exchange_rows(&mut self.inner.0, self.shape.row, self.shape.col, a, b);
    }

    /// The entries, row by row.
    pub fn as_entries(&self) -> (v: &Vec<T>)
        ensures
            v@ == self.entries(),
    {
        &self.inner.0
    }

    /// The entries, row by row, given up by the matrix.
    pub fn get_inner_vec(self) -> (v: Vec<T>)
        ensures
            v@ == self.entries(),
    {
        self.inner.0
    }

    /// The lower-triangular matrix as a full square matrix, zeros included.
    pub fn from_lower(lt: MatrixLTVec<T>) -> (m: Self)
        requires
            lt.wf(),
        ensures
            m.wf(),
            m.dims() == lt.dims(),
            m@ == lt@,
    {
        proof {
            lt.lemma_view();
        }
        let n = lt.size();
        let v = unpacked(lt.as_packed(), TriangleMatType::Lower, n);
        Self::new_with_vec(n, v)
    }

    /// The upper-triangular matrix as a full square matrix, zeros included.
    pub fn from_upper(ut: MatrixUTVec<T>) -> (m: Self)
        requires
            ut.wf(),
        ensures
            m.wf(),
            m.dims() == ut.dims(),
            m@ == ut@,
    {
        proof {
            ut.lemma_view();
        }
        let n = ut.size();
        let v = unpacked(ut.as_packed(), TriangleMatType::Upper, n);
        Self::new_with_vec(n, v)
    }
}

impl<T> Square for Matrix<T, SquareFullVec<T>> {
    open spec fn order(&self) -> nat {
        self.dims().row as nat
    }

    fn size(&self) -> (size: usize) {
        self.row_size()
    }
}

impl<T: BaseFloat> MatrixAddSubSelf<T> for Matrix<T, SquareFullVec<T>> {
    open spec fn stored(&self) -> Seq<T> {
        self.entries()
    }

    open spec fn valid(&self) -> bool {
        self.wf()
    }

    open spec fn same_shape(&self, rhs: &Self) -> bool {
        self.dims() == rhs.dims()
    }

    fn add(&self, rhs: &Self) -> (sum: Self) {
        Self::new_with_vec(self.shape.row, add_entries(&self.inner.0, &rhs.inner.0))
    }

    fn add_assign(&mut self, rhs: &Self) {
        add_entries_assign(&mut self.inner.0, &rhs.inner.0);
    }

    fn sub(&self, rhs: &Self) -> (difference: Self) {
        Self::new_with_vec(self.shape.row, sub_entries(&self.inner.0, &rhs.inner.0))
    }

    fn sub_assign(&mut self, rhs: &Self) {
        sub_entries_assign(&mut self.inner.0, &rhs.inner.0);
    }
}

impl<T: BaseFloat> MatrixMulSelf<T> for Matrix<T, SquareFullVec<T>> {
    /// Both matrices are valid and have the same size.
    open spec fn multipliable(&self, rhs: &Self) -> bool {
        &&& self.wf()
        &&& rhs.wf()
        &&& self.dims() == rhs.dims()
    }

    open spec fn is_product(&self, lhs: &Self, rhs: &Self) -> bool {
        &&& self.wf()
        &&& self.dims() == lhs.dims()
        &&& self@ == mat_mul_sized(
            lhs@,
            rhs@,
            lhs.dims().row as int,
            lhs.dims().row as int,
            lhs.dims().row as int,
        )
    }

    fn mul(&self, rhs: &Self) -> (product: Self) {
        let n = self.shape.row;
        let v = product_entries(&self.inner.0, &rhs.inner.0, n, n, n);
        Self::new_with_vec(n, v)
    }
}

} // verus!
