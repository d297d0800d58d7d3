//! Matrices that store all their entries row by row in one vector.

use crate::algebra::{from_row_major, mat_mul_sized, rows_swapped, transposed_sized, with_entry};
use crate::base_float::BaseFloat;
use crate::helpers::{add_entries, add_entries_assign, sub_entries, sub_entries_assign};
use crate::index2d::Index2D;
use crate::row_major::{
    entry, exchange_rows, holds_all, product_entries, set_entry, transposed_entries,
};
use crate::tensor::matrix::Matrix;
use crate::tensor::matrix::base_traits::{MatrixAddSubSelf, MatrixMulSelf};
use crate::tensor::matrix::square_inner_vec::MatrixSquareFullVec;
use vstd::prelude::*;

verus! {

/// Storage of all `M * N` entries of a matrix, row by row.
#[derive(Clone, PartialEq, Eq)]
pub struct FullVec<T>(Vec<T>);

/// A matrix that stores all its entries.
pub type MatrixFullVec<T> = Matrix<T, FullVec<T>>;

/// Another name of [`MatrixFullVec`].
pub type MatrixInnerFullVec<T> = MatrixFullVec<T>;

impl<T> View for Matrix<T, FullVec<T>> {
    type V = Seq<Seq<T>>;

    /// The rows of the matrix, top to bottom.
    closed spec fn view(&self) -> Seq<Seq<T>> {
        from_row_major(self.inner.0@, self.shape.row as int, self.shape.col as int)
    }
}

impl<T> MatrixFullVec<T> {
    /// The storage holds as many entries as the shape has positions.
    pub closed spec fn wf(&self) -> bool {
        self.shape.row * self.shape.col == self.inner.0.len()
    }

    /// The entries in the order of the storage.
    pub closed spec fn entries(&self) -> Seq<T> {
        self.inner.0@
    }

    /// The view is what the storage holds, cut into rows.
    pub proof fn lemma_view(&self)
        requires
            self.wf(),
        ensures
            self@ == from_row_major(self.entries(), self.dims().row as int, self.dims().col as int),
            self.entries().len() == self.dims().row * self.dims().col,
    {
    }
}

impl<T: BaseFloat> MatrixFullVec<T> {
    /// Whether the storage holds as many entries as the shape has positions.
    pub fn is_valid(&self) -> (valid: bool)
        ensures
            valid == self.wf(),
    {
        holds_all(self.inner.0.len(), self.shape.row, self.shape.col)
    }

    /// The matrix of the given shape whose entries are `v`, row by row.
    pub fn new_with_vec(shape: Index2D, v: Vec<T>) -> (mat: Self)
        requires
            shape.row * shape.col == v.len(),
        ensures
            mat.wf(),
            mat.dims() == shape,
            mat.entries() == v@,
    {
        Self::new(shape, FullVec(v))
    }

    /// The entry at `index`, given as `(row, column)`.
    pub fn get(&self, index: (usize, usize)) -> (value: T)
        requires
            self.wf(),
            index.0 < self.dims().row,
            index.1 < self.dims().col,
        ensures
            value == self@[index.0 as int][index.1 as int],
    {
        entry(&self.inner.0, self.shape.row, self.shape.col, index.0, index.1)
    }

    /// Replaces the entry at `index`, given as `(row, column)`.
    pub fn set(&mut self, index: (usize, usize), value: T)
        requires
            old(self).wf(),
            index.0 < old(self).dims().row,
            index.1 < old(self).dims().col,
        ensures
            final(self).wf(),
            final(self).dims() == old(self).dims(),
            final(self)@ == with_entry(old(self)@, index.0 as int, index.1 as int, value),
    {
        set_entry(&mut self.inner.0, self.shape.row, self.shape.col, index.0, index.1, value);
    }

    /// The transpose of the matrix.
    pub fn transpose(&self) -> (t: Self)
        requires
            self.wf(),
        ensures
            t.wf(),
            t.dims().row == self.dims().col,
            t.dims().col == self.dims().row,
            t@ == transposed_sized(self@, self.dims().row as int, self.dims().col as int),
    {
        let v = transposed_entries(&self.inner.0, self.shape.row, self.shape.col);
        Self::new_with_vec(self.shape.transpose(), v)
    }

    /// The square matrix as a matrix of unrestricted shape.
    pub fn from_square(sq_m: MatrixSquareFullVec<T>) -> (m: Self)
        requires
            sq_m.wf(),
        ensures
            m.wf(),
            m.dims() == sq_m.dims(),
            m@ == sq_m@,
    {
        proof {
            sq_m.lemma_view();
        }
        let shape = sq_m.shape();
        MatrixFullVec::new_with_vec(shape, sq_m.get_inner_vec())
    }

    /// Exchanges the rows `a` and `b`.
    pub fn exchange_row(&mut self, a: usize, b: usize)
        requires
            old(self).wf(),
            a != b ==> a < old(self).dims().row && b < old(self).dims().row,
        ensures
            final(self).wf(),
            final(self).dims() == old(self).dims(),
            final(self)@ == if a == b {
                old(self)@
            } else {
                rows_swapped(old(self)@, a as int, b as int)
            },
    {
        if a == b {
            return ;
        }
        exchange_rows(&mut self.inner.0, self.shape.row, self.shape.col, a, b);
    }
}

impl<T: BaseFloat> MatrixAddSubSelf<T> for Matrix<T, FullVec<T>> {
    open spec fn stored(&self) -> Seq<T> {
        self.entries()
    }

    open spec fn valid(&self) -> bool {
        self.wf()
    }

    open spec fn same_shape(&self, rhs: &Self) -> bool {
        self.dims() == rhs.dims()
    }

    fn add(&self, rhs: &Self) -> (sum: Self) {
        Self::new_with_vec(self.shape, add_entries(&self.inner.0, &rhs.inner.0))
    }

    fn add_assign(&mut self, rhs: &Self) {
        add_entries_assign(&mut self.inner.0, &rhs.inner.0);
    }

    fn sub(&self, rhs: &Self) -> (difference: Self) {
        Self::new_with_vec(self.shape, sub_entries(&self.inner.0, &rhs.inner.0))
    }

    fn sub_assign(&mut self, rhs: &Self) {
        sub_entries_assign(&mut self.inner.0, &rhs.inner.0);
    }
}

impl<T: BaseFloat> MatrixMulSelf<T> for Matrix<T, FullVec<T>> {
    /// Both matrices are valid, and `self` has as many columns as `rhs` has
    /// rows.
    open spec fn multipliable(&self, rhs: &Self) -> bool {
        &&& self.wf()
        &&& rhs.wf()
        &&& self.dims().col == rhs.dims().row
    }

    open spec fn is_product(&self, lhs: &Self, rhs: &Self) -> bool {
        &&& self.wf()
        &&& self.dims().row == lhs.dims().row
        &&& self.dims().col == rhs.dims().col
        &&& self@ == mat_mul_sized(
            lhs@,
            rhs@,
            lhs.dims().row as int,
            lhs.dims().col as int,
            rhs.dims().col as int,
        )
    }

    fn mul(&self, rhs: &Self) -> (product: Self) {
        let v = product_entries(
            &self.inner.0,
            &rhs.inner.0,
            self.shape.row,
            self.shape.col,
            rhs.shape.col,
        );
        Self::new_with_vec(Index2D { row: self.shape.row, col: rhs.shape.col }, v)
    }
}

} // verus!
