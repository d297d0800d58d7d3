//! Upper triangular matrices that store only their triangle, row by row.

use crate::algebra::{backward_solution, transposed_sized, with_entry};
use crate::base_float::BaseFloat;
use crate::helpers::{add_entries, add_entries_assign, sub_entries, sub_entries_assign};
use crate::index2d::{lemma_triangle_number, packed_len, Index2D};
use crate::matrix::triangle_mat::TriangleMatType;
use crate::packed::{
    extended_with_diagonal, from_packed, holds_triangle, packed_entry, packed_extended,
    packed_product, packed_solve, packed_transposed, set_packed_entry, triangular_product,
};
use crate::tensor::matrix::Matrix;
use crate::tensor::matrix::base_traits::{MatrixAddSubSelf, MatrixMulSelf, Square};
use crate::tensor::matrix::lt_inner_vec::MatrixLTVec;
use crate::tensor::vector::{Vector, VectorInnerVec};
use vstd::prelude::*;

verus! {

/// Storage of the `N * (N + 1) / 2` entries of the upper triangle of an
/// `N * N` matrix, row by row.
#[derive(Clone, PartialEq, Eq)]
pub struct UpperTriangularVec<T> {
    s: Vec<T>,
}

impl<T: BaseFloat> UpperTriangularVec<T> {
    /// The entries in the order of the storage.
    pub closed spec fn entries(&self) -> Seq<T> {
        self.s@
    }

    /// The storage that holds `v`.
    pub fn from_vec(v: Vec<T>) -> (storage: Self)
        ensures
            storage.entries() == v@,
    {
        Self { s: v }
    }
}

/// A matrix that stores its upper triangle.
pub type MatrixUTVec<T> = Matrix<T, UpperTriangularVec<T>>;

impl<T: BaseFloat> View for Matrix<T, UpperTriangularVec<T>> {
    type V = Seq<Seq<T>>;

    /// The rows of the matrix, top to bottom, zeros included.
    closed spec fn view(&self) -> Seq<Seq<T>> {
        from_packed(self.inner.s@, TriangleMatType::Upper, self.shape.row as int)
    }
}

impl<T: BaseFloat> MatrixUTVec<T> {
    /// The matrix is square and its storage holds exactly the triangle.
    pub closed spec fn wf(&self) -> bool {
        &&& self.shape.row == self.shape.col
        &&& self.inner.s.len() == packed_len(self.shape.row as int)
    }

    /// The entries in the order of the storage.
    pub closed spec fn entries(&self) -> Seq<T> {
        self.inner.s@
    }

    /// The view is the triangle that the storage holds, with zeros outside
    /// of it.
    pub proof fn lemma_view(&self)
        requires
            self.wf(),
        ensures
            self@ == from_packed(self.entries(), TriangleMatType::Upper, self.dims().row as int),
            self.entries().len() == packed_len(self.dims().row as int),
            self.dims().row == self.dims().col,
            self.storage().entries() == self.entries(),
    {
    }

    /// Whether the matrix is square and its storage holds exactly the
    /// triangle.
    pub fn is_valid(&self) -> (valid: bool)
        ensures
            valid == self.wf(),
    {
        self.shape.row == self.shape.col && holds_triangle(self.inner.s.len(), self.shape.row)
    }

    /// The matrix of size `size` whose triangle is `v`, row by row.
    pub fn new_with_vec(size: usize, v: Vec<T>) -> (mat: Self)
        requires
            packed_len(size as int) == v.len(),
        ensures
            mat.wf(),
            mat.dims().row == size,
            mat.dims().col == size,
            mat.entries() == v@,
    {
        Self::new(Index2D { row: size, col: size }, UpperTriangularVec::from_vec(v))
    }

    /// The entry at `index`, given as `(row, column)`: the stored entry inside
    /// the triangle, zero outside of it.
    pub fn get(&self, index: (usize, usize)) -> (value: T)
        requires
            self.wf(),
            index.0 < self.dims().row,
            index.1 < self.dims().col,
        ensures
            value == self@[index.0 as int][index.1 as int],
    {
        packed_entry(&self.inner.s, TriangleMatType::Upper, self.shape.row, index.0, index.1)
    }

    /// Replaces the entry at `index`, given as `(row, column)`, which has to
    /// lie inside the triangle.
    pub fn set(&mut self, index: (usize, usize), value: T)
        requires
            old(self).wf(),
            index.0 < old(self).dims().row,
            index.1 < old(self).dims().col,
            index.0 <= index.1,
        ensures
            final(self).wf(),
            final(self).dims() == old(self).dims(),
            final(self)@ == with_entry(old(self)@, index.0 as int, index.1 as int, value),
    {
        set_packed_entry(
            &mut self.inner.s,
            TriangleMatType::Upper,
            self.shape.row,
            index.0,
            index.1,
            value,
        );
    }

    /// The transpose of the matrix, which is lower triangular.
    pub fn transpose(&self) -> (t: MatrixLTVec<T>)
        requires
            self.wf(),
        ensures
            t.wf(),
            t.dims() == self.dims(),
            t@ == transposed_sized(self@, self.dims().row as int, self.dims().row as int),
    {
        let v = packed_transposed(&self.inner.s, TriangleMatType::Upper, self.shape.row);
        let t = MatrixLTVec::new_with_vec(self.shape.row, v);
        proof {
            t.lemma_view();
        }
        t
    }

    /// Extends the `N * N` matrix to `(N + 1) * (N + 1)` by a new diagonal of
    /// `N + 1` entries: the entries of the matrix move one place to the right.
    pub fn extend_with_diagonal(&self, diagonal: &Vec<T>) -> (extended: Self)
        requires
            self.wf(),
            diagonal.len() == self.dims().row + 1,
            packed_len(self.dims().row + 1) <= usize::MAX,
        ensures
            extended.wf(),
            extended.dims().row == self.dims().row + 1,
            extended@ == extended_with_diagonal(
                self@,
                diagonal@,
                TriangleMatType::Upper,
                self.dims().row as int,
            ),
    {
        proof {
            lemma_triangle_number(self.shape.row as int);
        }
        let size = self.size() + 1;
        let v = packed_extended(&self.inner.s, TriangleMatType::Upper, self.shape.row, diagonal);
        Self::new_with_vec(size, v)
    }

    /// Solves `self * x = b` for `x` by backward substitution. Each unknown
    /// is divided by the diagonal entry of its row.
    pub fn back_substitution(&self, b: &VectorInnerVec<T>) -> (x: VectorInnerVec<T>)
        requires
            self.wf(),
            self.dims().row == b@.len(),
        ensures
            x@ == backward_solution(self@, b@, 0),
    {
        proof {
            b.lemma_view();
        }
        let x = packed_solve(&self.inner.s, TriangleMatType::Upper, self.shape.row, b.as_vec());
        let x = Vector::new(x);
        proof {
            x.lemma_view();
        }
        x
    }

    /// The stored entries, row by row.
    pub fn as_packed(&self) -> (packed: &Vec<T>)
        ensures
            packed@ == self.entries(),
    {
        &self.inner.s
    }

    /// The number of entries of the triangle.
    fn elements_num(&self) -> (count: usize)
        requires
            self.wf(),
        ensures
            count == packed_len(self.dims().row as int),
    {
        self.inner.s.len()
    }
}

impl<T: BaseFloat> Square for Matrix<T, UpperTriangularVec<T>> {
    open spec fn order(&self) -> nat {
        self.dims().row as nat
    }

    fn size(&self) -> (size: usize) {
        self.shape.row
    }
}

impl<T: BaseFloat> MatrixAddSubSelf<T> for Matrix<T, UpperTriangularVec<T>> {
    open spec fn stored(&self) -> Seq<T> {
        self.entries()
    }

    open spec fn valid(&self) -> bool {
        self.wf()
    }

    open spec fn same_shape(&self, rhs: &Self) -> bool {
        self.dims() == rhs.dims()
    }

    fn add(&self, rhs: &Self) -> (sum: Self) {
        Self::new_with_vec(self.shape.row, add_entries(&self.inner.s, &rhs.inner.s))
    }

    fn add_assign(&mut self, rhs: &Self) {
        add_entries_assign(&mut self.inner.s, &rhs.inner.s);
    }

    fn sub(&self, rhs: &Self) -> (difference: Self) {
        Self::new_with_vec(self.shape.row, sub_entries(&self.inner.s, &rhs.inner.s))
    }

    fn sub_assign(&mut self, rhs: &Self) {
        sub_entries_assign(&mut self.inner.s, &rhs.inner.s);
    }
}

impl<T: BaseFloat> MatrixMulSelf<T> for Matrix<T, UpperTriangularVec<T>> {
    /// Both matrices are valid and have the same size.
    open spec fn multipliable(&self, rhs: &Self) -> bool {
        &&& self.wf()
        &&& rhs.wf()
        &&& self.dims() == rhs.dims()
    }

    open spec fn is_product(&self, lhs: &Self, rhs: &Self) -> bool {
        &&& self.wf()
        &&& self.dims() == lhs.dims()
        &&& self@ == triangular_product(
            lhs@,
            rhs@,
            TriangleMatType::Upper,
            lhs.dims().row as int,
        )
    }

    fn mul(&self, rhs: &Self) -> (product: Self) {
        let v = packed_product(
            &self.inner.s,
            &rhs.inner.s,
            TriangleMatType::Upper,
            self.shape.row,
        );
        Self::new_with_vec(self.shape.row, v)
    }
}

} // verus!
