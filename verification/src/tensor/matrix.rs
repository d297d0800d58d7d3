//! A matrix as a shape wrapped around a choice of storage.

pub mod base_traits;
pub mod full_inner_vec;
pub mod lt_inner_vec;
pub mod lu_factorization;
pub mod permutation;
pub mod square_inner_vec;
pub mod ut_inner_vec;

use core::marker::PhantomData;
use crate::index2d::Index2D;
use vstd::prelude::*;

verus! {

/// A matrix of entries of type `T` held by the storage `S`.
#[derive(PartialEq, Eq)]
pub struct Matrix<T, S> {
    shape: Index2D,
    inner: S,
    phantom: PhantomData<T>,
}

impl<T, S> Matrix<T, S> {
    /// The shape: `row` rows and `col` columns.
    pub closed spec fn dims(&self) -> Index2D {
        self.shape
    }

    /// The storage.
    pub closed spec fn storage(&self) -> S {
        self.inner
    }

    /// The matrix of the given shape that `inner` holds.
    pub fn new(shape: Index2D, inner: S) -> (mat: Self)
        ensures
            mat.dims() == shape,
            mat.storage() == inner,
    {
        Self { shape, inner, phantom: PhantomData }
    }

    /// The number of rows.
    pub fn row_size(&self) -> (rows: usize)
        ensures
            rows == self.dims().row,
    {
        self.shape.row
    }

    /// The number of columns.
    pub fn col_size(&self) -> (cols: usize)
        ensures
            cols == self.dims().col,
    {
        self.shape.col
    }

    /// The shape: `row` rows and `col` columns.
    pub fn shape(&self) -> (shape: Index2D)
        ensures
            shape == self.dims(),
    {
        Index2D { row: self.row_size(), col: self.col_size() }
    }

    /// Whether the matrix has as many rows as columns.
    pub fn is_square(&self) -> (square: bool)
        ensures
            square == (self.dims().row == self.dims().col),
    {
        self.row_size() == self.col_size()
    }

    /// Whether `rhs`, whatever its storage, has the shape of this matrix.
    pub fn shape_eq<S1>(&self, rhs: Matrix<T, S1>) -> (same: bool)
        ensures
            same == (self.dims() == rhs.dims()),
    {
        let mine = self.shape();
        let other = rhs.shape();
        mine.row == other.row && mine.col == other.col
    }
}

impl<T, S: Clone> Clone for Matrix<T, S> {
    /// A matrix of the same shape over a clone of the storage.
    fn clone(&self) -> (copy: Self)
        ensures
            copy.dims() == self.dims(),
            cloned(self.storage(), copy.storage()),
    {
        Self { shape: self.shape, inner: self.inner.clone(), phantom: PhantomData }
    }
}

/// The position that follows `current` when the positions of a matrix with
/// `cols` columns are walked row by row.
pub open spec fn position_after(current: Index2D, cols: usize) -> Index2D {
    if current.col + 1 == cols {
        Index2D { row: (current.row + 1) as usize, col: 0 }
    } else {
        Index2D { row: current.row, col: (current.col + 1) as usize }
    }
}

/// A walk over the positions of a matrix, row by row.
pub struct MatrixRowByRowIter {
    shape: Index2D,
    index2d: Index2D,
}

impl MatrixRowByRowIter {
    /// The position lies in a row of the matrix, or the walk is over; and it
    /// lies in a column of the matrix.
    #[verifier::type_invariant]
    spec fn wf(self) -> bool {
        &&& self.index2d.row <= self.shape.row
        &&& self.index2d.col < self.shape.col || self.index2d.row == self.shape.row
    }

    /// The shape of the matrix.
    pub closed spec fn dims(&self) -> Index2D {
        self.shape
    }

    /// The position that the walk has reached.
    pub closed spec fn position(&self) -> Index2D {
        self.index2d
    }

    /// The position that the walk has reached, and on to the one that
    /// follows it; nothing once every row is walked.
    pub fn next(&mut self) -> (current: Option<Index2D>)
        ensures
            final(self).dims() == old(self).dims(),
            current == if old(self).position().row < old(self).dims().row {
                Some(old(self).position())
            } else {
                None
            },
            final(self).position() == if old(self).position().row < old(self).dims().row {
                position_after(old(self).position(), old(self).dims().col)
            } else {
                old(self).position()
            },
    {
        proof {
            use_type_invariant(&*self);
        }
        let current = self.index2d;
        if current.row < self.shape.row {
            self.index2d = if current.col + 1 == self.shape.col {
                Index2D { row: current.row + 1, col: 0 }
            } else {
                Index2D { row: current.row, col: current.col + 1 }
            };
            Some(current)
        } else {
            None
        }
    }
}

impl<T, S> Matrix<T, S> {
    /// A walk over the positions of the matrix, row by row, from the first
    /// position on. A matrix without columns has no positions.
    pub fn row_by_row_iter(&self) -> (walk: MatrixRowByRowIter)
        ensures
            walk.dims() == self.dims(),
            walk.position() == if self.dims().col == 0 {
                Index2D { row: self.dims().row, col: 0 }
            } else {
                Index2D { row: 0, col: 0 }
            },
    {
        let start = if self.shape.col == 0 {
            self.shape.row
        } else {
            0
        };
        MatrixRowByRowIter { shape: self.shape, index2d: Index2D { row: start, col: 0 } }
    }
}

} // verus!
