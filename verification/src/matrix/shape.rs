//! What every matrix of this module can say of its shape.

use crate::base_float::BaseFloat;
use crate::matrix::full_mat::FullMat;
use crate::matrix::triangle_mat::TriFullMat;
use vstd::prelude::*;

verus! {

/// A matrix with entries of type `T`.
pub trait Matrix<T> {
    /// The matrix is valid: its storage fits its shape.
    spec fn valid(&self) -> bool;

    /// `(rows, columns)`, as a specification.
    spec fn extent(&self) -> (usize, usize);

    /// `(rows, columns)`.
    fn shape(&self) -> (shape: (usize, usize))
        requires
            self.valid(),
        ensures
            shape == self.extent(),
    ;

    /// The number of rows.
    fn row_count(&self) -> (count: usize)
        requires
            self.valid(),
        ensures
            count == self.extent().0,
    {
        self.shape().0
    }

    /// The number of columns.
    fn col_count(&self) -> (count: usize)
        requires
            self.valid(),
        ensures
            count == self.extent().1,
    {
        self.shape().1
    }

    /// Whether the matrix has as many rows as columns.
    fn is_square(&self) -> (square: bool)
        requires
            self.valid(),
        ensures
            square == (self.extent().0 == self.extent().1),
    {
        let shape = self.shape();
        shape.0 == shape.1
    }
}

impl<T> Matrix<T> for FullMat<T> {
    open spec fn valid(&self) -> bool {
        self.wf()
    }

    open spec fn extent(&self) -> (usize, usize) {
        (self.rows() as usize, self.cols() as usize)
    }

    fn shape(&self) -> (shape: (usize, usize)) {
        FullMat::shape(self)
    }
}

impl<T: BaseFloat> Matrix<T> for TriFullMat<T> {
    open spec fn valid(&self) -> bool {
        self.wf()
    }

    open spec fn extent(&self) -> (usize, usize) {
        (self.size() as usize, self.size() as usize)
    }

    fn shape(&self) -> (shape: (usize, usize)) {
        TriFullMat::shape(self)
    }
}

} // verus!
