//! What the storage variants of a matrix have in common.

use crate::algebra::{seq_add, seq_sub};
use crate::base_float::BaseFloat;
use vstd::prelude::*;

verus! {

/// Entrywise addition and subtraction of matrices with the same storage.
pub trait MatrixAddSubSelf<T: BaseFloat>: Sized {
    /// The entries that the matrix stores, in the order of its storage.
    spec fn stored(&self) -> Seq<T>;

    /// The matrix is valid: its storage fits its shape.
    spec fn valid(&self) -> bool;

    /// The matrices have the same shape.
    spec fn same_shape(&self, rhs: &Self) -> bool;

    /// `self + rhs`.
    fn add(&self, rhs: &Self) -> (sum: Self)
        requires
            self.valid(),
            rhs.valid(),
            self.same_shape(rhs),
        ensures
            sum.valid(),
            sum.same_shape(self),
            sum.stored() == seq_add(self.stored(), rhs.stored()),
    ;

    /// `self += rhs`.
    fn add_assign(&mut self, rhs: &Self)
        requires
            old(self).valid(),
            rhs.valid(),
            old(self).same_shape(rhs),
        ensures
            final(self).valid(),
            final(self).same_shape(old(self)),
            final(self).stored() == seq_add(old(self).stored(), rhs.stored()),
    ;

    /// `self - rhs`.
    fn sub(&self, rhs: &Self) -> (difference: Self)
        requires
            self.valid(),
            rhs.valid(),
            self.same_shape(rhs),
        ensures
            difference.valid(),
            difference.same_shape(self),
            difference.stored() == seq_sub(self.stored(), rhs.stored()),
    ;

    /// `self -= rhs`.
    fn sub_assign(&mut self, rhs: &Self)
        requires
            old(self).valid(),
            rhs.valid(),
            old(self).same_shape(rhs),
        ensures
            final(self).valid(),
            final(self).same_shape(old(self)),
            final(self).stored() == seq_sub(old(self).stored(), rhs.stored()),
    ;
}

/// Multiplication of matrices with the same storage.
pub trait MatrixMulSelf<T: BaseFloat>: Sized {
    /// The product `self * rhs` is defined.
    spec fn multipliable(&self, rhs: &Self) -> bool;

    /// `self` is the product `lhs * rhs`.
    spec fn is_product(&self, lhs: &Self, rhs: &Self) -> bool;

    /// `self * rhs`.
    fn mul(&self, rhs: &Self) -> (product: Self)
        requires
            self.multipliable(rhs),
        ensures
            product.is_product(self, rhs),
    ;
}

/// Matrices with as many rows as columns.
pub trait Square {
    /// The number of rows, as a specification.
    spec fn order(&self) -> nat;

    /// The number of rows, which is the number of columns.
    fn size(&self) -> (size: usize)
        ensures
            size == self.order(),
    ;
}

} // verus!
