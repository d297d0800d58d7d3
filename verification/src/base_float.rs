//! The scalar capability the matrix engine is written against.

use vstd::prelude::*;

verus! {

/// A scalar with the arithmetic of a floating-point number.
///
/// Each operation is described by a specification function of the same
/// operands, so an implementation has to be deterministic: the same operands
/// always give the same value. Nothing else is demanded of the arithmetic: no
/// associativity, no exactness. The engine therefore states its results as the
/// exact sequence of operations applied to the entries.
pub trait BaseFloat: Copy {
    /// The additive identity.
    spec fn zero_value() -> Self;

    /// The multiplicative identity.
    spec fn one_value() -> Self;

    /// `self + rhs`.
    spec fn plus(self, rhs: Self) -> Self;

    /// `self - rhs`.
    spec fn minus(self, rhs: Self) -> Self;

    /// `self * rhs`.
    spec fn times(self, rhs: Self) -> Self;

    /// `self / rhs`.
    spec fn over(self, rhs: Self) -> Self;

    /// `-self`.
    spec fn negated(self) -> Self;

    /// `|self|`.
    spec fn magnitude(self) -> Self;

    /// The sign of `self` as a scalar: one, minus one, or not a number.
    spec fn sign(self) -> Self;

    /// The larger of `self` and `rhs`.
    spec fn greater_of(self, rhs: Self) -> Self;

    /// `2 * self`.
    spec fn doubled(self) -> Self;

    /// `self / 2`.
    spec fn halved(self) -> Self;

    /// The distance from one to the next larger scalar.
    spec fn epsilon_value() -> Self;

    /// `self < rhs` in the order of the scalars.
    spec fn precedes(self, rhs: Self) -> bool;

    /// `self == rhs` as numbers, which may differ from identity of values.
    spec fn equals(self, rhs: Self) -> bool;

    fn zero() -> (r: Self)
        ensures
            r == Self::zero_value(),
    ;

    fn one() -> (r: Self)
        ensures
            r == Self::one_value(),
    ;

    fn add(self, rhs: Self) -> (r: Self)
        ensures
            r == self.plus(rhs),
    ;

    fn sub(self, rhs: Self) -> (r: Self)
        ensures
            r == self.minus(rhs),
    ;

    fn mul(self, rhs: Self) -> (r: Self)
        ensures
            r == self.times(rhs),
    ;

    fn div(self, rhs: Self) -> (r: Self)
        ensures
            r == self.over(rhs),
    ;

    fn neg(self) -> (r: Self)
        ensures
            r == self.negated(),
    ;

    fn abs(self) -> (r: Self)
        ensures
            r == self.magnitude(),
    ;

    fn signum(self) -> (r: Self)
        ensures
            r == self.sign(),
    ;

    fn max(self, rhs: Self) -> (r: Self)
        ensures
            r == self.greater_of(rhs),
    ;

    fn double(self) -> (r: Self)
        ensures
            r == self.doubled(),
    ;

    fn half(self) -> (r: Self)
        ensures
            r == self.halved(),
    ;

    fn epsilon() -> (r: Self)
        ensures
            r == Self::epsilon_value(),
    ;

    fn lt(self, rhs: Self) -> (r: bool)
        ensures
            r == self.precedes(rhs),
    ;

    fn eq(self, rhs: Self) -> (r: bool)
        ensures
            r == self.equals(rhs),
    ;

    /// Whether the signs of `self` and `other` differ.
    fn sig_ne(self, other: Self) -> (r: bool)
        ensures
            r == self.sign().times(other.sign()).equals(Self::one_value().negated()),
    {
        self.signum().mul(other.signum()).eq(Self::one().neg())
    }

    /// Whether `self` and `other` have the same sign.
    fn sig_eq(self, other: Self) -> (r: bool)
        ensures
            r == self.sign().times(other.sign()).equals(Self::one_value()),
    {
        self.signum().mul(other.signum()).eq(Self::one())
    }
}

/// The signs of `a` and `b` differ: their product is minus one.
pub open spec fn sign_differs<T: BaseFloat>(a: T, b: T) -> bool {
    a.sign().times(b.sign()).equals(T::one_value().negated())
}

/// `a` and `b` have the same sign: the product of their signs is one.
pub open spec fn sign_agrees<T: BaseFloat>(a: T, b: T) -> bool {
    a.sign().times(b.sign()).equals(T::one_value())
}

} // verus!
