//! Complex numbers over the scalars.

use crate::base_float::BaseFloat;
use vstd::prelude::*;

verus! {

/// The complex number `real + imag * i`.
#[derive(Copy, Clone, Debug, PartialEq)]
pub struct Complex<T> {
    pub real: T,
    pub imag: T,
}

/// `a + b`.
pub open spec fn complex_sum<T: BaseFloat>(a: Complex<T>, b: Complex<T>) -> Complex<T> {
    Complex { real: a.real.plus(b.real), imag: a.imag.plus(b.imag) }
}

/// `a - b`.
pub open spec fn complex_difference<T: BaseFloat>(a: Complex<T>, b: Complex<T>) -> Complex<T> {
    Complex { real: a.real.minus(b.real), imag: a.imag.minus(b.imag) }
}

/// `a * b`.
pub open spec fn complex_product<T: BaseFloat>(a: Complex<T>, b: Complex<T>) -> Complex<T> {
    Complex {
        real: a.real.times(b.real).minus(a.imag.times(b.imag)),
        imag: a.real.times(b.imag).plus(a.imag.times(b.real)),
    }
}

/// `a / b`: `a` times the conjugate of `b`, over the square of the magnitude
/// of `b`.
pub open spec fn complex_quotient<T: BaseFloat>(a: Complex<T>, b: Complex<T>) -> Complex<T> {
    let x = b.real.times(b.real).plus(b.imag.times(b.imag));
    Complex {
        real: a.real.times(b.real).plus(a.imag.times(b.imag)).over(x),
        imag: a.imag.times(b.real).minus(a.real.times(b.imag)).over(x),
    }
}

/// `-a`.
pub open spec fn complex_negated<T: BaseFloat>(a: Complex<T>) -> Complex<T> {
    Complex { real: a.real.negated(), imag: a.imag.negated() }
}

/// The conjugate of `a`.
pub open spec fn conjugated<T: BaseFloat>(a: Complex<T>) -> Complex<T> {
    Complex { real: a.real, imag: a.imag.negated() }
}

/// Zero as a complex number.
pub open spec fn complex_zero<T: BaseFloat>() -> Complex<T> {
    Complex { real: T::zero_value(), imag: T::zero_value() }
}

impl<T: BaseFloat> Complex<T> {
    /// `0`.
    pub fn zero() -> (z: Self)
        ensures
            z == complex_zero::<T>(),
    {
        Self { real: T::zero(), imag: T::zero() }
    }

    /// `1`.
    pub fn one() -> (z: Self)
        ensures
            z.real == T::one_value(),
            z.imag == T::zero_value(),
    {
        Self { real: T::one(), imag: T::zero() }
    }

    /// The imaginary unit.
    pub fn i() -> (z: Self)
        ensures
            z.real == T::zero_value(),
            z.imag == T::one_value(),
    {
        Self { real: T::zero(), imag: T::one() }
    }

    /// `re + im * i`.
    pub fn new(re: T, im: T) -> (z: Self)
        ensures
            z.real == re,
            z.imag == im,
    {
        Self { real: re, imag: im }
    }

    /// The conjugate.
    pub fn conjugate(&self) -> (z: Self)
        ensures
            z == conjugated(*self),
    {
        Self { real: self.real, imag: self.imag.neg() }
    }

    /// `self + rhs`.
    pub fn add(self, rhs: Self) -> (z: Self)
        ensures
            z == complex_sum(self, rhs),
    {
        Self { real: self.real.add(rhs.real), imag: self.imag.add(rhs.imag) }
    }

    /// `self - rhs`.
    pub fn sub(self, rhs: Self) -> (z: Self)
        ensures
            z == complex_difference(self, rhs),
    {
        Self { real: self.real.sub(rhs.real), imag: self.imag.sub(rhs.imag) }
    }

    /// `self * rhs`.
    pub fn mul(self, rhs: Self) -> (z: Self)
        ensures
            z == complex_product(self, rhs),
    {
        Self {
            real: self.real.mul(rhs.real).sub(self.imag.mul(rhs.imag)),
            imag: self.real.mul(rhs.imag).add(self.imag.mul(rhs.real)),
        }
    }

    /// `self / rhs`.
    pub fn div(self, rhs: Self) -> (z: Self)
        ensures
            z == complex_quotient(self, rhs),
    {
        let x = rhs.real.mul(rhs.real).add(rhs.imag.mul(rhs.imag));
        Self {
            real: self.real.mul(rhs.real).add(self.imag.mul(rhs.imag)).div(x),
            imag: self.imag.mul(rhs.real).sub(self.real.mul(rhs.imag)).div(x),
        }
    }

    /// `-self`.
    pub fn neg(self) -> (z: Self)
        ensures
            z == complex_negated(self),
    {
        Self { real: self.real.neg(), imag: self.imag.neg() }
    }
}

} // verus!
