//! Polynomials in nested form, evaluated by nested multiplication.

use crate::base_float::BaseFloat;
use crate::dim1_func::{ContinuousFunc, Dim1ContinuousFunc, Dim1Func};
use vstd::prelude::*;

verus! {

/// The value at `x` of the nested form from coefficient `i` on: with base
/// points `b`,
/// `c[i] + (x - b[i]) * (c[i+1] + (x - b[i+1]) * (... + (x - b[d-1]) * c[d]))`,
/// and without them the same with every base point zero and no subtraction,
/// each product formed with the inner value on the left.
pub open spec fn nested_value<T: BaseFloat>(
    coefficients: Seq<T>,
    base_points: Option<Seq<T>>,
    x: T,
    i: int,
) -> T
    decreases coefficients.len() - i,
{
    if i + 1 >= coefficients.len() {
        coefficients[coefficients.len() - 1]
    } else {
        let inner = nested_value(coefficients, base_points, x, i + 1);
        match base_points {
            Some(b) => inner.times(x.minus(b[i])).plus(coefficients[i]),
            None => inner.times(x).plus(coefficients[i]),
        }
    }
}

/// A polynomial of degree `d` given by its `d + 1` coefficients and,
/// optionally, `d` base points:
/// `c[0] + (x - b[0]) * (c[1] + (x - b[1]) * (c[2] + ...))`. Without base
/// points it is `c[0] + x * (c[1] + x * (c[2] + ...))`.
pub struct Polynomial<T> {
    degree: usize,
    coefficients: Vec<T>,
    base_points: Option<Vec<T>>,
}

impl<T> Polynomial<T> {
    /// There is one coefficient more than the degree, and one base point
    /// less than coefficients if there are base points.
    #[verifier::type_invariant]
    spec fn wf(self) -> bool {
        &&& self.coefficients.len() == self.degree + 1
        &&& match self.base_points {
            Some(b) => b.len() == self.degree,
            None => true,
        }
    }
}

impl<T: BaseFloat> Polynomial<T> {
    /// The coefficients, lowest first.
    pub closed spec fn coefficients(&self) -> Seq<T> {
        self.coefficients@
    }

    /// The base points, if there are any.
    pub closed spec fn base_points(&self) -> Option<Seq<T>> {
        match self.base_points {
            Some(b) => Some(b@),
            None => None,
        }
    }

    /// The polynomial with the given coefficients and base points.
    pub fn new(coefficients: Vec<T>, base_points: Option<Vec<T>>) -> (poly: Self)
        requires
            coefficients.len() > 0,
            match base_points {
                Some(b) => b.len() + 1 == coefficients.len(),
                None => true,
            },
        ensures
            poly.coefficients() == coefficients@,
            poly.base_points() == match base_points {
                Some(b) => Some(b@),
                None => None,
            },
    {
        let degree = coefficients.len() - 1;
        Self { degree, coefficients, base_points }
    }

    /// The polynomial `c[0] + x * (c[1] + x * (c[2] + ...))`.
    pub fn from_coefficients(coefficients: Vec<T>) -> (poly: Self)
        requires
            coefficients.len() > 0,
        ensures
            poly.coefficients() == coefficients@,
            poly.base_points().is_none(),
    {
        Self::new(coefficients, None)
    }

    /// The polynomial `c[0] + (x - b[0]) * (c[1] + (x - b[1]) * (c[2] + ...))`.
    pub fn from_coefficients_base_points(coefficients: Vec<T>, base_points: Vec<T>) -> (poly: Self)
        requires
            coefficients.len() == base_points.len() + 1,
        ensures
            poly.coefficients() == coefficients@,
            poly.base_points() == Some(base_points@),
    {
        Self::new(coefficients, Some(base_points))
    }

    /// The polynomial `c[0] + x * (c[1] + x * (c[2] + ...))`.
    pub fn with_coefficients(coefficients: Vec<T>) -> (poly: Self)
        requires
            coefficients.len() > 0,
        ensures
            poly.coefficients() == coefficients@,
            poly.base_points().is_none(),
    {
        Self::new(coefficients, None)
    }

    /// The polynomial with the same coefficients and the given base points.
    pub fn with_base_points(self, base_points: Vec<T>) -> (poly: Self)
        requires
            base_points.len() + 1 == self.coefficients().len(),
        ensures
            poly.coefficients() == self.coefficients(),
            poly.base_points() == Some(base_points@),
    {
        proof {
            use_type_invariant(&self);
        }
        Self {
            degree: self.degree,
            coefficients: self.coefficients,
            base_points: Some(base_points),
        }
    }

    /// The value of the polynomial at `x`, by nested multiplication from the
    /// highest coefficient down.
    pub fn nest_mul(&self, x: T) -> (y: T)
        ensures
            y == nested_value(self.coefficients(), self.base_points(), x, 0),
    {
        proof {
            use_type_invariant(self);
        }
        let d = self.degree;
        let mut y: T = self.coefficients[d];
        let mut i: usize = d;
        while i > 0
            invariant
                0 <= i <= d,
                self.wf(),
                d == self.degree,
                y == nested_value(self.coefficients(), self.base_points(), x, i as int),
            decreases i,
        {
            i -= 1;
            y = match &self.base_points {
                Some(b) => y.mul(x.sub(b[i])).add(self.coefficients[i]),
                None => y.mul(x).add(self.coefficients[i]),
            };
        }
        y
    }
}

impl<T: BaseFloat> Dim1Func<T> for Polynomial<T> {
    /// The value by nested multiplication.
    open spec fn value(&self, x: T) -> T {
        nested_value(self.coefficients(), self.base_points(), x, 0)
    }

    fn eval(&self, x: T) -> (y: T) {
        self.nest_mul(x)
    }
}

impl<T: BaseFloat> ContinuousFunc for Polynomial<T> {

}

impl<T: BaseFloat> Dim1ContinuousFunc<T> for Polynomial<T> {

}

} // verus!
