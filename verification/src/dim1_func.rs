//! Functions of one scalar variable.

use vstd::prelude::*;

verus! {

/// Marks a function as continuous. That it is continuous is the word of
/// whoever implements the trait.
pub trait ContinuousFunc {

}

/// A function of one variable.
pub trait Dim1Func<T> {
    /// `f(x)`, as a specification.
    spec fn value(&self, x: T) -> T;

    /// Evaluates `f(x)` at `x`.
    fn eval(&self, x: T) -> (y: T)
        ensures
            y == self.value(x),
    ;
}

/// A continuous function of one variable.
pub trait Dim1ContinuousFunc<T>: Dim1Func<T> + ContinuousFunc {

}

} // verus!
