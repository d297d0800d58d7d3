//! Numerical methods over an abstract scalar.
//!
//! The core is dense linear algebra: matrices in row-major and packed
//! triangular storage, row permutations, LU factorization with partial
//! pivoting, triangular solves, inversion, the induced 1-norm and the
//! condition number. Around it stand solvers for the zero of a function of
//! one variable, polynomials and their interpolation, and the discrete
//! Fourier transform.
//!
//! Nothing is assumed of the arithmetic of the scalars but that it is
//! deterministic, so every result is stated as the exact sequence of scalar
//! operations that gives it.

pub mod algebra;
pub mod base_float;
pub mod complex;
pub mod dim1_func;
pub mod dim1_solver;
pub mod fft;
pub mod helpers;
pub mod index2d;
pub mod interpolation;
pub mod matrix;
pub mod packed;
pub mod polynomial;
pub mod row_major;
pub mod tensor;
