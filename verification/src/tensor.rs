//! Matrices and vectors as a shape or a length wrapped around a choice of
//! storage.

pub mod matrix;
pub mod vector;
