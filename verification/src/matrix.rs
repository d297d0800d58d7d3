//! Matrices with row-major and packed triangular storage, and the
//! factorization built on them.

pub mod elimination;
pub mod full_mat;
pub mod lu;
pub mod render;
pub mod shape;
pub mod triangle_mat;
