//! Dense matrix and vector algebra over a generic scalar type.
//!
//! Matrices are sequences of rows (`&[Vec<T>]`), vectors are `Vec<T>`. The
//! scalar type reaches the algorithms only through std's operator traits, so
//! the same code serves floating-point numbers and integers. Every shape check
//! and every error is specified exactly. Where the scalar's operators follow
//! their specification in vstd (`obeys_*_spec`), as the primitive integers do,
//! every result cell is specified exactly as well.
pub mod determinant;
pub mod elementwise;
pub mod error;
pub mod inverse;
pub mod laws;
pub mod matrix_vector;
pub mod minor;
pub mod product;
pub mod scalar;
pub mod shape;
pub mod transpose;
pub mod vectors;
