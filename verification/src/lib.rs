//! Matrices and vectors with their arithmetic, and the transformation
//! matrices of 3D graphics.
//!
//! A [`matrix::Matrix`] holds at least one row and one column of elements
//! in row-major order, and is never changed once it is made. A vector is a
//! matrix with one column. Every operation checks the shapes it is given and
//! answers a mismatch with a [`errors::MatrixError`].
//!
//! The element type is a parameter: any copyable type with `+`, `-`, `*`,
//! `/` and a conversion from `i8` will do (see [`scalar`]). The library has
//! no square root of its own for such a type, so the operations that need
//! one take it as an argument.
//!
//! - [`matrix`]: the matrix type, its constructors and its methods, and the
//!   arithmetic on raw row-major data.
//! - [`functions`]: transpose, product and vector operations as free
//!   functions.
//! - [`transform`]: identity, scaling and translation matrices.
//! - [`vector`]: vectors of two, three and four elements held by value.
//! - [`model`]: what the contracts speak of.
//! - [`laws`]: what holds between the operations.

mod arithmetic;
pub mod errors;
pub mod functions;
pub mod laws;
pub mod matrix;
pub mod model;
pub mod scalar;
pub mod transform;
pub mod vector;
