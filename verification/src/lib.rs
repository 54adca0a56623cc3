//! A small dense-matrix algebra kernel: matrix inverses, integer matrix
//! powers, and the matrix exponential via a diagonal Pade approximation,
//! generic over any scalar type that behaves as a field.
//!
//! The underlying pivoted factorization-and-solve facility is an external
//! collaborator, consumed through the traits of [`factorize`]; everything
//! else — identity generation, shape validation, triangular projections,
//! the product and power loops, and the Pade series construction — is
//! implemented and specified here.

pub mod array_ext;
pub mod error;
pub mod expm;
pub mod factorize;
pub mod inv;
pub mod matrix;
pub mod model;
pub mod pow;
pub mod scalar;
