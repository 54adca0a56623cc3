//! Errors that can occur during linear algebra operations.

use vstd::prelude::*;

verus! {

/// Represents errors that can occur during linear algebra operations.
#[derive(Debug, PartialEq, Eq)]
pub enum LinalgError {
    /// Raised when a matrix is singular, and thus does not have an inverse.
    /// The numerical evidence (a determinant or pivot magnitude) is the
    /// factorization collaborator's concern and is not carried here.
    Singular,
    /// Raised when an algorithm requires a matrix to be square, but a
    /// rectangular matrix of the given shape was passed instead.
    NotSquare(usize, usize),
    /// Raised when an algorithm needs to convert a coefficient into the
    /// matrix's scalar type, but the scalar type cannot represent it.
    /// Carries descriptions of the source and target of the conversion.
    CannotConvertElement(String, String),
}

} // verus!
