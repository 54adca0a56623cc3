//! The factorization-and-solve collaborator that inversion delegates to.
//!
//! The crate never performs pivoted elimination itself: it consumes an
//! externally supplied factorization oracle through these traits. All
//! numerical policy — pivoting, and the detection of singular or
//! ill-conditioned matrices — belongs to the implementation, which lives
//! outside this crate and is responsible for meeting these contracts.

use vstd::prelude::*;
use crate::error::LinalgError;
use crate::matrix::Matrix;
use crate::scalar::Scalar;

verus! {

/// An opaque factorization of a square matrix, able to answer
/// linear-system queries about it.
pub trait Factorization<A: Scalar>: Sized {
    /// The order of the factorized matrix, at the specification level.
    spec fn order_spec(&self) -> usize;

    /// The solution this factorization computes for a given right-hand
    /// side: an implementation must answer the same query the same way on
    /// every call.
    open spec fn solution(&self, rhs: Seq<Seq<A>>) -> Seq<Seq<A>> {
        arbitrary()
    }

    /// The order of the factorized matrix. A factorization may track its
    /// own effective dimension; callers size right-hand sides from this,
    /// not from the matrix they factorized.
    fn order(&self) -> (n: usize)
        ensures
            n == self.order_spec(),
    ;

    /// Solves `A · X = rhs` for `X`, where `A` is the matrix captured by
    /// this factorization. Failures (for example on an ill-conditioned
    /// system) are the collaborator's decision and pass through unchanged.
    fn solve_matrix(&self, rhs: &Matrix<A>) -> (r: Result<Matrix<A>, LinalgError>)
        requires
            rhs@.len() == self.order_spec(),
        ensures
            r matches Ok(x) ==> x@ == self.solution(rhs@) && x@.len() == rhs@.len()
                && x.cols_spec() == rhs.cols_spec(),
    ;
}

/// Scalars whose square matrices can be handed to a factorization oracle.
/// Detecting a singular or numerically negligible pivot — and reporting
/// `Singular` — is entirely the oracle's responsibility.
pub trait Factorize: Scalar {
    /// The factorization produced for matrices of this scalar.
    type Factorization: Factorization<Self>;

    /// Whether the collaborator accepts the square matrix `a` for
    /// decomposition, rather than rejecting it as singular or too
    /// ill-conditioned: an implementation must make the same decision for
    /// the same matrix on every call.
    open spec fn inverts(a: Seq<Seq<Self>>) -> bool {
        arbitrary()
    }

    /// The factorization the collaborator computes for `a` — the same one
    /// on every call.
    open spec fn factorization_of(a: Seq<Seq<Self>>) -> Self::Factorization {
        arbitrary()
    }

    /// Decomposes the square matrix `a`, or reports why it cannot be
    /// decomposed (typically `Singular`).
    fn factorize(a: &Matrix<Self>) -> (r: Result<Self::Factorization, LinalgError>)
        requires
            a@.len() == a.cols_spec(),
        ensures
            r is Ok <==> Self::inverts(a@),
            r matches Ok(f) ==> f == Self::factorization_of(a@) && f.order_spec() == a@.len(),
    ;
}

} // verus!
