//! The scalar-field capability that matrix elements must provide.

use vstd::prelude::*;
use crate::error::LinalgError;

verus! {

/// The arithmetic capability a matrix element type must supply: addition,
/// multiplication, negation, the two identities, and fallible construction
/// from a ratio of integers (used for combinatorial series coefficients).
///
/// Each executable operation is pinned to an abstract specification-level
/// counterpart, so that matrix contracts can speak of results exactly while
/// staying generic over the element type. An implementation outside this
/// crate (for example for floating-point or complex scalars) is responsible
/// for meeting these contracts.
pub trait Scalar: Sized + Copy {
    /// The additive identity, at the specification level.
    spec fn zero_spec() -> Self;

    /// The multiplicative identity, at the specification level.
    spec fn one_spec() -> Self;

    /// What addition returns, at the specification level.
    spec fn add_spec(self, other: Self) -> Self;

    /// What multiplication returns, at the specification level.
    spec fn mul_spec(self, other: Self) -> Self;

    /// What negation returns, at the specification level.
    spec fn neg_spec(self) -> Self;

    /// What construction from a ratio `num / den` returns, at the
    /// specification level: `None` when the type cannot represent it.
    spec fn from_ratio_spec(num: u64, den: u128) -> Option<Self>;

    /// The additive identity.
    fn zero() -> (r: Self)
        ensures
            r == Self::zero_spec(),
    ;

    /// The multiplicative identity.
    fn one() -> (r: Self)
        ensures
            r == Self::one_spec(),
    ;

    /// Addition.
    fn add(self, other: Self) -> (r: Self)
        ensures
            r == self.add_spec(other),
    ;

    /// Multiplication.
    fn mul(self, other: Self) -> (r: Self)
        ensures
            r == self.mul_spec(other),
    ;

    /// Negation.
    fn neg(self) -> (r: Self)
        ensures
            r == self.neg_spec(),
    ;

    /// Builds the scalar whose value is `num / den`. An implementation that
    /// cannot represent the ratio reports which conversion failed; the two
    /// strings of the error describe the source value and the target type.
    fn from_ratio(num: u64, den: u128) -> (r: Result<Self, LinalgError>)
        ensures
            r matches Ok(v) ==> Self::from_ratio_spec(num, den) == Some(v),
            r is Err ==> Self::from_ratio_spec(num, den) is None,
            r matches Err(e) ==> e matches LinalgError::CannotConvertElement(_, _),
    ;
}

} // verus!
