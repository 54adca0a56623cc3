//! Identity matrices and integer matrix powers.

use vstd::prelude::*;
use crate::error::LinalgError;
use crate::factorize::Factorize;
use crate::inv::{inverse_of, Inv};
use crate::matrix::Matrix;
use crate::model::{min_order, s_eye, s_pow};
use crate::scalar::Scalar;

verus! {

/// Types that can produce identity matrices of a given or matching order.
pub trait Identity: Sized {
    /// The identity matrix of the given order.
    fn eye(size: usize) -> Self;

    /// An identity matrix whose order matches `self`.
    fn eye_like(&self) -> Self;
}

impl<A: Scalar> Identity for Matrix<A> {
    /// `1` on every diagonal entry, `0` elsewhere; order `0` yields a
    /// valid zero-by-zero matrix, not an error.
    #[verifier::loop_isolation(false)]
    fn eye(size: usize) -> (r: Matrix<A>)
        ensures
            r@ == s_eye::<A>(size as nat),
            r.cols_spec() == size,
    {
        let mut data: Vec<Vec<A>> = Vec::new();
        let mut i: usize = 0;
        while i < size
            invariant
                data@.len() == i,
                0 <= i <= size,
                forall|a: int| 0 <= a < i ==> #[trigger] data@[a]@ == s_eye::<A>(size as nat)[a],
                forall|a: int| 0 <= a < i ==> (#[trigger] data@[a]@).len() == size,
            decreases size - i,
        {
            let mut row: Vec<A> = Vec::new();
            let mut j: usize = 0;
            while j < size
                invariant
                    row@.len() == j,
                    0 <= j <= size,
                    i < size,
                    forall|b: int| 0 <= b < j ==> #[trigger] row@[b] == (if b == i {
                        A::one_spec()
                    } else {
                        A::zero_spec()
                    }),
                decreases size - j,
            {
                if j == i {
                    row.push(A::one());
                } else {
                    row.push(A::zero());
                }
                j += 1;
            }
            proof {
                assert(row@ =~= s_eye::<A>(size as nat)[i as int]);
            }
            data.push(row);
            i += 1;
        }
        let r = Matrix::from_parts(size, data);
        proof {
            assert(r@ =~~= s_eye::<A>(size as nat));
        }
        r
    }

    /// The identity whose order is the smaller of the two dimensions of
    /// `self`, so that callers that have not yet validated squareness can
    /// still obtain a same-scale identity. Does not itself validate
    /// squareness.
    fn eye_like(&self) -> (r: Matrix<A>)
        ensures
            r@ == s_eye::<A>(min_order(self@.len(), self.cols_spec())),
            r.cols_spec() == min_order(self@.len(), self.cols_spec()),
    {
        let rows = self.rows();
        let cols = self.cols();
        let n = if rows < cols {
            rows
        } else {
            cols
        };
        Self::eye(n)
    }
}

/// Raises a square matrix to a non-negative power by repeated
/// right-multiplication, starting from the identity.
#[verifier::loop_isolation(false)]
pub(crate) fn pow_nonneg<A: Scalar>(a: &Matrix<A>, n: u64) -> (r: Matrix<A>)
    requires
        a@.len() == a.cols_spec(),
    ensures
        r@ == s_pow(a@, n as nat),
        r@.len() == a@.len(),
        r.cols_spec() == a.cols_spec(),
{
    let mut result = a.eye_like();
    let mut k: u64 = 0;
    while k < n
        invariant
            0 <= k <= n,
            result@ == s_pow(a@, k as nat),
            result@.len() == a@.len(),
            result.cols_spec() == a.cols_spec(),
        decreases n - k,
    {
        result = result.matmul(a);
        k += 1;
    }
    result
}

/// Types that support integer matrix powers.
pub trait MatrixPower: Sized {
    /// Errors that can result from the [`matrix_power`] method.
    ///
    /// [`matrix_power`]: MatrixPower::matrix_power
    type Error;

    /// Computes `self` raised to the given integer power.
    fn matrix_power(&self, pow: i64) -> Result<Self, Self::Error>;
}

impl<A: Factorize> MatrixPower for Matrix<A> {
    type Error = LinalgError;

    /// A zero power returns an identity sized like `self` without a
    /// squareness check, the one deliberate exception to eager shape
    /// validation: an identity "like" a matrix is well-defined even for a
    /// rectangular one. Every non-zero power requires a square matrix and
    /// reports `NotSquare` otherwise. A positive power multiplies the
    /// identity by `self` that many times, in left-to-right order; a
    /// negative power inverts once and raises the inverse to the opposite
    /// power, so any inversion failure (such as `Singular`) propagates
    /// unchanged.
    fn matrix_power(&self, pow: i64) -> (r: Result<Matrix<A>, LinalgError>)
        ensures
            pow == 0 ==> (r matches Ok(m)
                && m@ == s_eye::<A>(min_order(self@.len(), self.cols_spec()))
                && m.cols_spec() == min_order(self@.len(), self.cols_spec())),
            pow != 0 && self@.len() != self.cols_spec() ==> (r matches Err(e)
                && e == (LinalgError::NotSquare(self@.len() as usize,
                    self.cols_spec() as usize))),
            pow > 0 && self@.len() == self.cols_spec() ==> (r matches Ok(m)
                && m@ == s_pow(self@, pow as nat)
                && m.cols_spec() == self.cols_spec()),
            pow < 0 && self@.len() == self.cols_spec() && !A::inverts(self@) ==> r is Err,
            pow < 0 && self@.len() == self.cols_spec() ==> (r matches Ok(m)
                ==> m@ == s_pow(inverse_of(self@), (-pow) as nat)
                    && m.cols_spec() == self.cols_spec()),
    {
        if pow == 0 {
            return Ok(self.eye_like());
        }
        match self.require_square() {
            Err(e) => {
                return Err(e);
            },
            Ok(_) => {},
        }
        if pow < 0 {
            let b = match self.inv() {
                Ok(b) => b,
                Err(e) => {
                    return Err(e);
                },
            };
            let k: u64 = (-(pow as i128)) as u64;
            let m = pow_nonneg(&b, k);
            proof {
                assert(m@ == s_pow(inverse_of(self@), (-pow) as nat));
            }
            Ok(m)
        } else {
            Ok(pow_nonneg(self, pow as u64))
        }
    }
}

} // verus!
