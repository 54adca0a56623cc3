//! The matrix inverse.

use vstd::prelude::*;
use crate::error::LinalgError;
use crate::factorize::{Factorization, Factorize};
use crate::matrix::Matrix;
use crate::model::s_eye;
use crate::pow::Identity;

verus! {

/// The inverse of `a` as the factorization collaborator computes it: the
/// solution of `A · X = I` queried on the collaborator's factorization
/// of `a`.
pub open spec fn inverse_of<A: Factorize>(a: Seq<Seq<A>>) -> Seq<Seq<A>> {
    A::factorization_of(a).solution(s_eye(a.len()))
}

/// Types that support the matrix inverse.
pub trait Inv {
    /// Errors that can result from the [`inv`] method.
    ///
    /// [`inv`]: Inv::inv
    type Error;

    /// Type used to represent the inverse when calling [`inv`].
    ///
    /// [`inv`]: Inv::inv
    type Output;

    /// Computes the inverse of the matrix.
    fn inv(&self) -> Result<Self::Output, Self::Error>;
}

impl<A: Factorize> Inv for Matrix<A> {
    type Error = LinalgError;

    type Output = Matrix<A>;

    /// Checks squareness eagerly, requests a factorization from the
    /// external collaborator, and solves `A · X = I` for the inverse,
    /// sizing the identity from the factorization's own order. A
    /// rectangular matrix is reported as `NotSquare` before any
    /// decomposition is attempted; every collaborator failure (such as
    /// `Singular`) is propagated unchanged.
    fn inv(&self) -> (r: Result<Matrix<A>, LinalgError>)
        ensures
            self@.len() != self.cols_spec() ==> (r matches Err(e)
                && e == (LinalgError::NotSquare(self@.len() as usize,
                    self.cols_spec() as usize))),
            self@.len() == self.cols_spec() && !A::inverts(self@) ==> r is Err,
            r is Ok ==> self@.len() == self.cols_spec() && A::inverts(self@),
            r matches Ok(m) ==> m@ == inverse_of(self@) && m@.len() == self@.len()
                && m.cols_spec() == self.cols_spec() && m@.len() == m.cols_spec(),
    {
        match self.require_square() {
            Err(e) => {
                return Err(e);
            },
            Ok(_) => {},
        }
        let f = match A::factorize(self) {
            Ok(f) => f,
            Err(e) => {
                return Err(e);
            },
        };
        let id: Matrix<A> = Identity::eye(f.order());
        f.solve_matrix(&id)
    }
}

} // verus!
