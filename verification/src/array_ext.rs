//! Shape validation, triangular projections, and the axis swap helper.

use vstd::prelude::*;
use crate::error::LinalgError;
use crate::matrix::Matrix;
use crate::scalar::Scalar;

verus! {

/// Triangular projections of a matrix.
pub trait MatrixExt where Self: Sized {
    /// Type of the projected matrix.
    type Output;

    /// Returns a copy with every element strictly above the diagonal
    /// replaced by the additive identity.
    fn lower_triangular(&self) -> Self::Output;

    /// Returns a copy with every element at or below the diagonal replaced
    /// by the additive identity.
    fn upper_triangular(&self) -> Self::Output;
}

impl<A: Scalar> MatrixExt for Matrix<A> {
    type Output = Matrix<A>;

    /// Keeps the elements on or below the diagonal (`i >= j`); every
    /// element strictly above it becomes zero.
    #[verifier::loop_isolation(false)]
    fn lower_triangular(&self) -> (r: Matrix<A>)
        ensures
            r@.len() == self@.len(),
            r.cols_spec() == self.cols_spec(),
            forall|i: int, j: int| 0 <= i < self@.len() && 0 <= j < self.cols_spec()
                ==> #[trigger] r@[i][j] == (if i >= j {
                    self@[i][j]
                } else {
                    A::zero_spec()
                }),
    {
        self.band_select(true)
    }

    /// Keeps the elements strictly above the diagonal (`i < j`); every
    /// element on or below it becomes zero.
    #[verifier::loop_isolation(false)]
    fn upper_triangular(&self) -> (r: Matrix<A>)
        ensures
            r@.len() == self@.len(),
            r.cols_spec() == self.cols_spec(),
            forall|i: int, j: int| 0 <= i < self@.len() && 0 <= j < self.cols_spec()
                ==> #[trigger] r@[i][j] == (if i < j {
                    self@[i][j]
                } else {
                    A::zero_spec()
                }),
    {
        self.band_select(false)
    }
}

impl<A: Scalar> Matrix<A> {
    /// Shared body of the two triangular projections: keeps the elements
    /// with `i >= j` when `lower` is set, those with `i < j` otherwise.
    #[verifier::loop_isolation(false)]
    fn band_select(&self, lower: bool) -> (r: Matrix<A>)
        ensures
            r@.len() == self@.len(),
            r.cols_spec() == self.cols_spec(),
            forall|i: int, j: int| 0 <= i < self@.len() && 0 <= j < self.cols_spec()
                ==> #[trigger] r@[i][j] == (if (i >= j) == lower {
                    self@[i][j]
                } else {
                    A::zero_spec()
                }),
    {
        proof {
            use_type_invariant(&*self);
        }
        let m = self.rows();
        let p = self.cols();
        let mut data: Vec<Vec<A>> = Vec::new();
        let mut i: usize = 0;
        while i < m
            invariant
                data@.len() == i,
                0 <= i <= m,
                forall|a: int, b: int| 0 <= a < i && 0 <= b < p
                    ==> #[trigger] data@[a]@[b] == (if (a >= b) == lower {
                        self@[a][b]
                    } else {
                        A::zero_spec()
                    }),
                forall|a: int| 0 <= a < i ==> (#[trigger] data@[a]@).len() == p,
            decreases m - i,
        {
            let mut row: Vec<A> = Vec::new();
            let mut j: usize = 0;
            while j < p
                invariant
                    row@.len() == j,
                    0 <= j <= p,
                    i < m,
                    forall|b: int| 0 <= b < j ==> #[trigger] row@[b] == (if (i >= b) == lower {
                        self@[i as int][b]
                    } else {
                        A::zero_spec()
                    }),
                decreases p - j,
            {
                let keep = if lower {
                    j <= i
                } else {
                    i < j
                };
                if keep {
                    row.push(self.get(i, j));
                } else {
                    row.push(A::zero());
                }
                j += 1;
            }
            data.push(row);
            i += 1;
        }
        Matrix::from_parts(p, data)
    }

    /// Returns the common dimension of a square matrix, or reports the
    /// offending shape of a rectangular one.
    pub fn require_square(&self) -> (r: Result<usize, LinalgError>)
        ensures
            self@.len() == self.cols_spec() ==> (r matches Ok(n) && n == self@.len()),
            self@.len() != self.cols_spec() ==> (r matches Err(e)
                && e == (LinalgError::NotSquare(self@.len() as usize, self.cols_spec() as usize))),
    {
        let rows = self.rows();
        let cols = self.cols();
        if rows != cols {
            Err(LinalgError::NotSquare(rows, cols))
        } else {
            Ok(rows)
        }
    }

}

} // verus!
