//! The dense matrix type and its elementwise and product arithmetic.

use vstd::prelude::*;
use crate::model::{s_add, s_dot, s_mul, s_neg, s_scale};
use crate::scalar::Scalar;

verus! {

/// A dense, owned, two-dimensional matrix: a vector of rows, each with one
/// element per column. Viewed as a sequence of rows. All operations are
/// pure: no input matrix is ever mutated by an operation that returns a
/// fresh result.
#[derive(Debug)]
pub struct Matrix<A> {
    cols: usize,
    data: Vec<Vec<A>>,
}

impl<A> View for Matrix<A> {
    type V = Seq<Seq<A>>;

    closed spec fn view(&self) -> Seq<Seq<A>> {
        Seq::new(self.data@.len(), |i: int| self.data@[i]@)
    }
}

impl<A> Matrix<A> {
    /// Every row holds exactly one element per column.
    #[verifier::type_invariant]
    pub(crate) closed spec fn well_formed(self) -> bool {
        forall|i: int|
            0 <= i < self.data@.len() ==> (#[trigger] self.data@[i]@).len() == self.cols
    }

    /// The number of columns, at the specification level. (The number of
    /// rows is the length of the view.)
    pub closed spec fn cols_spec(&self) -> nat {
        self.cols as nat
    }

    /// The number of rows.
    pub fn rows(&self) -> (r: usize)
        ensures
            r == self@.len(),
    {
        self.data.len()
    }

    /// The number of columns.
    pub fn cols(&self) -> (r: usize)
        ensures
            r == self.cols_spec(),
    {
        self.cols
    }

    /// Builds a matrix from the given rows. Succeeds exactly when every row
    /// has exactly `cols` elements; a ragged input yields `None`.
    pub fn from_rows(rows: Vec<Vec<A>>, cols: usize) -> (r: Option<Matrix<A>>)
        ensures
            r is Some <==> (forall|i: int|
                0 <= i < rows@.len() ==> (#[trigger] rows@[i]@).len() == cols),
            r matches Some(m) ==> m@ == rows@.map_values(|v: Vec<A>| v@)
                && m.cols_spec() == cols,
    {
        let n = rows.len();
        let mut i: usize = 0;
        while i < n
            invariant
                n == rows@.len(),
                0 <= i <= n,
                forall|k: int| 0 <= k < i ==> (#[trigger] rows@[k]@).len() == cols,
            decreases n - i,
        {
            if rows[i].len() != cols {
                proof {
                    assert(rows@[i as int]@.len() != cols);
                }
                return None;
            }
            i += 1;
        }
        let m = Matrix { cols, data: rows };
        proof {
            assert(m@ =~~= rows@.map_values(|v: Vec<A>| v@));
        }
        Some(m)
    }

    /// Builds a matrix directly from parts already known to be rectangular.
    pub(crate) fn from_parts(cols: usize, data: Vec<Vec<A>>) -> (r: Matrix<A>)
        requires
            forall|i: int| 0 <= i < data@.len() ==> (#[trigger] data@[i]@).len() == cols,
        ensures
            r@ == Seq::new(data@.len(), |i: int| data@[i]@),
            r.cols_spec() == cols,
    {
        Matrix { cols, data }
    }
}

impl<A: Scalar> Matrix<A> {
    /// The element at row `i`, column `j`.
    pub fn get(&self, i: usize, j: usize) -> (r: A)
        requires
            i < self@.len(),
            j < self.cols_spec(),
        ensures
            r == self@[i as int][j as int],
    {
        proof {
            use_type_invariant(&*self);
        }
        self.data[i][j]
    }

    /// The elementwise sum `self + other` of two matrices of the same shape.
    #[verifier::loop_isolation(false)]
    pub fn add_matrix(&self, other: &Matrix<A>) -> (r: Matrix<A>)
        requires
            self@.len() == other@.len(),
            self.cols_spec() == other.cols_spec(),
        ensures
            r@ == s_add(self@, other@),
            r.cols_spec() == self.cols_spec(),
    {
        proof {
            use_type_invariant(&*self);
            use_type_invariant(&*other);
        }
        let m = self.data.len();
        let p = self.cols;
        let mut data: Vec<Vec<A>> = Vec::new();
        let mut i: usize = 0;
        while i < m
            invariant
                data@.len() == i,
                0 <= i <= m,
                forall|a: int| 0 <= a < i ==> #[trigger] data@[a]@ == s_add(self@, other@)[a],
            decreases m - i,
        {
            let mut row: Vec<A> = Vec::new();
            let mut j: usize = 0;
            while j < p
                invariant
                    row@.len() == j,
                    0 <= j <= p,
                    i < m,
                    forall|b: int| 0 <= b < j ==> #[trigger] row@[b]
                        == self@[i as int][b].add_spec(other@[i as int][b]),
                decreases p - j,
            {
                row.push(self.get(i, j).add(other.get(i, j)));
                j += 1;
            }
            proof {
                assert(row@ =~= s_add(self@, other@)[i as int]);
            }
            data.push(row);
            i += 1;
        }
        let r = Matrix { cols: p, data };
        proof {
            assert(r@ =~~= s_add(self@, other@));
        }
        r
    }

    /// The elementwise negation `-self`.
    #[verifier::loop_isolation(false)]
    pub fn neg_matrix(&self) -> (r: Matrix<A>)
        ensures
            r@ == s_neg(self@),
            r.cols_spec() == self.cols_spec(),
    {
        proof {
            use_type_invariant(&*self);
        }
        let m = self.data.len();
        let p = self.cols;
        let mut data: Vec<Vec<A>> = Vec::new();
        let mut i: usize = 0;
        while i < m
            invariant
                data@.len() == i,
                0 <= i <= m,
                forall|a: int| 0 <= a < i ==> #[trigger] data@[a]@ == s_neg(self@)[a],
            decreases m - i,
        {
            let mut row: Vec<A> = Vec::new();
            let mut j: usize = 0;
            while j < p
                invariant
                    row@.len() == j,
                    0 <= j <= p,
                    i < m,
                    forall|b: int| 0 <= b < j ==> #[trigger] row@[b] == self@[i as int][b].neg_spec(),
                decreases p - j,
            {
                row.push(self.get(i, j).neg());
                j += 1;
            }
            proof {
                assert(row@ =~= s_neg(self@)[i as int]);
            }
            data.push(row);
            i += 1;
        }
        let r = Matrix { cols: p, data };
        proof {
            assert(r@ =~~= s_neg(self@));
        }
        r
    }

    /// The matrix scaled elementwise by `c` (each element multiplied by `c`
    /// on the right).
    #[verifier::loop_isolation(false)]
    pub fn scale(&self, c: A) -> (r: Matrix<A>)
        ensures
            r@ == s_scale(self@, c),
            r.cols_spec() == self.cols_spec(),
    {
        proof {
            use_type_invariant(&*self);
        }
        let m = self.data.len();
        let p = self.cols;
        let mut data: Vec<Vec<A>> = Vec::new();
        let mut i: usize = 0;
        while i < m
            invariant
                data@.len() == i,
                0 <= i <= m,
                forall|a: int| 0 <= a < i ==> #[trigger] data@[a]@ == s_scale(self@, c)[a],
            decreases m - i,
        {
            let mut row: Vec<A> = Vec::new();
            let mut j: usize = 0;
            while j < p
                invariant
                    row@.len() == j,
                    0 <= j <= p,
                    i < m,
                    forall|b: int| 0 <= b < j ==> #[trigger] row@[b] == self@[i as int][b].mul_spec(c),
                decreases p - j,
            {
                row.push(self.get(i, j).mul(c));
                j += 1;
            }
            proof {
                assert(row@ =~= s_scale(self@, c)[i as int]);
            }
            data.push(row);
            i += 1;
        }
        let r = Matrix { cols: p, data };
        proof {
            assert(r@ =~~= s_scale(self@, c));
        }
        r
    }

    /// Swaps the two rows (`axis` 0) or the two columns (`axis` 1) at the
    /// given indices, in place, moving the data through a single transient
    /// scratch slot rather than copying both operands.
    #[verifier::loop_isolation(false)]
    pub fn swap_index_axis(&mut self, axis: usize, idx_source: usize, idx_dest: usize)
        requires
            axis == 0 || axis == 1,
            axis == 0 ==> idx_source < old(self)@.len() && idx_dest < old(self)@.len(),
            axis == 1 ==> idx_source < old(self).cols_spec() && idx_dest < old(self).cols_spec(),
        ensures
            final(self).cols_spec() == old(self).cols_spec(),
            axis == 0 ==> final(self)@ == old(self)@
                .update(idx_source as int, old(self)@[idx_dest as int])
                .update(idx_dest as int, old(self)@[idx_source as int]),
            axis == 1 ==> final(self)@ == Seq::new(old(self)@.len(), |i: int| old(self)@[i]
                .update(idx_source as int, old(self)@[i][idx_dest as int])
                .update(idx_dest as int, old(self)@[i][idx_source as int])),
    {
        proof {
            use_type_invariant(&*self);
        }
        let ghost prior = self@;
        let mut data: Vec<Vec<A>> = Vec::new();
        core::mem::swap(&mut data, &mut self.data);
        if axis == 0 {
            if idx_source != idx_dest {
                let mut tmp: Vec<A> = Vec::new();
                core::mem::swap(&mut tmp, &mut data[idx_source]);
                core::mem::swap(&mut tmp, &mut data[idx_dest]);
                core::mem::swap(&mut tmp, &mut data[idx_source]);
            }
            proof {
                assert(Seq::new(data@.len(), |i: int| data@[i]@) =~~= prior
                    .update(idx_source as int, prior[idx_dest as int])
                    .update(idx_dest as int, prior[idx_source as int]));
            }
        } else {
            let m = data.len();
            let mut i: usize = 0;
            while i < m
                invariant
                    data@.len() == m,
                    0 <= i <= m,
                    forall|a: int| i <= a < m ==> #[trigger] data@[a]@ == prior[a],
                    forall|a: int| 0 <= a < i ==> #[trigger] data@[a]@ == prior[a]
                        .update(idx_source as int, prior[a][idx_dest as int])
                        .update(idx_dest as int, prior[a][idx_source as int]),
                decreases m - i,
            {
                let row = &mut data[i];
                let x = row[idx_source];
                let y = row[idx_dest];
                row[idx_source] = y;
                row[idx_dest] = x;
                proof {
                    assert(data@[i as int]@ =~= prior[i as int]
                        .update(idx_source as int, prior[i as int][idx_dest as int])
                        .update(idx_dest as int, prior[i as int][idx_source as int]));
                }
                i += 1;
            }
            proof {
                assert(Seq::new(data@.len(), |i: int| data@[i]@) =~~= Seq::new(prior.len(),
                    |i: int| prior[i]
                        .update(idx_source as int, prior[i][idx_dest as int])
                        .update(idx_dest as int, prior[i][idx_source as int])));
            }
        }
        core::mem::swap(&mut data, &mut self.data);
    }

    /// The matrix product `self · other`: entry `(i, j)` is the inner
    /// product of row `i` of `self` with column `j` of `other`.
    #[verifier::loop_isolation(false)]
    pub fn matmul(&self, other: &Matrix<A>) -> (r: Matrix<A>)
        requires
            self.cols_spec() == other@.len(),
        ensures
            r@ == s_mul(self@, other@, other.cols_spec()),
            r@.len() == self@.len(),
            r.cols_spec() == other.cols_spec(),
    {
        proof {
            use_type_invariant(&*self);
            use_type_invariant(&*other);
        }
        let m = self.data.len();
        let p = other.cols;
        let inner = self.cols;
        let mut data: Vec<Vec<A>> = Vec::new();
        let mut i: usize = 0;
        while i < m
            invariant
                data@.len() == i,
                0 <= i <= m,
                forall|a: int| 0 <= a < i ==> #[trigger] data@[a]@
                    == s_mul(self@, other@, p as nat)[a],
            decreases m - i,
        {
            let mut row: Vec<A> = Vec::new();
            let mut j: usize = 0;
            while j < p
                invariant
                    row@.len() == j,
                    0 <= j <= p,
                    i < m,
                    forall|b: int| 0 <= b < j ==> #[trigger] row@[b]
                        == s_dot(self@[i as int], other@, b, other@.len()),
                decreases p - j,
            {
                let mut acc = A::zero();
                let mut k: usize = 0;
                while k < inner
                    invariant
                        0 <= k <= inner,
                        i < m,
                        j < p,
                        acc == s_dot(self@[i as int], other@, j as int, k as nat),
                    decreases inner - k,
                {
                    acc = acc.add(self.get(i, k).mul(other.get(k, j)));
                    k += 1;
                }
                row.push(acc);
                j += 1;
            }
            proof {
                assert(row@ =~= s_mul(self@, other@, p as nat)[i as int]);
            }
            data.push(row);
            i += 1;
        }
        let r = Matrix { cols: p, data };
        proof {
            assert(r@ =~~= s_mul(self@, other@, p as nat));
        }
        r
    }
}

} // verus!
