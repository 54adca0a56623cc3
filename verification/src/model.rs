//! The mathematical model of dense matrices: a matrix is a sequence of rows,
//! and the algebraic operations are defined over that model. Contracts of
//! the executable operations are stated against these functions.

use vstd::prelude::*;
use crate::scalar::Scalar;

verus! {

/// The smaller of two dimensions: the order of the identity matrix "like"
/// a possibly rectangular matrix.
pub open spec fn min_order(r: nat, c: nat) -> nat {
    if r <= c {
        r
    } else {
        c
    }
}

/// The identity matrix of order `n`: `1` on the diagonal, `0` elsewhere.
pub open spec fn s_eye<A: Scalar>(n: nat) -> Seq<Seq<A>> {
    Seq::new(n, |i: int| Seq::new(n, |j: int| if i == j {
        A::one_spec()
    } else {
        A::zero_spec()
    }))
}

/// Elementwise sum of two matrices of the same shape.
pub open spec fn s_add<A: Scalar>(a: Seq<Seq<A>>, b: Seq<Seq<A>>) -> Seq<Seq<A>> {
    Seq::new(a.len(), |i: int| Seq::new(a[i].len(), |j: int| a[i][j].add_spec(b[i][j])))
}

/// Elementwise negation of a matrix.
pub open spec fn s_neg<A: Scalar>(a: Seq<Seq<A>>) -> Seq<Seq<A>> {
    Seq::new(a.len(), |i: int| Seq::new(a[i].len(), |j: int| a[i][j].neg_spec()))
}

/// A matrix scaled elementwise by `c` (each element multiplied by `c` on
/// the right).
pub open spec fn s_scale<A: Scalar>(a: Seq<Seq<A>>, c: A) -> Seq<Seq<A>> {
    Seq::new(a.len(), |i: int| Seq::new(a[i].len(), |j: int| a[i][j].mul_spec(c)))
}

/// The sum of the first `k` products `row[t] * b[t][j]`: the inner product
/// of a row with column `j` of `b`, accumulated in ascending order.
pub open spec fn s_dot<A: Scalar>(row: Seq<A>, b: Seq<Seq<A>>, j: int, k: nat) -> A
    decreases k,
{
    if k == 0 {
        A::zero_spec()
    } else {
        s_dot(row, b, j, (k - 1) as nat).add_spec(row[k - 1].mul_spec(b[k - 1][j]))
    }
}

/// The matrix product of `a` (shape `m × k`) and `b` (shape `k × p`):
/// entry `(i, j)` is the inner product of row `i` of `a` with column `j`
/// of `b`. The column count `p` is passed explicitly so that the shape is
/// meaningful even when `b` has no rows.
pub open spec fn s_mul<A: Scalar>(a: Seq<Seq<A>>, b: Seq<Seq<A>>, p: nat) -> Seq<Seq<A>> {
    Seq::new(a.len(), |i: int| Seq::new(p, |j: int| s_dot(a[i], b, j, b.len())))
}

/// The `n`-th power of a square matrix `a`, built in left-to-right order:
/// the zeroth power is the identity of `a`'s order, and each further power
/// multiplies the accumulated product by `a` on the right.
pub open spec fn s_pow<A: Scalar>(a: Seq<Seq<A>>, n: nat) -> Seq<Seq<A>>
    decreases n,
{
    if n == 0 {
        s_eye(a.len())
    } else {
        s_mul(s_pow(a, (n - 1) as nat), a, a.len())
    }
}

/// The laws a scalar's identities are expected to obey: `0` is neutral for
/// addition on either side, `1` is a left identity of multiplication, and
/// `0` annihilates on the left. The algebraic lemmas below hold for every
/// scalar type satisfying them.
pub open spec fn scalar_identity_laws<A: Scalar>() -> bool {
    &&& forall|x: A| #[trigger] A::zero_spec().add_spec(x) == x
    &&& forall|x: A| #[trigger] x.add_spec(A::zero_spec()) == x
    &&& forall|x: A| #[trigger] A::one_spec().mul_spec(x) == x
    &&& forall|x: A| #[trigger] A::zero_spec().mul_spec(x) == A::zero_spec()
}

/// The inner product of row `i` of the identity with column `j` of `a`
/// picks out `a[i][j]`: the partial sums are `0` until the diagonal `1`
/// has been passed, and `a[i][j]` from then on.
proof fn lemma_dot_eye<A: Scalar>(a: Seq<Seq<A>>, n: nat, i: int, j: int, k: nat)
    requires
        scalar_identity_laws::<A>(),
        0 <= i < n,
        a.len() == n,
        k <= n,
    ensures
        s_dot(s_eye::<A>(n)[i], a, j, k) == if k <= i {
            A::zero_spec()
        } else {
            a[i][j]
        },
    decreases k,
{
    if k > 0 {
        lemma_dot_eye::<A>(a, n, i, j, (k - 1) as nat);
        let row = s_eye::<A>(n)[i];
        if k - 1 < i {
            assert(row[k - 1] == A::zero_spec());
            assert(A::zero_spec().mul_spec(a[k - 1][j]) == A::zero_spec());
            assert(A::zero_spec().add_spec(A::zero_spec()) == A::zero_spec());
        } else if k - 1 == i {
            assert(row[k - 1] == A::one_spec());
            assert(A::one_spec().mul_spec(a[i][j]) == a[i][j]);
            assert(A::zero_spec().add_spec(a[i][j]) == a[i][j]);
        } else {
            assert(row[k - 1] == A::zero_spec());
            assert(A::zero_spec().mul_spec(a[k - 1][j]) == A::zero_spec());
            assert(a[i][j].add_spec(A::zero_spec()) == a[i][j]);
        }
    }
}

/// For every scalar type obeying the identity laws, the identity matrix
/// is a left identity of the matrix product.
pub proof fn lemma_eye_is_left_identity<A: Scalar>(a: Seq<Seq<A>>, p: nat)
    requires
        scalar_identity_laws::<A>(),
        forall|i: int| 0 <= i < a.len() ==> (#[trigger] a[i]).len() == p,
    ensures
        s_mul(s_eye::<A>(a.len()), a, p) == a,
{
    let n = a.len();
    assert forall|i: int| 0 <= i < n implies #[trigger] s_mul(s_eye::<A>(n), a, p)[i]
        == a[i] by {
        assert forall|j: int| 0 <= j < p implies #[trigger] s_mul(s_eye::<A>(n), a, p)[i][j]
            == a[i][j] by {
            lemma_dot_eye::<A>(a, n, i, j, n);
        };
        assert(s_mul(s_eye::<A>(n), a, p)[i] =~= a[i]);
    };
    assert(s_mul(s_eye::<A>(n), a, p) =~= a);
}

/// For every scalar type obeying the identity laws, the first power of a
/// square matrix is the matrix itself — so the `n`-th power is the
/// left-to-right product of `n` copies of the matrix, not merely a
/// product seeded by the identity.
pub proof fn lemma_pow_one<A: Scalar>(a: Seq<Seq<A>>)
    requires
        scalar_identity_laws::<A>(),
        forall|i: int| 0 <= i < a.len() ==> (#[trigger] a[i]).len() == a.len(),
    ensures
        s_pow(a, 1) == a,
{
    lemma_pow_succ(a, 0);
    lemma_eye_is_left_identity::<A>(a, a.len());
}

/// The identity of any order `k` is square with `1` on every diagonal
/// entry and `0` everywhere else; order `0` gives a valid zero-by-zero
/// matrix.
pub proof fn lemma_eye_entries<A: Scalar>(k: nat)
    ensures
        s_eye::<A>(k).len() == k,
        forall|i: int| 0 <= i < k ==> (#[trigger] s_eye::<A>(k)[i]).len() == k,
        forall|i: int| 0 <= i < k ==> #[trigger] s_eye::<A>(k)[i][i] == A::one_spec(),
        forall|i: int, j: int| 0 <= i < k && 0 <= j < k && i != j
            ==> #[trigger] s_eye::<A>(k)[i][j] == A::zero_spec(),
{
}

/// The zeroth power of any matrix is the identity of its order.
pub proof fn lemma_pow_zero<A: Scalar>(a: Seq<Seq<A>>)
    ensures
        s_pow(a, 0) == s_eye::<A>(a.len()),
{
}

/// Raising to the power `n + 1` multiplies the `n`-th power by `a` once
/// more on the right: powers accumulate in left-to-right order.
pub proof fn lemma_pow_succ<A: Scalar>(a: Seq<Seq<A>>, n: nat)
    ensures
        s_pow(a, n + 1) == s_mul(s_pow(a, n), a, a.len()),
{
    assert(s_pow(a, n + 1) == s_mul(s_pow(a, (n + 1 - 1) as nat), a, a.len()));
}

} // verus!
