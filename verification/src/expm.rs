//! The matrix exponential via a diagonal Pade approximation.
//!
//! With `p = q = 16` fixed, `e^A` is approximated as `D(A)^-1 · N(A)`,
//! where
//!
//! ```text
//! N(A) = sum over j in 0..=p of c_j * A^j
//! D(A) = sum over j in 0..=q of c_j * (-A)^j
//! c_j  = [(p + q - j)! * p!] / [(p + q)! * j! * (p - j)!]
//! ```
//!
//! (with `p = q` the numerator and denominator share the same
//! coefficients). Cancelling the factorials gives the exact ratio
//!
//! ```text
//! c_j = falling(p, j) / (j! * falling(p + q, j))
//! ```
//!
//! where `falling(n, j) = n * (n - 1) * ... * (n - j + 1)`; the
//! coefficients are handed to the scalar type as exact integer ratios.
//!
//! No scaling-and-squaring preconditioning is applied before the series:
//! this is a known limitation of the fixed-order approximant, and it
//! produces inaccurate or divergent results for matrices of large norm.

use vstd::prelude::*;
use crate::error::LinalgError;
use crate::factorize::Factorize;
use crate::inv::{inverse_of, Inv};
use crate::matrix::Matrix;
use crate::model::{s_add, s_eye, s_mul, s_neg, s_pow, s_scale};
use crate::pow::{pow_nonneg, Identity};
use crate::scalar::Scalar;

verus! {

/// The factorial `n!`.
pub open spec fn spec_fact(n: nat) -> nat
    decreases n,
{
    if n == 0 {
        1
    } else {
        n * spec_fact((n - 1) as nat)
    }
}

/// The falling product `n * (n - 1) * ... * (n - j + 1)`, that is
/// `n! / (n - j)!` for `j <= n`.
pub open spec fn spec_falling(n: nat, j: nat) -> nat
    decreases j,
{
    if j == 0 {
        1
    } else {
        n * spec_falling((n - 1) as nat, (j - 1) as nat)
    }
}

/// Numerator of the exact Pade coefficient `c_j` for diagonal order 16.
pub open spec fn pade_coeff_num(j: nat) -> nat {
    spec_falling(16, j)
}

/// Denominator of the exact Pade coefficient `c_j` for diagonal order 16.
pub open spec fn pade_coeff_den(j: nat) -> nat {
    spec_fact(j) * spec_falling(32, j)
}

/// The coefficient `c_j` converted into the scalar type, when the type can
/// represent it.
pub open spec fn pade_coeff<A: Scalar>(j: nat) -> Option<A> {
    A::from_ratio_spec(pade_coeff_num(j) as u64, pade_coeff_den(j) as u128)
}

/// Whether the scalar type can represent every series coefficient past the
/// identity term.
pub open spec fn coeffs_convertible<A: Scalar>() -> bool {
    forall|j: nat| 1 <= j <= 16 ==> (#[trigger] pade_coeff::<A>(j)) is Some
}

/// The sum of the series terms `c_j * a^j` for `j` up to `t`, the `j = 0`
/// term being the identity of `a`'s order. Meaningful when every needed
/// coefficient converts.
pub open spec fn pade_series<A: Scalar>(a: Seq<Seq<A>>, t: nat) -> Seq<Seq<A>>
    decreases t,
{
    if t == 0 {
        s_eye(a.len())
    } else {
        s_add(pade_series(a, (t - 1) as nat), s_scale(s_pow(a, t), pade_coeff::<A>(t).unwrap()))
    }
}

/// The values of `j!` for `j` up to 16.
proof fn lemma_fact_values()
    ensures
        spec_fact(0) == 1,
        spec_fact(1) == 1,
        spec_fact(2) == 2,
        spec_fact(3) == 6,
        spec_fact(4) == 24,
        spec_fact(5) == 120,
        spec_fact(6) == 720,
        spec_fact(7) == 5040,
        spec_fact(8) == 40320,
        spec_fact(9) == 362880,
        spec_fact(10) == 3628800,
        spec_fact(11) == 39916800,
        spec_fact(12) == 479001600,
        spec_fact(13) == 6227020800,
        spec_fact(14) == 87178291200,
        spec_fact(15) == 1307674368000,
        spec_fact(16) == 20922789888000,
{
    reveal_with_fuel(spec_fact, 2);
    assert(spec_fact(0) == 1);
    assert(spec_fact(1) == 1);
    assert(spec_fact(2) == 2);
    assert(spec_fact(3) == 6);
    assert(spec_fact(4) == 24);
    assert(spec_fact(5) == 120);
    assert(spec_fact(6) == 720);
    assert(spec_fact(7) == 5040);
    assert(spec_fact(8) == 40320);
    assert(spec_fact(9) == 362880);
    assert(spec_fact(10) == 3628800);
    assert(spec_fact(11) == 39916800);
    assert(spec_fact(12) == 479001600);
    assert(spec_fact(13) == 6227020800);
    assert(spec_fact(14) == 87178291200);
    assert(spec_fact(15) == 1307674368000);
    assert(spec_fact(16) == 20922789888000);
}

/// The ascending recurrence of the falling product: one more factor on
/// the right multiplies by `n - j + 1`.
proof fn lemma_falling_step(n: nat, j: nat)
    requires
        1 <= j <= n,
    ensures
        spec_falling(n, j) == spec_falling(n, (j - 1) as nat) * ((n - j + 1) as int),
    decreases j,
{
    reveal_with_fuel(spec_falling, 3);
    if j == 1 {
        assert(spec_falling(n, 1) == n * spec_falling((n - 1) as nat, 0));
        assert(spec_falling((n - 1) as nat, 0) == 1);
        assert(spec_falling(n, 0) == 1);
    } else {
        lemma_falling_step((n - 1) as nat, (j - 1) as nat);
        assert(spec_falling(n, j) == n * spec_falling((n - 1) as nat, (j - 1) as nat));
        assert(spec_falling((n - 1) as nat, (j - 1) as nat) == spec_falling((n - 1) as nat, (
        j - 2) as nat) * ((n - j + 1) as int));
        assert(spec_falling(n, (j - 1) as nat) == n * spec_falling((n - 1) as nat, (
        j - 2) as nat));
        assert(n * (spec_falling((n - 1) as nat, (j - 2) as nat) * ((n - j + 1) as int)) == (n
            * spec_falling((n - 1) as nat, (j - 2) as nat)) * ((n - j + 1) as int))
            by (nonlinear_arith);
    }
}

/// The values of `falling(16, j)` for `j` up to 16.
#[verifier::rlimit(100)]
proof fn lemma_falling16_values()
    ensures
        spec_falling(16, 0) == 1,
        spec_falling(16, 1) == 16,
        spec_falling(16, 2) == 240,
        spec_falling(16, 3) == 3360,
        spec_falling(16, 4) == 43680,
        spec_falling(16, 5) == 524160,
        spec_falling(16, 6) == 5765760,
        spec_falling(16, 7) == 57657600,
        spec_falling(16, 8) == 518918400,
        spec_falling(16, 9) == 4151347200,
        spec_falling(16, 10) == 29059430400,
        spec_falling(16, 11) == 174356582400,
        spec_falling(16, 12) == 871782912000,
        spec_falling(16, 13) == 3487131648000,
        spec_falling(16, 14) == 10461394944000,
        spec_falling(16, 15) == 20922789888000,
        spec_falling(16, 16) == 20922789888000,
{
    assert(spec_falling(16, 0) == 1);
    lemma_falling_step(16, 1);
    assert(spec_falling(16, 1) == 16) by (nonlinear_arith)
        requires
            spec_falling(16, 1) == spec_falling(16, 0) * ((16 - 1 + 1) as int),
            spec_falling(16, 0) == 1,
    ;
    lemma_falling_step(16, 2);
    assert(spec_falling(16, 2) == 240) by (nonlinear_arith)
        requires
            spec_falling(16, 2) == spec_falling(16, 1) * ((16 - 2 + 1) as int),
            spec_falling(16, 1) == 16,
    ;
    lemma_falling_step(16, 3);
    assert(spec_falling(16, 3) == 3360) by (nonlinear_arith)
        requires
            spec_falling(16, 3) == spec_falling(16, 2) * ((16 - 3 + 1) as int),
            spec_falling(16, 2) == 240,
    ;
    lemma_falling_step(16, 4);
    assert(spec_falling(16, 4) == 43680) by (nonlinear_arith)
        requires
            spec_falling(16, 4) == spec_falling(16, 3) * ((16 - 4 + 1) as int),
            spec_falling(16, 3) == 3360,
    ;
    lemma_falling_step(16, 5);
    assert(spec_falling(16, 5) == 524160) by (nonlinear_arith)
        requires
            spec_falling(16, 5) == spec_falling(16, 4) * ((16 - 5 + 1) as int),
            spec_falling(16, 4) == 43680,
    ;
    lemma_falling_step(16, 6);
    assert(spec_falling(16, 6) == 5765760) by (nonlinear_arith)
        requires
            spec_falling(16, 6) == spec_falling(16, 5) * ((16 - 6 + 1) as int),
            spec_falling(16, 5) == 524160,
    ;
    lemma_falling_step(16, 7);
    assert(spec_falling(16, 7) == 57657600) by (nonlinear_arith)
        requires
            spec_falling(16, 7) == spec_falling(16, 6) * ((16 - 7 + 1) as int),
            spec_falling(16, 6) == 5765760,
    ;
    lemma_falling_step(16, 8);
    assert(spec_falling(16, 8) == 518918400) by (nonlinear_arith)
        requires
            spec_falling(16, 8) == spec_falling(16, 7) * ((16 - 8 + 1) as int),
            spec_falling(16, 7) == 57657600,
    ;
    lemma_falling_step(16, 9);
    assert(spec_falling(16, 9) == 4151347200) by (nonlinear_arith)
        requires
            spec_falling(16, 9) == spec_falling(16, 8) * ((16 - 9 + 1) as int),
            spec_falling(16, 8) == 518918400,
    ;
    lemma_falling_step(16, 10);
    assert(spec_falling(16, 10) == 29059430400) by (nonlinear_arith)
        requires
            spec_falling(16, 10) == spec_falling(16, 9) * ((16 - 10 + 1) as int),
            spec_falling(16, 9) == 4151347200,
    ;
    lemma_falling_step(16, 11);
    assert(spec_falling(16, 11) == 174356582400) by (nonlinear_arith)
        requires
            spec_falling(16, 11) == spec_falling(16, 10) * ((16 - 11 + 1) as int),
            spec_falling(16, 10) == 29059430400,
    ;
    lemma_falling_step(16, 12);
    assert(spec_falling(16, 12) == 871782912000) by (nonlinear_arith)
        requires
            spec_falling(16, 12) == spec_falling(16, 11) * ((16 - 12 + 1) as int),
            spec_falling(16, 11) == 174356582400,
    ;
    lemma_falling_step(16, 13);
    assert(spec_falling(16, 13) == 3487131648000) by (nonlinear_arith)
        requires
            spec_falling(16, 13) == spec_falling(16, 12) * ((16 - 13 + 1) as int),
            spec_falling(16, 12) == 871782912000,
    ;
    lemma_falling_step(16, 14);
    assert(spec_falling(16, 14) == 10461394944000) by (nonlinear_arith)
        requires
            spec_falling(16, 14) == spec_falling(16, 13) * ((16 - 14 + 1) as int),
            spec_falling(16, 13) == 3487131648000,
    ;
    lemma_falling_step(16, 15);
    assert(spec_falling(16, 15) == 20922789888000) by (nonlinear_arith)
        requires
            spec_falling(16, 15) == spec_falling(16, 14) * ((16 - 15 + 1) as int),
            spec_falling(16, 14) == 10461394944000,
    ;
    lemma_falling_step(16, 16);
    assert(spec_falling(16, 16) == 20922789888000) by (nonlinear_arith)
        requires
            spec_falling(16, 16) == spec_falling(16, 15) * ((16 - 16 + 1) as int),
            spec_falling(16, 15) == 20922789888000,
    ;
}

/// The values of `falling(32, j)` for `j` up to 16.
#[verifier::rlimit(100)]
proof fn lemma_falling32_values()
    ensures
        spec_falling(32, 0) == 1,
        spec_falling(32, 1) == 32,
        spec_falling(32, 2) == 992,
        spec_falling(32, 3) == 29760,
        spec_falling(32, 4) == 863040,
        spec_falling(32, 5) == 24165120,
        spec_falling(32, 6) == 652458240,
        spec_falling(32, 7) == 16963914240,
        spec_falling(32, 8) == 424097856000,
        spec_falling(32, 9) == 10178348544000,
        spec_falling(32, 10) == 234102016512000,
        spec_falling(32, 11) == 5150244363264000,
        spec_falling(32, 12) == 108155131628544000,
        spec_falling(32, 13) == 2163102632570880000,
        spec_falling(32, 14) == 41098950018846720000,
        spec_falling(32, 15) == 739781100339240960000,
        spec_falling(32, 16) == 12576278705767096320000,
{
    assert(spec_falling(32, 0) == 1);
    lemma_falling_step(32, 1);
    assert(spec_falling(32, 1) == 32) by (nonlinear_arith)
        requires
            spec_falling(32, 1) == spec_falling(32, 0) * ((32 - 1 + 1) as int),
            spec_falling(32, 0) == 1,
    ;
    lemma_falling_step(32, 2);
    assert(spec_falling(32, 2) == 992) by (nonlinear_arith)
        requires
            spec_falling(32, 2) == spec_falling(32, 1) * ((32 - 2 + 1) as int),
            spec_falling(32, 1) == 32,
    ;
    lemma_falling_step(32, 3);
    assert(spec_falling(32, 3) == 29760) by (nonlinear_arith)
        requires
            spec_falling(32, 3) == spec_falling(32, 2) * ((32 - 3 + 1) as int),
            spec_falling(32, 2) == 992,
    ;
    lemma_falling_step(32, 4);
    assert(spec_falling(32, 4) == 863040) by (nonlinear_arith)
        requires
            spec_falling(32, 4) == spec_falling(32, 3) * ((32 - 4 + 1) as int),
            spec_falling(32, 3) == 29760,
    ;
    lemma_falling_step(32, 5);
    assert(spec_falling(32, 5) == 24165120) by (nonlinear_arith)
        requires
            spec_falling(32, 5) == spec_falling(32, 4) * ((32 - 5 + 1) as int),
            spec_falling(32, 4) == 863040,
    ;
    lemma_falling_step(32, 6);
    assert(spec_falling(32, 6) == 652458240) by (nonlinear_arith)
        requires
            spec_falling(32, 6) == spec_falling(32, 5) * ((32 - 6 + 1) as int),
            spec_falling(32, 5) == 24165120,
    ;
    lemma_falling_step(32, 7);
    assert(spec_falling(32, 7) == 16963914240) by (nonlinear_arith)
        requires
            spec_falling(32, 7) == spec_falling(32, 6) * ((32 - 7 + 1) as int),
            spec_falling(32, 6) == 652458240,
    ;
    lemma_falling_step(32, 8);
    assert(spec_falling(32, 8) == 424097856000) by (nonlinear_arith)
        requires
            spec_falling(32, 8) == spec_falling(32, 7) * ((32 - 8 + 1) as int),
            spec_falling(32, 7) == 16963914240,
    ;
    lemma_falling_step(32, 9);
    assert(spec_falling(32, 9) == 10178348544000) by (nonlinear_arith)
        requires
            spec_falling(32, 9) == spec_falling(32, 8) * ((32 - 9 + 1) as int),
            spec_falling(32, 8) == 424097856000,
    ;
    lemma_falling_step(32, 10);
    assert(spec_falling(32, 10) == 234102016512000) by (nonlinear_arith)
        requires
            spec_falling(32, 10) == spec_falling(32, 9) * ((32 - 10 + 1) as int),
            spec_falling(32, 9) == 10178348544000,
    ;
    lemma_falling_step(32, 11);
    assert(spec_falling(32, 11) == 5150244363264000) by (nonlinear_arith)
        requires
            spec_falling(32, 11) == spec_falling(32, 10) * ((32 - 11 + 1) as int),
            spec_falling(32, 10) == 234102016512000,
    ;
    lemma_falling_step(32, 12);
    assert(spec_falling(32, 12) == 108155131628544000) by (nonlinear_arith)
        requires
            spec_falling(32, 12) == spec_falling(32, 11) * ((32 - 12 + 1) as int),
            spec_falling(32, 11) == 5150244363264000,
    ;
    lemma_falling_step(32, 13);
    assert(spec_falling(32, 13) == 2163102632570880000) by (nonlinear_arith)
        requires
            spec_falling(32, 13) == spec_falling(32, 12) * ((32 - 13 + 1) as int),
            spec_falling(32, 12) == 108155131628544000,
    ;
    lemma_falling_step(32, 14);
    assert(spec_falling(32, 14) == 41098950018846720000) by (nonlinear_arith)
        requires
            spec_falling(32, 14) == spec_falling(32, 13) * ((32 - 14 + 1) as int),
            spec_falling(32, 13) == 2163102632570880000,
    ;
    lemma_falling_step(32, 15);
    assert(spec_falling(32, 15) == 739781100339240960000) by (nonlinear_arith)
        requires
            spec_falling(32, 15) == spec_falling(32, 14) * ((32 - 15 + 1) as int),
            spec_falling(32, 14) == 41098950018846720000,
    ;
    lemma_falling_step(32, 16);
    assert(spec_falling(32, 16) == 12576278705767096320000) by (nonlinear_arith)
        requires
            spec_falling(32, 16) == spec_falling(32, 15) * ((32 - 16 + 1) as int),
            spec_falling(32, 15) == 739781100339240960000,
    ;
}
/// The exact integer parts of the coefficient `c_j`: its numerator
/// `falling(16, j)` and denominator `j! * falling(32, j)`.
#[verifier::rlimit(100)]
fn pade_coeff_parts(j: u64) -> (r: (u64, u128))
    requires
        j <= 16,
    ensures
        r.0 == pade_coeff_num(j as nat),
        r.1 == pade_coeff_den(j as nat),
{
    proof {
        lemma_fact_values();
        lemma_falling16_values();
        lemma_falling32_values();
    }
    if j == 0 {
        proof {
            assert(spec_fact(0) * spec_falling(32, 0) == 1 * 1) by (nonlinear_arith)
                requires
                    spec_fact(0) == 1,
                    spec_falling(32, 0) == 1,
            ;
        }
        (1, 1u128 * 1)
    } else if j == 1 {
        proof {
            assert(spec_fact(1) * spec_falling(32, 1) == 1 * 32) by (nonlinear_arith)
                requires
                    spec_fact(1) == 1,
                    spec_falling(32, 1) == 32,
            ;
        }
        (16, 1u128 * 32)
    } else if j == 2 {
        proof {
            assert(spec_fact(2) * spec_falling(32, 2) == 2 * 992) by (nonlinear_arith)
                requires
                    spec_fact(2) == 2,
                    spec_falling(32, 2) == 992,
            ;
        }
        (240, 2u128 * 992)
    } else if j == 3 {
        proof {
            assert(spec_fact(3) * spec_falling(32, 3) == 6 * 29760) by (nonlinear_arith)
                requires
                    spec_fact(3) == 6,
                    spec_falling(32, 3) == 29760,
            ;
        }
        (3360, 6u128 * 29760)
    } else if j == 4 {
        proof {
            assert(spec_fact(4) * spec_falling(32, 4) == 24 * 863040) by (nonlinear_arith)
                requires
                    spec_fact(4) == 24,
                    spec_falling(32, 4) == 863040,
            ;
        }
        (43680, 24u128 * 863040)
    } else if j == 5 {
        proof {
            assert(spec_fact(5) * spec_falling(32, 5) == 120 * 24165120) by (nonlinear_arith)
                requires
                    spec_fact(5) == 120,
                    spec_falling(32, 5) == 24165120,
            ;
        }
        (524160, 120u128 * 24165120)
    } else if j == 6 {
        proof {
            assert(spec_fact(6) * spec_falling(32, 6) == 720 * 652458240) by (nonlinear_arith)
                requires
                    spec_fact(6) == 720,
                    spec_falling(32, 6) == 652458240,
            ;
        }
        (5765760, 720u128 * 652458240)
    } else if j == 7 {
        proof {
            assert(spec_fact(7) * spec_falling(32, 7) == 5040 * 16963914240) by (nonlinear_arith)
                requires
                    spec_fact(7) == 5040,
                    spec_falling(32, 7) == 16963914240,
            ;
        }
        (57657600, 5040u128 * 16963914240)
    } else if j == 8 {
        proof {
            assert(spec_fact(8) * spec_falling(32, 8) == 40320 * 424097856000) by (nonlinear_arith)
                requires
                    spec_fact(8) == 40320,
                    spec_falling(32, 8) == 424097856000,
            ;
        }
        (518918400, 40320u128 * 424097856000)
    } else if j == 9 {
        proof {
            assert(spec_fact(9) * spec_falling(32, 9) == 362880 * 10178348544000) by (nonlinear_arith)
                requires
                    spec_fact(9) == 362880,
                    spec_falling(32, 9) == 10178348544000,
            ;
        }
        (4151347200, 362880u128 * 10178348544000)
    } else if j == 10 {
        proof {
            assert(spec_fact(10) * spec_falling(32, 10) == 3628800 * 234102016512000) by (nonlinear_arith)
                requires
                    spec_fact(10) == 3628800,
                    spec_falling(32, 10) == 234102016512000,
            ;
        }
        (29059430400, 3628800u128 * 234102016512000)
    } else if j == 11 {
        proof {
            assert(spec_fact(11) * spec_falling(32, 11) == 39916800 * 5150244363264000) by (nonlinear_arith)
                requires
                    spec_fact(11) == 39916800,
                    spec_falling(32, 11) == 5150244363264000,
            ;
        }
        (174356582400, 39916800u128 * 5150244363264000)
    } else if j == 12 {
        proof {
            assert(spec_fact(12) * spec_falling(32, 12) == 479001600 * 108155131628544000) by (nonlinear_arith)
                requires
                    spec_fact(12) == 479001600,
                    spec_falling(32, 12) == 108155131628544000,
            ;
        }
        (871782912000, 479001600u128 * 108155131628544000)
    } else if j == 13 {
        proof {
            assert(spec_fact(13) * spec_falling(32, 13) == 6227020800 * 2163102632570880000) by (nonlinear_arith)
                requires
                    spec_fact(13) == 6227020800,
                    spec_falling(32, 13) == 2163102632570880000,
            ;
        }
        (3487131648000, 6227020800u128 * 2163102632570880000)
    } else if j == 14 {
        proof {
            assert(spec_fact(14) * spec_falling(32, 14) == 87178291200 * 41098950018846720000) by (nonlinear_arith)
                requires
                    spec_fact(14) == 87178291200,
                    spec_falling(32, 14) == 41098950018846720000,
            ;
        }
        (10461394944000, 87178291200u128 * 41098950018846720000)
    } else if j == 15 {
        proof {
            assert(spec_fact(15) * spec_falling(32, 15) == 1307674368000 * 739781100339240960000) by (nonlinear_arith)
                requires
                    spec_fact(15) == 1307674368000,
                    spec_falling(32, 15) == 739781100339240960000,
            ;
        }
        (20922789888000, 1307674368000u128 * 739781100339240960000)
    } else {
        proof {
            assert(spec_fact(16) * spec_falling(32, 16) == 20922789888000 * 12576278705767096320000) by (nonlinear_arith)
                requires
                    spec_fact(16) == 20922789888000,
                    spec_falling(32, 16) == 12576278705767096320000,
            ;
        }
        (20922789888000, 20922789888000u128 * 12576278705767096320000)
    }
}

/// Accumulates the truncated series `sum of c_j * a^j` for `j` in
/// `0..=16`, the `j = 0` term being the identity. Fails with
/// `CannotConvertElement` exactly when some coefficient cannot be
/// represented in the scalar type.
#[verifier::loop_isolation(false)]
fn pade_terms<A: Scalar>(a: &Matrix<A>) -> (r: Result<Matrix<A>, LinalgError>)
    requires
        a@.len() == a.cols_spec(),
    ensures
        r matches Ok(m) ==> coeffs_convertible::<A>() && m@ == pade_series(a@, 16)
            && m@.len() == a@.len() && m.cols_spec() == a.cols_spec(),
        r is Err ==> !coeffs_convertible::<A>(),
        r matches Err(e) ==> e matches LinalgError::CannotConvertElement(_, _),
{
    let mut acc = a.eye_like();
    let mut j: u64 = 1;
    while j <= 16
        invariant
            1 <= j <= 17,
            acc@ == pade_series(a@, (j - 1) as nat),
            acc@.len() == a@.len(),
            acc.cols_spec() == a.cols_spec(),
            forall|t: nat| 1 <= t < j ==> (#[trigger] pade_coeff::<A>(t)) is Some,
        decreases 17 - j,
    {
        let parts = pade_coeff_parts(j);
        let c = match A::from_ratio(parts.0, parts.1) {
            Ok(c) => c,
            Err(e) => {
                proof {
                    assert(pade_coeff::<A>(j as nat) is None);
                }
                return Err(e);
            },
        };
        proof {
            assert(pade_coeff::<A>(j as nat) == Some(c));
        }
        let term = pow_nonneg(a, j).scale(c);
        acc = acc.add_matrix(&term);
        j += 1;
    }
    Ok(acc)
}

/// The numerator series `N(A)`: the sum of `c_j * A^j` for `j` in
/// `0..=16`.
pub fn pade_n<A: Scalar>(mtx: &Matrix<A>) -> (r: Result<Matrix<A>, LinalgError>)
    requires
        mtx@.len() == mtx.cols_spec(),
    ensures
        r matches Ok(m) ==> coeffs_convertible::<A>() && m@ == pade_series(mtx@, 16)
            && m@.len() == mtx@.len() && m.cols_spec() == mtx.cols_spec(),
        r is Err ==> !coeffs_convertible::<A>(),
        r matches Err(e) ==> e matches LinalgError::CannotConvertElement(_, _),
{
    pade_terms(mtx)
}

/// The denominator series `D(A)`: the sum of `c_j * (-A)^j` for `j` in
/// `0..=16`.
pub fn pade_d<A: Scalar>(mtx: &Matrix<A>) -> (r: Result<Matrix<A>, LinalgError>)
    requires
        mtx@.len() == mtx.cols_spec(),
    ensures
        r matches Ok(m) ==> coeffs_convertible::<A>() && m@ == pade_series(s_neg(mtx@), 16)
            && m@.len() == mtx@.len() && m.cols_spec() == mtx.cols_spec(),
        r is Err ==> !coeffs_convertible::<A>(),
        r matches Err(e) ==> e matches LinalgError::CannotConvertElement(_, _),
{
    pade_terms(&mtx.neg_matrix())
}

/// Types that support the matrix exponential.
pub trait Expm {
    /// Errors that can result from the [`expm`] method.
    ///
    /// [`expm`]: Expm::expm
    type Error;

    /// Type used to represent the exponential when calling [`expm`].
    ///
    /// [`expm`]: Expm::expm
    type Output;

    /// Returns the matrix exponential of the matrix.
    fn expm(&self) -> Result<Self::Output, Self::Error>;
}

impl<A: Factorize> Expm for Matrix<A> {
    type Error = LinalgError;

    type Output = Matrix<A>;

    /// Approximates `e^A` as `D(A)^-1 · N(A)` with the fixed diagonal Pade
    /// order 16 and no scaling-and-squaring. A rectangular matrix is
    /// reported as `NotSquare` before any series work; a coefficient the
    /// scalar type cannot represent is reported as `CannotConvertElement`;
    /// any failure of the denominator's inversion (such as `Singular`)
    /// propagates unchanged.
    fn expm(&self) -> (r: Result<Matrix<A>, LinalgError>)
        ensures
            self@.len() != self.cols_spec() ==> (r matches Err(e)
                && e == (LinalgError::NotSquare(self@.len() as usize,
                    self.cols_spec() as usize))),
            self@.len() == self.cols_spec() && !coeffs_convertible::<A>() ==> (r matches Err(e)
                && e matches LinalgError::CannotConvertElement(_, _)),
            self@.len() == self.cols_spec() && coeffs_convertible::<A>()
                && !A::inverts(pade_series(s_neg(self@), 16)) ==> r is Err,
            r matches Ok(m) ==> m@.len() == self@.len() && m.cols_spec() == self.cols_spec()
                && m@ == s_mul(inverse_of(pade_series(s_neg(self@), 16)),
                    pade_series(self@, 16), self.cols_spec()),
    {
        match self.require_square() {
            Err(e) => {
                return Err(e);
            },
            Ok(_) => {},
        }
        let n = match pade_n(self) {
            Ok(n) => n,
            Err(e) => {
                return Err(e);
            },
        };
        let d = match pade_d(self) {
            Ok(d) => d,
            Err(e) => {
                return Err(e);
            },
        };
        let d_inv = match d.inv() {
            Ok(m) => m,
            Err(e) => {
                return Err(e);
            },
        };
        let result = d_inv.matmul(&n);
        proof {
            assert(d_inv@ == inverse_of(pade_series(s_neg(self@), 16)));
        }
        Ok(result)
    }
}

} // verus!
