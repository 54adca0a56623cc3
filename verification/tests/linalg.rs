//! Tests for the matrix algebra kernel, instantiated with real and complex
//! floating-point scalars backed by a pivoted Gaussian-elimination solver.

use cauchy::c64;
use cauchy::Scalar as CauchyScalar;
use num_traits::{One, Zero};

use cursed_linalg::array_ext::MatrixExt;
use cursed_linalg::error::LinalgError;
use cursed_linalg::expm::{pade_d, pade_n, Expm};
use cursed_linalg::factorize::{Factorization, Factorize};
use cursed_linalg::inv::Inv;
use cursed_linalg::matrix::Matrix;
use cursed_linalg::pow::{Identity, MatrixPower};
use cursed_linalg::scalar::Scalar;

/// A floating-point (real or complex) element for the library's matrices.
#[derive(Clone, Copy, Debug, PartialEq)]
struct S<T>(T);

impl<T: cauchy::Scalar> Scalar for S<T> {
    fn zero_spec() -> S<T> {
        S(T::zero())
    }

    fn one_spec() -> S<T> {
        S(T::one())
    }

    fn add_spec(self, other: S<T>) -> S<T> {
        S(self.0 + other.0)
    }

    fn mul_spec(self, other: S<T>) -> S<T> {
        S(self.0 * other.0)
    }

    fn neg_spec(self) -> S<T> {
        S(-self.0)
    }

    fn from_ratio_spec(num: u64, den: u128) -> Option<S<T>> {
        T::from(num as f64 / den as f64).map(S)
    }

    fn zero() -> S<T> {
        S(T::zero())
    }

    fn one() -> S<T> {
        S(T::one())
    }

    fn add(self, other: S<T>) -> S<T> {
        S(self.0 + other.0)
    }

    fn mul(self, other: S<T>) -> S<T> {
        S(self.0 * other.0)
    }

    fn neg(self) -> S<T> {
        S(-self.0)
    }

    fn from_ratio(num: u64, den: u128) -> Result<S<T>, LinalgError> {
        match T::from(num as f64 / den as f64) {
            Some(v) => Ok(S(v)),
            None => Err(LinalgError::CannotConvertElement(
                format!("{num} / {den}"),
                "floating-point scalar".to_string(),
            )),
        }
    }
}

/// An LU factorization with partial pivoting: `P · A = L · U` with unit
/// lower-triangular `L`, both factors packed into one square table.
struct Lu<T> {
    n: usize,
    lu: Vec<Vec<T>>,
    piv: Vec<usize>,
}

impl<T: cauchy::Scalar> Factorize for S<T> {
    type Factorization = Lu<T>;

    fn factorize(a: &Matrix<S<T>>) -> Result<Lu<T>, LinalgError> {
        let n = a.rows();
        let mut lu: Vec<Vec<T>> = Vec::new();
        for i in 0..n {
            let mut row: Vec<T> = Vec::new();
            for j in 0..n {
                row.push(a.get(i, j).0);
            }
            lu.push(row);
        }
        let mut piv: Vec<usize> = (0..n).collect();
        for k in 0..n {
            let mut best = k;
            for i in (k + 1)..n {
                if lu[i][k].abs() > lu[best][k].abs() {
                    best = i;
                }
            }
            if !(lu[best][k].abs() > T::Real::zero()) {
                return Err(LinalgError::Singular);
            }
            lu.swap(k, best);
            piv.swap(k, best);
            let pivot = lu[k][k];
            for i in (k + 1)..n {
                let factor = lu[i][k] / pivot;
                lu[i][k] = factor;
                for j in (k + 1)..n {
                    let delta = factor * lu[k][j];
                    lu[i][j] = lu[i][j] - delta;
                }
            }
        }
        Ok(Lu { n, lu, piv })
    }
}

impl<T: cauchy::Scalar> Factorization<S<T>> for Lu<T> {
    fn order_spec(&self) -> usize {
        self.n
    }

    fn order(&self) -> usize {
        self.n
    }

    fn solve_matrix(&self, rhs: &Matrix<S<T>>) -> Result<Matrix<S<T>>, LinalgError> {
        let n = self.n;
        let cols = rhs.cols();
        let mut x: Vec<Vec<T>> = Vec::new();
        for i in 0..n {
            let mut row: Vec<T> = Vec::new();
            for j in 0..cols {
                row.push(rhs.get(self.piv[i], j).0);
            }
            x.push(row);
        }
        for c in 0..cols {
            for i in 1..n {
                for k in 0..i {
                    let delta = self.lu[i][k] * x[k][c];
                    x[i][c] = x[i][c] - delta;
                }
            }
            for i in (0..n).rev() {
                for k in (i + 1)..n {
                    let delta = self.lu[i][k] * x[k][c];
                    x[i][c] = x[i][c] - delta;
                }
                x[i][c] = x[i][c] / self.lu[i][i];
            }
        }
        let rows: Vec<Vec<S<T>>> = x
            .into_iter()
            .map(|row| row.into_iter().map(S).collect())
            .collect();
        match Matrix::from_rows(rows, cols) {
            Some(m) => Ok(m),
            None => Err(LinalgError::Singular),
        }
    }
}

/// An exact-integer element: it can only represent coefficient ratios that
/// divide evenly, so series coefficients fail to convert.
#[derive(Clone, Copy, Debug, PartialEq)]
struct Int(i64);

impl Scalar for Int {
    fn zero_spec() -> Int {
        Int(0)
    }

    fn one_spec() -> Int {
        Int(1)
    }

    fn add_spec(self, other: Int) -> Int {
        Int(self.0 + other.0)
    }

    fn mul_spec(self, other: Int) -> Int {
        Int(self.0 * other.0)
    }

    fn neg_spec(self) -> Int {
        Int(-self.0)
    }

    fn from_ratio_spec(num: u64, den: u128) -> Option<Int> {
        if den != 0 && (num as u128) % den == 0 && num as u128 / den <= i64::MAX as u128 {
            Some(Int((num as u128 / den) as i64))
        } else {
            None
        }
    }

    fn zero() -> Int {
        Int(0)
    }

    fn one() -> Int {
        Int(1)
    }

    fn add(self, other: Int) -> Int {
        Int(self.0 + other.0)
    }

    fn mul(self, other: Int) -> Int {
        Int(self.0 * other.0)
    }

    fn neg(self) -> Int {
        Int(-self.0)
    }

    fn from_ratio(num: u64, den: u128) -> Result<Int, LinalgError> {
        if den != 0 && (num as u128) % den == 0 && num as u128 / den <= i64::MAX as u128 {
            Ok(Int((num as u128 / den) as i64))
        } else {
            Err(LinalgError::CannotConvertElement(
                format!("{num} / {den}"),
                "Int".to_string(),
            ))
        }
    }
}

struct NoFactor;

impl Factorization<Int> for NoFactor {
    fn order_spec(&self) -> usize {
        0
    }

    fn order(&self) -> usize {
        0
    }

    fn solve_matrix(&self, _rhs: &Matrix<Int>) -> Result<Matrix<Int>, LinalgError> {
        Err(LinalgError::Singular)
    }
}

impl Factorize for Int {
    type Factorization = NoFactor;

    fn factorize(_a: &Matrix<Int>) -> Result<NoFactor, LinalgError> {
        Err(LinalgError::Singular)
    }
}

fn mat_f(rows: Vec<Vec<f64>>) -> Matrix<S<f64>> {
    let cols = rows[0].len();
    let data: Vec<Vec<S<f64>>> = rows
        .into_iter()
        .map(|r| r.into_iter().map(S).collect())
        .collect();
    Matrix::from_rows(data, cols).unwrap()
}

fn mat_c(rows: Vec<Vec<c64>>) -> Matrix<S<c64>> {
    let cols = rows[0].len();
    let data: Vec<Vec<S<c64>>> = rows
        .into_iter()
        .map(|r| r.into_iter().map(S).collect())
        .collect();
    Matrix::from_rows(data, cols).unwrap()
}

fn assert_close_f(m: &Matrix<S<f64>>, expected: &[&[f64]], tol: f64) {
    assert_eq!(m.rows(), expected.len());
    for i in 0..m.rows() {
        assert_eq!(m.cols(), expected[i].len());
        for j in 0..m.cols() {
            let d = (m.get(i, j).0 - expected[i][j]).abs();
            assert!(d <= tol, "entry ({i}, {j}): {} vs {}", m.get(i, j).0, expected[i][j]);
        }
    }
}

fn assert_exact_f(m: &Matrix<S<f64>>, expected: &[&[f64]]) {
    assert_eq!(m.rows(), expected.len());
    for i in 0..m.rows() {
        assert_eq!(m.cols(), expected[i].len());
        for j in 0..m.cols() {
            assert_eq!(m.get(i, j).0, expected[i][j], "entry ({i}, {j})");
        }
    }
}

#[test]
fn upper_triangular_works() {
    let mtx = mat_f(vec![
        vec![6.0, 18.0, 3.0],
        vec![2.0, 12.0, 1.0],
        vec![4.0, 15.0, 3.0],
    ]);
    let upper = mtx.upper_triangular();
    assert_exact_f(&upper, &[
        &[0.0, 18.0, 3.0],
        &[0.0, 0.0, 1.0],
        &[0.0, 0.0, 0.0],
    ]);
}

#[test]
fn lower_triangular_works() {
    let mtx = mat_f(vec![
        vec![6.0, 18.0, 3.0],
        vec![2.0, 12.0, 1.0],
        vec![4.0, 15.0, 3.0],
    ]);
    let lower = mtx.lower_triangular();
    assert_exact_f(&lower, &[
        &[6.0, 0.0, 0.0],
        &[2.0, 12.0, 0.0],
        &[4.0, 15.0, 3.0],
    ]);
}

#[test]
fn inv_works_f64() -> Result<(), LinalgError> {
    let mtx = mat_f(vec![
        vec![6.0, 18.0, 3.0],
        vec![2.0, 12.0, 1.0],
        vec![4.0, 15.0, 3.0],
    ]);
    let inv = mtx.inv()?;
    println!("{:?}", inv);
    Ok(())
}

#[test]
fn inv_works_c64() -> Result<(), LinalgError> {
    let mtx = mat_c(vec![
        vec![c64::zero(), c64::new(0.0, 1.0), c64::new(2.0, 0.0)],
        vec![c64::new(0.0, 3.0), c64::new(4.0, 0.0), c64::new(0.0, 5.0)],
        vec![c64::new(6.0, 0.0), c64::new(0.0, 7.0), c64::new(8.0, 0.0)],
    ]);
    let inv = mtx.inv()?;
    let expected = [
        [
            c64::new(-0.69791667, 0.),
            c64::new(0., -0.0625),
            c64::new(0.13541667, 0.),
        ],
        [
            c64::new(0., -0.0625),
            c64::new(0.125, 0.),
            c64::new(0., -0.0625),
        ],
        [
            c64::new(0.46875, 0.),
            c64::new(0., -0.0625),
            c64::new(-0.03125, 0.),
        ],
    ];
    for i in 0..3 {
        for j in 0..3 {
            let d = (inv.get(i, j).0 - expected[i][j]).abs();
            assert!(d <= 1e-6, "entry ({i}, {j}): {} vs {}", inv.get(i, j).0, expected[i][j]);
        }
    }
    Ok(())
}

#[test]
fn pauli_x_squares_to_ident() -> Result<(), LinalgError> {
    let x = mat_f(vec![vec![0.0, 1.0], vec![1.0, 0.0]]);
    let actual = x.matrix_power(2)?;
    assert_close_f(&actual, &[&[1.0, 0.0], &[0.0, 1.0]], 1e-6);
    Ok(())
}

/// The fixed-order diagonal Pade path, on a generator of a simple rotation:
/// `expm(diag(-i, i))` should be `diag(e^-i, e^i)`. With no
/// scaling-and-squaring preconditioning this fixed-order approximant is
/// only trustworthy for matrices of small norm such as this one; feeding it
/// a matrix with large-magnitude eigenvalues produces inaccurate or
/// divergent results by design.
#[test]
fn expm_works_for_rz() -> Result<(), LinalgError> {
    let hz_rows = vec![
        vec![c64::new(0.0, -1.0) * c64::one(), c64::zero()],
        vec![c64::zero(), c64::new(0.0, -1.0) * -c64::one()],
    ];
    let hz = mat_c(hz_rows);
    let u = hz.expm()?;
    println!("{:?}", u);
    let expected = [
        [c64::new(1.0f64.cos(), -(1.0f64.sin())), c64::zero()],
        [c64::zero(), c64::new(1.0f64.cos(), 1.0f64.sin())],
    ];
    for i in 0..2 {
        for j in 0..2 {
            let d = (u.get(i, j).0 - expected[i][j]).abs();
            assert!(d <= 1e-9, "entry ({i}, {j}): {} vs {}", u.get(i, j).0, expected[i][j]);
        }
    }
    Ok(())
}

#[test]
fn expm_of_scalar_one_matches_e() {
    let a = mat_f(vec![vec![1.0]]);
    let u = a.expm().unwrap();
    assert_close_f(&u, &[&[std::f64::consts::E]], 1e-12);
}

#[test]
fn expm_of_zero_is_identity() {
    let a = mat_f(vec![vec![0.0, 0.0], vec![0.0, 0.0]]);
    let u = a.expm().unwrap();
    assert_close_f(&u, &[&[1.0, 0.0], &[0.0, 1.0]], 1e-12);
}

#[test]
fn inv_of_inv_roundtrips() {
    let a = mat_f(vec![
        vec![6.0, 18.0, 3.0],
        vec![2.0, 12.0, 1.0],
        vec![4.0, 15.0, 3.0],
    ]);
    let back = a.inv().unwrap().inv().unwrap();
    assert_close_f(&back, &[
        &[6.0, 18.0, 3.0],
        &[2.0, 12.0, 1.0],
        &[4.0, 15.0, 3.0],
    ], 1e-9);
}

#[test]
fn inv_times_self_is_identity() {
    let a = mat_f(vec![
        vec![6.0, 18.0, 3.0],
        vec![2.0, 12.0, 1.0],
        vec![4.0, 15.0, 3.0],
    ]);
    let inv = a.inv().unwrap();
    let product = inv.matmul(&a);
    assert_close_f(&product, &[
        &[1.0, 0.0, 0.0],
        &[0.0, 1.0, 0.0],
        &[0.0, 0.0, 1.0],
    ], 1e-12);
}

#[test]
fn pow_zero_is_identity() {
    let a = mat_f(vec![vec![3.0, 1.0], vec![2.0, 5.0]]);
    let p = a.matrix_power(0).unwrap();
    assert_exact_f(&p, &[&[1.0, 0.0], &[0.0, 1.0]]);
}

#[test]
fn pow_zero_of_rectangular_is_identity_like() {
    // The one deliberate exception to eager squareness validation: a zero
    // power returns the identity sized by the smaller dimension.
    let a = mat_f(vec![vec![3.0, 1.0, 4.0], vec![2.0, 5.0, 6.0]]);
    let p = a.matrix_power(0).unwrap();
    assert_exact_f(&p, &[&[1.0, 0.0], &[0.0, 1.0]]);
}

#[test]
fn pow_is_repeated_left_to_right_product() {
    let a = mat_f(vec![vec![1.0, 2.0], vec![3.0, 4.0]]);
    let squared = a.matrix_power(2).unwrap();
    assert_exact_f(&squared, &[&[7.0, 10.0], &[15.0, 22.0]]);
    let cubed = a.matrix_power(3).unwrap();
    assert_exact_f(&cubed, &[&[37.0, 54.0], &[81.0, 118.0]]);
    let step = squared.matmul(&a);
    assert_exact_f(&step, &[&[37.0, 54.0], &[81.0, 118.0]]);
}

#[test]
fn pow_negative_matches_power_of_inverse() {
    let a = mat_f(vec![vec![2.0, 1.0], vec![1.0, 1.0]]);
    let direct = a.matrix_power(-2).unwrap();
    let via_inverse = a.inv().unwrap().matrix_power(2).unwrap();
    for i in 0..2 {
        for j in 0..2 {
            let d = (direct.get(i, j).0 - via_inverse.get(i, j).0).abs();
            assert!(d <= 1e-12);
        }
    }
    assert_close_f(&direct, &[&[2.0, -3.0], &[-3.0, 5.0]], 1e-12);
}

#[test]
fn non_square_is_rejected() {
    let m = mat_f(vec![vec![1.0, 2.0, 3.0], vec![4.0, 5.0, 6.0]]);
    assert!(matches!(m.inv(), Err(LinalgError::NotSquare(2, 3))));
    assert!(matches!(m.matrix_power(2), Err(LinalgError::NotSquare(2, 3))));
    assert!(matches!(m.matrix_power(-1), Err(LinalgError::NotSquare(2, 3))));
    assert!(matches!(m.expm(), Err(LinalgError::NotSquare(2, 3))));
    assert!(matches!(m.require_square(), Err(LinalgError::NotSquare(2, 3))));
    let sq = mat_f(vec![vec![1.0, 2.0], vec![3.0, 4.0]]);
    assert_eq!(sq.require_square().unwrap(), 2);
}

#[test]
fn singular_matrix_is_reported() {
    let m = mat_f(vec![vec![1.0, 2.0], vec![2.0, 4.0]]);
    assert!(matches!(m.inv(), Err(LinalgError::Singular)));
    assert!(matches!(m.matrix_power(-1), Err(LinalgError::Singular)));
}

#[test]
fn unrepresentable_coefficient_is_reported() {
    let m = Matrix::from_rows(vec![vec![Int(1)]], 1).unwrap();
    assert!(matches!(m.expm(), Err(LinalgError::CannotConvertElement(_, _))));
}

#[test]
fn eye_has_unit_diagonal() {
    let empty: Matrix<S<f64>> = Matrix::eye(0);
    assert_eq!(empty.rows(), 0);
    assert_eq!(empty.cols(), 0);
    let id: Matrix<S<f64>> = Matrix::eye(4);
    for i in 0..4 {
        for j in 0..4 {
            let want = if i == j { 1.0 } else { 0.0 };
            assert_eq!(id.get(i, j).0, want);
        }
    }
    let rect = mat_f(vec![vec![1.0, 2.0, 3.0], vec![4.0, 5.0, 6.0]]);
    let like = rect.eye_like();
    assert_exact_f(&like, &[&[1.0, 0.0], &[0.0, 1.0]]);
}

#[test]
fn swap_index_axis_swaps_rows_and_columns() {
    let mut m = mat_f(vec![vec![1.0, 2.0, 3.0], vec![4.0, 5.0, 6.0]]);
    m.swap_index_axis(0, 0, 1);
    assert_exact_f(&m, &[&[4.0, 5.0, 6.0], &[1.0, 2.0, 3.0]]);
    m.swap_index_axis(1, 0, 2);
    assert_exact_f(&m, &[&[6.0, 5.0, 4.0], &[3.0, 2.0, 1.0]]);
}

#[test]
fn pade_series_starts_at_identity_and_mirrors_sign() {
    let zero = mat_f(vec![vec![0.0]]);
    assert_eq!(pade_n(&zero).unwrap().get(0, 0).0, 1.0);
    assert_eq!(pade_d(&zero).unwrap().get(0, 0).0, 1.0);
    let one = mat_f(vec![vec![1.0]]);
    let minus_one = mat_f(vec![vec![-1.0]]);
    let d_at_one = pade_d(&one).unwrap().get(0, 0).0;
    let n_at_minus_one = pade_n(&minus_one).unwrap().get(0, 0).0;
    assert_eq!(d_at_one, n_at_minus_one);
    let n_at_one = pade_n(&one).unwrap().get(0, 0).0;
    assert!(n_at_one > d_at_one);
}

#[test]
fn from_rows_rejects_ragged_input() {
    let ragged: Option<Matrix<S<f64>>> =
        Matrix::from_rows(vec![vec![S(1.0)], vec![S(1.0), S(2.0)]], 1);
    assert!(ragged.is_none());
    let wrong_width: Option<Matrix<S<f64>>> = Matrix::from_rows(vec![vec![S(1.0)]], 2);
    assert!(wrong_width.is_none());
}
