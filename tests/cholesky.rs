use rulinalg::cholesky::{transpose_back_substitution, Cholesky, Real};
use rulinalg::error::ErrorKind;
use rulinalg::matrix::Matrix;

#[derive(Clone, Copy, Debug, PartialEq)]
struct F(f64);

impl Real for F {
    fn spec_zero() -> F {
        F(0.0)
    }

    fn spec_one() -> F {
        F(1.0)
    }

    fn spec_epsilon() -> F {
        F(f64::EPSILON)
    }

    fn spec_plus(self, other: F) -> F {
        F(self.0 + other.0)
    }

    fn spec_minus(self, other: F) -> F {
        F(self.0 - other.0)
    }

    fn spec_times(self, other: F) -> F {
        F(self.0 * other.0)
    }

    fn spec_over(self, other: F) -> F {
        F(self.0 / other.0)
    }

    fn spec_sqrt(self) -> F {
        F(self.0.sqrt())
    }

    fn spec_abs(self) -> F {
        F(self.0.abs())
    }

    fn spec_less_than(self, other: F) -> bool {
        self.0 < other.0
    }

    fn zero() -> F {
        F::spec_zero()
    }

    fn one() -> F {
        F::spec_one()
    }

    fn epsilon() -> F {
        F::spec_epsilon()
    }

    fn plus(self, other: F) -> F {
        self.spec_plus(other)
    }

    fn minus(self, other: F) -> F {
        self.spec_minus(other)
    }

    fn times(self, other: F) -> F {
        self.spec_times(other)
    }

    fn over(self, other: F) -> F {
        self.spec_over(other)
    }

    fn sqrt(self) -> F {
        self.spec_sqrt()
    }

    fn abs(self) -> F {
        self.spec_abs()
    }

    fn less_than(self, other: F) -> bool {
        self.spec_less_than(other)
    }
}

fn mat(rows: usize, cols: usize, values: &[f64]) -> Matrix<F> {
    Matrix::new(rows, cols, values.iter().map(|&v| F(v)).collect())
}

fn vector(values: &[f64]) -> Vec<F> {
    values.iter().map(|&v| F(v)).collect()
}

fn identity(n: usize) -> Matrix<F> {
    let mut data = Vec::new();
    for i in 0..n {
        for j in 0..n {
            data.push(F(if i == j { 1.0 } else { 0.0 }));
        }
    }
    Matrix::new(n, n, data)
}

fn assert_mat_close(a: &Matrix<F>, b: &Matrix<F>, tol: f64) {
    assert_eq!((a.rows(), a.cols()), (b.rows(), b.cols()));
    for i in 0..a.rows() {
        for j in 0..a.cols() {
            let (x, y) = (a.get(i, j).0, b.get(i, j).0);
            assert!((x - y).abs() <= tol, "({}, {}): {} vs {}", i, j, x, y);
        }
    }
}

fn assert_vec_close(a: &[F], b: &[F], tol: f64) {
    assert_eq!(a.len(), b.len());
    for (x, y) in a.iter().zip(b.iter()) {
        assert!((x.0 - y.0).abs() <= tol, "{} vs {}", x.0, y.0);
    }
}

#[test]
fn cholesky_unpack_empty() {
    let x = mat(0, 0, &[]);
    let l = Cholesky::decompose(x.clone()).unwrap().unpack();
    assert_mat_close(&l, &x, 0.0);
}

#[test]
fn cholesky_unpack_1x1() {
    let x = mat(1, 1, &[4.0]);
    let expected = mat(1, 1, &[2.0]);
    let l = Cholesky::decompose(x).unwrap().unpack();
    assert_mat_close(&l, &expected, 1e-14);
}

#[test]
fn cholesky_unpack_2x2() {
    let x = mat(2, 2, &[9.0, -6.0, -6.0, 20.0]);
    let expected = mat(2, 2, &[3.0, 0.0, -2.0, 4.0]);
    let l = Cholesky::decompose(x).unwrap().unpack();
    assert_mat_close(&l, &expected, 1e-14);
}

#[test]
fn cholesky_singular_fails() {
    {
        let x = mat(1, 1, &[0.0]);
        assert!(Cholesky::decompose(x).is_err());
    }
    {
        let x = mat(2, 2, &[0.0, 0.0, 0.0, 1.0]);
        assert!(Cholesky::decompose(x).is_err());
    }
    {
        let x = mat(2, 2, &[1.0, 0.0, 0.0, 0.0]);
        assert!(Cholesky::decompose(x).is_err());
    }
    {
        let x = mat(3, 3, &[1.0, 3.0, 5.0, 3.0, 9.0, 15.0, 5.0, 15.0, 65.0]);
        assert!(Cholesky::decompose(x).is_err());
    }
}

#[test]
fn negative_definite_input_is_a_decomposition_failure() {
    let x = mat(2, 2, &[-4.0, 0.0, 0.0, 1.0]);
    match Cholesky::decompose(x) {
        Err(e) => {
            assert_eq!(e.kind, ErrorKind::DecompFailure);
            assert_eq!(e.description, "Diagonal entries of matrix are not all positive.");
        }
        Ok(_) => panic!("expected a failure"),
    }
    match Cholesky::decompose(mat(1, 1, &[0.0])) {
        Err(e) => {
            assert_eq!(e.kind, ErrorKind::DecompFailure);
            assert_eq!(e.description, "Matrix is singular to working precision.");
        }
        Ok(_) => panic!("expected a failure"),
    }
}

#[test]
fn det_is_square_of_diagonal_product() {
    let x = mat(2, 2, &[4.0, 2.0, 2.0, 10.0]);
    let c = Cholesky::decompose(x).unwrap();
    assert_eq!(c.dim(), 2);
    // L = [[2, 0], [1, 3]], so det = (2 * 3)^2.
    assert!((c.det().0 - 36.0).abs() < 1e-12);
}

#[test]
fn cholesky_det_empty() {
    let x = mat(0, 0, &[]);
    let cholesky = Cholesky::decompose(x).unwrap();
    assert_eq!(cholesky.det().0, 1.0);
}

#[test]
fn cholesky_det() {
    {
        let x = mat(1, 1, &[1.0]);
        let cholesky = Cholesky::decompose(x).unwrap();
        let diff = cholesky.det().0 - 1.0;
        assert!(diff.abs() < 1e-14);
    }
    {
        let x = mat(3, 3, &[1.0, 3.0, 5.0, 3.0, 18.0, 33.0, 5.0, 33.0, 65.0]);
        let cholesky = Cholesky::decompose(x).unwrap();
        let diff = cholesky.det().0 - 36.0;
        assert!(diff.abs() < 1e-14);
    }
}

#[test]
fn cholesky_solve_examples() {
    {
        let a = mat(1, 1, &[1.0]);
        let b = vector(&[4.0]);
        let expected = vector(&[4.0]);
        let cholesky = Cholesky::decompose(a).unwrap();
        let x = cholesky.solve(b).unwrap();
        assert_vec_close(&x, &expected, 1e-14);
    }
    {
        let a = mat(2, 2, &[4.0, 6.0, 6.0, 25.0]);
        let b = vector(&[2.0, 4.0]);
        let expected = vector(&[0.40625, 0.0625]);
        let cholesky = Cholesky::decompose(a).unwrap();
        let x = cholesky.solve(b).unwrap();
        assert_vec_close(&x, &expected, 1e-10);
    }
}

#[test]
fn transpose_back_substitution_examples() {
    {
        let l = mat(0, 0, &[]);
        let x = transpose_back_substitution(&l, vector(&[])).unwrap();
        assert!(x.is_empty());
    }
    {
        let l = mat(1, 1, &[2.0]);
        let x = transpose_back_substitution(&l, vector(&[2.0])).unwrap();
        assert_vec_close(&x, &vector(&[1.0]), 1e-14);
    }
    {
        let l = mat(2, 2, &[2.0, 0.0, 3.0, 4.0]);
        let x = transpose_back_substitution(&l, vector(&[2.0, 1.0])).unwrap();
        assert_vec_close(&x, &vector(&[0.625, 0.25]), 1e-14);
    }
    {
        let l = mat(3, 3, &[2.0, 0.0, 0.0, 5.0, -1.0, 0.0, -2.0, 0.0, 1.0]);
        let x = transpose_back_substitution(&l, vector(&[-1.0, 2.0, 3.0])).unwrap();
        assert_vec_close(&x, &vector(&[7.5, -2.0, 3.0]), 1e-14);
    }
}

#[test]
fn transpose_back_substitution_singular_is_division_by_zero() {
    let l = mat(2, 2, &[1.0, 0.0, 3.0, 0.0]);
    match transpose_back_substitution(&l, vector(&[1.0, 1.0])) {
        Err(e) => assert_eq!(e.kind, ErrorKind::DivByZero),
        Ok(_) => panic!("expected a failure"),
    }
}

#[test]
fn cholesky_of_identity_is_identity() {
    for n in 0..=30 {
        let x = identity(n);
        let l = Cholesky::decompose(x.clone()).unwrap().unpack();
        assert_mat_close(&l, &x, 0.0);
    }
}

#[test]
fn factor_reconstructs_input() {
    let a = mat(3, 3, &[1.0, 3.0, 5.0, 3.0, 18.0, 33.0, 5.0, 33.0, 65.0]);
    let l = a.cholesky().unwrap();
    let n = 3;
    let mut product = Vec::new();
    for i in 0..n {
        for j in 0..n {
            let mut s = 0.0;
            for k in 0..n {
                s += l.get(i, k).0 * l.get(j, k).0;
            }
            product.push(F(s));
        }
    }
    assert_mat_close(&Matrix::new(n, n, product), &a, 1e-12);
    assert_eq!(l.get(0, 1).0, 0.0);
    assert_eq!(l.get(1, 2).0, 0.0);
}

#[test]
fn upper_triangle_of_input_is_not_read() {
    let a = mat(2, 2, &[9.0, -6.0, -6.0, 20.0]);
    let b = mat(2, 2, &[9.0, 1000.0, -6.0, 20.0]);
    let la = Cholesky::decompose(a).unwrap().unpack();
    let lb = Cholesky::decompose(b).unwrap().unpack();
    assert_mat_close(&la, &lb, 0.0);
    assert_eq!(lb.get(0, 1).0, 0.0);
}
