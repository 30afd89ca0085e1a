use rulinalg::matrix::Matrix;
use rulinalg::permutation::{Permutation, PermutationMatrix};

fn entries(m: &Matrix<i64>) -> Vec<i64> {
    let mut out = Vec::new();
    for i in 0..m.rows() {
        for j in 0..m.cols() {
            out.push(*m.get(i, j));
        }
    }
    out
}

#[test]
fn identity_permutation_maps_each_index_to_itself() {
    let p = Permutation::identity(4);
    assert_eq!(p.cardinality(), 4);
    for i in 0..4 {
        assert_eq!(p.image(i), i);
    }
    assert_eq!(Permutation::identity(0).cardinality(), 0);
}

#[test]
fn swap_exchanges_images() {
    let mut p = Permutation::identity(3);
    p.swap(0, 2);
    assert_eq!((p.image(0), p.image(1), p.image(2)), (2, 1, 0));
    p.swap(1, 1);
    assert_eq!((p.image(0), p.image(1), p.image(2)), (2, 1, 0));
}

#[test]
fn inverse_undoes_permutation() {
    let mut p = Permutation::identity(4);
    p.swap(0, 1);
    p.swap(1, 3);
    // p = [1, 3, 2, 0]
    assert_eq!((p.image(0), p.image(1), p.image(2), p.image(3)), (1, 3, 2, 0));
    let q = p.inverse();
    assert_eq!((q.image(0), q.image(1), q.image(2), q.image(3)), (3, 0, 2, 1));
    for i in 0..4 {
        assert_eq!(q.image(p.image(i)), i);
    }
}

#[test]
fn permutation_matrix_dim_and_dense_form() {
    let mut pm = PermutationMatrix::identity(3);
    assert_eq!(pm.dim(), 3);
    assert_eq!(entries(&pm.as_matrix(0i64, 1i64)), vec![1, 0, 0, 0, 1, 0, 0, 0, 1]);
    pm.swap(0, 1);
    let dense = pm.as_matrix(0i64, 1i64);
    assert_eq!((dense.rows(), dense.cols()), (3, 3));
    assert_eq!(entries(&dense), vec![0, 1, 0, 1, 0, 0, 0, 0, 1]);
}

#[test]
fn permutation_matrix_inverse_is_transpose() {
    let mut p = Permutation::identity(3);
    p.swap(0, 1);
    p.swap(1, 2);
    // p = [1, 2, 0]
    let pm = PermutationMatrix::from(p);
    let inv = pm.inverse();
    assert_eq!(entries(&pm.as_matrix(0i64, 1i64)), vec![0, 1, 0, 0, 0, 1, 1, 0, 0]);
    assert_eq!(entries(&inv.as_matrix(0i64, 1i64)), vec![0, 0, 1, 1, 0, 0, 0, 1, 0]);
    assert_eq!(PermutationMatrix::identity(0).dim(), 0);
}
