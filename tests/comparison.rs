use rulinalg::comparison::{
    elementwise_matrix_comparison, AbsoluteElementwiseComparator, AbsoluteError, ComparisonFailure,
    ElementComparisonFailure, ElementwiseComparator, ExactElementwiseComparator, ExactError,
    MatrixComparisonResult,
};
use rulinalg::matrix::Matrix;

fn m23(values: [i64; 6]) -> Matrix<i64> {
    Matrix::new(2, 3, values.to_vec())
}

#[test]
fn matrix_eq_absolute_compare_self_for_integer() {
    let x = m23([1, 2, 3, 4, 5, 6]);
    let msg = elementwise_matrix_comparison(&x, &x, AbsoluteElementwiseComparator { tol: 0i64 })
        .panic_message();
    assert!(msg.is_none());
}

#[test]
fn matrix_eq_exact_compare_self_for_integer() {
    let x = m23([1, 2, 3, 4, 5, 6]);
    let msg = elementwise_matrix_comparison(&x, &x, ExactElementwiseComparator).panic_message();
    assert!(msg.is_none());
}

#[test]
#[should_panic]
fn matrix_eq_absolute_mismatched_dimensions() {
    let x = m23([1, 2, 3, 4, 5, 6]);
    let y = Matrix::new(2, 2, vec![1i64, 2, 3, 4]);
    let msg = elementwise_matrix_comparison(&x, &y, AbsoluteElementwiseComparator { tol: 0i64 })
        .panic_message();
    if let Some(msg) = msg {
        panic!("{}", msg);
    }
}

#[test]
fn self_comparison_is_a_match_for_unsigned() {
    let x = Matrix::new(2, 2, vec![0u64, u64::MAX, 7, 7]);
    let exact = elementwise_matrix_comparison(&x, &x, ExactElementwiseComparator);
    assert!(matches!(exact, MatrixComparisonResult::Match));
    let abs = elementwise_matrix_comparison(&x, &x, AbsoluteElementwiseComparator { tol: 0u64 });
    assert!(matches!(abs, MatrixComparisonResult::Match));
}

#[test]
fn self_comparison_of_empty_matrix_is_a_match() {
    let x: Matrix<i64> = Matrix::new(0, 0, vec![]);
    let r = elementwise_matrix_comparison(&x, &x, ExactElementwiseComparator);
    assert!(matches!(r, MatrixComparisonResult::Match));
}

#[test]
fn different_shapes_give_mismatched_dimensions() {
    let x = m23([1, 2, 3, 4, 5, 6]);
    let y = Matrix::new(3, 2, vec![1i64, 2, 3, 4, 5, 6]);
    match elementwise_matrix_comparison(&x, &y, ExactElementwiseComparator) {
        MatrixComparisonResult::MismatchedDimensions { dim_x, dim_y } => {
            assert_eq!(dim_x, (2, 3));
            assert_eq!(dim_y, (3, 2));
        }
        _ => panic!("expected mismatched dimensions"),
    }
    match elementwise_matrix_comparison(&x, &y, AbsoluteElementwiseComparator { tol: 100i64 }) {
        MatrixComparisonResult::MismatchedDimensions { dim_x, dim_y } => {
            assert_eq!(dim_x, (2, 3));
            assert_eq!(dim_y, (3, 2));
        }
        _ => panic!("expected mismatched dimensions"),
    }
}

#[test]
fn one_differing_cell_gives_one_mismatch() {
    let x = m23([1, 2, 3, 4, 5, 6]);
    let y = m23([1, 2, 3, 4, 9, 6]);
    match elementwise_matrix_comparison(&x, &y, AbsoluteElementwiseComparator { tol: 3i64 }) {
        MatrixComparisonResult::MismatchedElements { comparator, mismatches } => {
            assert_eq!(comparator.tol, 3);
            assert_eq!(mismatches.len(), 1);
            assert_eq!(mismatches[0].row, 1);
            assert_eq!(mismatches[0].col, 1);
            assert_eq!(mismatches[0].x, 5);
            assert_eq!(mismatches[0].y, 9);
            assert_eq!(mismatches[0].error.0, 4);
        }
        _ => panic!("expected one mismatch"),
    }
}

#[test]
fn difference_within_tolerance_is_a_match() {
    let x = m23([1, 2, 3, 4, 5, 6]);
    let y = m23([1, 2, 3, 4, 9, 6]);
    let r = elementwise_matrix_comparison(&x, &y, AbsoluteElementwiseComparator { tol: 4i64 });
    assert!(matches!(r, MatrixComparisonResult::Match));
    let e = elementwise_matrix_comparison(&x, &y, ExactElementwiseComparator);
    assert!(matches!(e, MatrixComparisonResult::MismatchedElements { .. }));
}

#[test]
fn all_mismatches_are_collected_in_row_major_order() {
    let x = m23([1, 2, 3, 4, 5, 6]);
    let y = m23([0, 2, 4, 7, 5, 5]);
    match elementwise_matrix_comparison(&x, &y, ExactElementwiseComparator) {
        MatrixComparisonResult::MismatchedElements { mismatches, .. } => {
            let cells: Vec<(usize, usize)> = mismatches.iter().map(|m| (m.row, m.col)).collect();
            assert_eq!(cells, vec![(0, 0), (0, 2), (1, 0), (1, 2)]);
        }
        _ => panic!("expected mismatches"),
    }
}

#[test]
fn exact_comparator_compare() {
    let c = ExactElementwiseComparator;
    assert!(ElementwiseComparator::<i64, ExactError>::compare(&c, 3, 3).is_none());
    assert!(ElementwiseComparator::<i64, ExactError>::compare(&c, 3, 4).is_some());
    assert!(ElementwiseComparator::<u64, ExactError>::compare(&c, 0, 1).is_some());
    assert_eq!(ElementwiseComparator::<i64, ExactError>::description(&c), "exact equality");
    assert_eq!(ElementwiseComparator::<i64, ExactError>::definition(&c), "x == y");
    assert!(ExactError.failure_reason().is_none());
}

#[test]
fn absolute_comparator_unsigned_distance() {
    let c = AbsoluteElementwiseComparator { tol: 2u64 };
    assert!(c.compare(5, 7).is_none());
    assert!(c.compare(7, 5).is_none());
    assert_eq!(c.compare(3, 10).map(|e| e.0), Some(7));
    assert_eq!(c.compare(10, 3).map(|e| e.0), Some(7));
    assert_eq!(c.compare(0, u64::MAX).map(|e| e.0), Some(u64::MAX));
    assert_eq!(c.description(), "absolute difference");
    assert_eq!(c.definition(), "|x - y| <= 2");
}

#[test]
fn absolute_comparator_signed_distance() {
    let c = AbsoluteElementwiseComparator { tol: 1i64 };
    assert_eq!(c.compare(-3, 2).map(|e| e.0), Some(5));
    assert_eq!(c.compare(i64::MIN, i64::MAX).map(|e| e.0), Some(u64::MAX));
    assert!(c.compare(-1, 0).is_none());
    let negative = AbsoluteElementwiseComparator { tol: -1i64 };
    assert!(negative.compare(4, 4).is_none());
    assert!(negative.compare(4, 5).is_some());
    assert_eq!(negative.definition(), "|x - y| <= -1");
}

#[test]
fn absolute_error_reason() {
    assert_eq!(AbsoluteError(42u64).failure_reason(), Some("Absolute error: 42".to_string()));
    assert_eq!(AbsoluteError(-7i64).failure_reason(), Some("Absolute error: -7".to_string()));
}

#[test]
fn element_failure_line() {
    let f = ElementComparisonFailure { x: 5i64, y: -9i64, error: AbsoluteError(14u64), row: 1, col: 12 };
    assert_eq!(f.to_string(), "(1, 12): x = 5, y = -9. Absolute error: 14");
    let g = ElementComparisonFailure { x: 0u64, y: 10u64, error: ExactError, row: 0, col: 0 };
    assert_eq!(g.to_string(), "(0, 0): x = 0, y = 10.");
}

#[test]
fn dimensions_report_text() {
    let x = m23([1, 2, 3, 4, 5, 6]);
    let y = Matrix::new(2, 2, vec![1i64, 2, 3, 4]);
    let msg = elementwise_matrix_comparison(&x, &y, ExactElementwiseComparator).panic_message();
    assert_eq!(
        msg,
        Some(
            "\n\nDimensions of matrices X and Y do not match.\n dim(X) = 2 x 3\n dim(Y) = 2 x 2\n\n"
                .to_string()
        )
    );
}

#[test]
fn elements_report_text() {
    let x = m23([1, 2, 3, 4, 5, 6]);
    let y = m23([1, 2, 30, 4, 5, 6]);
    let msg = elementwise_matrix_comparison(&x, &y, AbsoluteElementwiseComparator { tol: 10i64 })
        .panic_message();
    let expected = "\n\nMatrices X and Y have 1 mismatched element pairs. The mismatched elements are listed below, in the format\n(row, col): x = x[[row, col]], y = y[[row, col]].\n\n (0, 2): x = 3, y = 30. Absolute error: 27\n\nComparison criterion: absolute difference, defined by\n    |x - y| <= 10.\n\n";
    assert_eq!(msg, Some(expected.to_string()));
}
