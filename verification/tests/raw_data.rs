use linalg::errors::MatrixError;
use linalg::matrix::{add, dot, get, mul, sub};

#[test]
fn raw_get_reads_row_major() {
    let data: Vec<i64> = vec![10, 11, 12, 20, 21, 22];

    assert_eq!(get(&data, 3, (0, 0)), Ok(10));
    assert_eq!(get(&data, 3, (1, 1)), Ok(21));
    assert_eq!(get(&data, 3, (1, 2)), Ok(22));
    assert_eq!(get(&data, 3, (0, 4)), Ok(21));
    assert_eq!(get(&data, 3, (2, 0)), Err(MatrixError::OutOfBounds));
    assert_eq!(get(&data, 0, (5, 1)), Ok(11));
    assert_eq!(get(&data, usize::MAX, (2, 0)), Err(MatrixError::OutOfBounds));
    assert_eq!(get(&Vec::<i64>::new(), 1, (0, 0)), Err(MatrixError::OutOfBounds));
}

#[test]
fn raw_sum_difference_and_scaling() {
    assert_eq!(add(vec![1i64, 2, 3], vec![10, 20, 30]), Ok(vec![11, 22, 33]));
    assert_eq!(sub(vec![1i64, 2, 3], vec![10, 20, 30]), Ok(vec![-9, -18, -27]));
    assert_eq!(mul(vec![1i64, 2, 3], -4), Ok(vec![-4, -8, -12]));
    assert_eq!(add(Vec::<i64>::new(), vec![]), Ok(vec![]));
    assert_eq!(mul(Vec::<i64>::new(), 3), Ok(vec![]));
}

#[test]
fn raw_sum_and_difference_refuse_unequal_lengths() {
    assert_eq!(
        add(vec![1.0_f32, 2.0], vec![1.0]),
        Err(MatrixError::MatricesMustHaveSameDimensions)
    );
    assert_eq!(
        sub(vec![1.0_f32], vec![1.0, 2.0]),
        Err(MatrixError::MatricesMustHaveSameDimensions)
    );
}

#[test]
fn raw_product_of_matrices() {
    let lhs: (Vec<i64>, usize, usize) = (vec![2, 3, 6, 1], 2, 2);
    let rhs: (Vec<i64>, usize, usize) = (vec![3, 2, 5, 1, 3, 2], 2, 3);

    assert_eq!(dot(lhs, rhs), Ok((vec![9, 13, 16, 19, 15, 32], 2, 3)));
}

#[test]
fn raw_product_reads_two_columns_as_row_and_column() {
    let lhs: (Vec<i64>, usize, usize) = (vec![1, 2, 3], 3, 1);
    let rhs: (Vec<i64>, usize, usize) = (vec![4, 5, 6], 3, 1);

    assert_eq!(dot(lhs, rhs), Ok((vec![32], 1, 1)));
}

#[test]
fn raw_product_refuses_mismatched_inner_dimensions() {
    let lhs: (Vec<i64>, usize, usize) = (vec![1, 2, 3, 4, 5, 6], 2, 3);
    let rhs: (Vec<i64>, usize, usize) = (vec![1, 2, 3, 4], 2, 2);

    assert_eq!(
        dot(lhs, rhs),
        Err(MatrixError::MatrixDimensionsDoNotMatchForDotProduct)
    );

    let short: (Vec<i64>, usize, usize) = (vec![1, 2], 2, 1);
    let long: (Vec<i64>, usize, usize) = (vec![1, 2, 3], 3, 1);

    assert_eq!(
        dot(short, long),
        Err(MatrixError::MatrixDimensionsDoNotMatchForDotProduct)
    );
}

#[test]
fn raw_product_reports_data_that_ends_too_soon() {
    let lhs: (Vec<i64>, usize, usize) = (vec![1, 2, 3], 2, 2);
    let rhs: (Vec<i64>, usize, usize) = (vec![1, 2, 3, 4], 2, 2);

    assert_eq!(dot(lhs, rhs), Err(MatrixError::OutOfBounds));

    let lhs: (Vec<i64>, usize, usize) = (vec![1, 2, 3, 4], 2, 2);
    let rhs: (Vec<i64>, usize, usize) = (vec![1, 2, 3], 2, 2);

    assert_eq!(dot(lhs, rhs), Err(MatrixError::OutOfBounds));
}

#[test]
fn raw_product_of_empty_shapes() {
    let lhs: (Vec<i64>, usize, usize) = (vec![], 0, 2);
    let rhs: (Vec<i64>, usize, usize) = (vec![1, 2, 3, 4], 2, 2);

    assert_eq!(dot(lhs, rhs), Ok((vec![], 0, 2)));

    let lhs: (Vec<i64>, usize, usize) = (vec![], 2, 0);
    let rhs: (Vec<i64>, usize, usize) = (vec![], 0, 3);

    assert_eq!(dot(lhs, rhs), Ok((vec![0, 0, 0, 0, 0, 0], 2, 3)));
}
