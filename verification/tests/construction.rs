use linalg::errors::MatrixError;
use linalg::matrix::Matrix;

#[test]
fn from_flat_vec_refuses_no_elements() {
    assert_eq!(
        Matrix::<f32>::from_flat_vec(vec![], 0, 0),
        Err(MatrixError::EmptyData)
    );
    assert_eq!(
        Matrix::<f32>::from_flat_vec(vec![], 2, 3),
        Err(MatrixError::EmptyData)
    );
}

#[test]
fn from_flat_vec_refuses_a_wrong_count() {
    assert_eq!(
        Matrix::<f32>::from_flat_vec(vec![1.0, 2.0, 3.0], 2, 2),
        Err(MatrixError::TheDataDoesNotMatchTheDimensions)
    );
    assert_eq!(
        Matrix::<f32>::from_flat_vec(vec![1.0, 2.0, 3.0, 4.0, 5.0], 2, 2),
        Err(MatrixError::TheDataDoesNotMatchTheDimensions)
    );
    assert_eq!(
        Matrix::<f32>::from_flat_vec(vec![1.0], 0, 5),
        Err(MatrixError::TheDataDoesNotMatchTheDimensions)
    );
}

#[test]
fn from_flat_vec_refuses_a_shape_too_large_to_count() {
    assert_eq!(
        Matrix::<i64>::from_flat_vec(vec![1, 2], usize::MAX, 2),
        Err(MatrixError::TheDataDoesNotMatchTheDimensions)
    );
    assert_eq!(
        Matrix::<i64>::from_flat_vec(vec![1, 2], usize::MAX / 2 + 2, 2),
        Err(MatrixError::TheDataDoesNotMatchTheDimensions)
    );
}

#[test]
fn from_flat_vec_keeps_shape_and_order() {
    let matrix = Matrix::<i64>::from_flat_vec(vec![1, 2, 3, 4, 5, 6], 2, 3).unwrap();

    assert_eq!(matrix.rows(), 2);
    assert_eq!(matrix.cols(), 3);
    assert_eq!(matrix.raw_data(), [1, 2, 3, 4, 5, 6]);
    assert_eq!(matrix.get(0, 0), Ok(1));
    assert_eq!(matrix.get(0, 2), Ok(3));
    assert_eq!(matrix.get(1, 0), Ok(4));
    assert_eq!(matrix.get(1, 2), Ok(6));
}

#[test]
fn new_refuses_no_rows() {
    assert_eq!(Matrix::<f32>::new(vec![]), Err(MatrixError::EmptyData));
}

#[test]
fn new_refuses_rows_without_elements() {
    assert_eq!(
        Matrix::<f32>::new(vec![vec![], vec![]]),
        Err(MatrixError::EmptyData)
    );
}

#[test]
fn new_takes_the_columns_from_the_first_row() {
    assert_eq!(
        Matrix::<i64>::new(vec![vec![1, 2, 3], vec![4, 5]]),
        Err(MatrixError::TheDataDoesNotMatchTheDimensions)
    );
    assert_eq!(
        Matrix::<i64>::new(vec![vec![], vec![4, 5]]),
        Err(MatrixError::TheDataDoesNotMatchTheDimensions)
    );
}

#[test]
fn new_lays_the_rows_end_to_end() {
    let matrix = Matrix::<i64>::new(vec![vec![1, 2], vec![3, 4], vec![5, 6]]).unwrap();

    assert_eq!(matrix.rows(), 3);
    assert_eq!(matrix.cols(), 2);
    assert_eq!(matrix.raw_data(), [1, 2, 3, 4, 5, 6]);
}

#[test]
fn new_accepts_uneven_rows_of_the_right_total() {
    let matrix = Matrix::<i64>::new(vec![vec![1, 2], vec![3], vec![4, 5, 6]]).unwrap();

    assert_eq!(matrix.rows(), 3);
    assert_eq!(matrix.cols(), 2);
    assert_eq!(matrix.raw_data(), [1, 2, 3, 4, 5, 6]);
}

#[test]
fn vector_has_one_column() {
    let vector = Matrix::<i64>::vector(vec![7, 8, 9]).unwrap();

    assert_eq!(vector.rows(), 3);
    assert_eq!(vector.cols(), 1);
    assert_eq!(vector.raw_data(), [7, 8, 9]);
    assert_eq!(Matrix::<i64>::vector(vec![]), Err(MatrixError::EmptyData));
}

#[test]
fn vectors_of_fixed_size() {
    let two = Matrix::<i64>::vector_2((1, 2)).unwrap();
    let three = Matrix::<i64>::vector_3((1, 2, 3)).unwrap();
    let four = Matrix::<i64>::vector_4((1, 2, 3, 4)).unwrap();

    assert_eq!((two.rows(), two.cols()), (2, 1));
    assert_eq!((three.rows(), three.cols()), (3, 1));
    assert_eq!((four.rows(), four.cols()), (4, 1));
    assert_eq!(two.raw_data(), [1, 2]);
    assert_eq!(three.raw_data(), [1, 2, 3]);
    assert_eq!(four.raw_data(), [1, 2, 3, 4]);
}

#[test]
fn get_checks_the_flat_index_only() {
    let matrix = Matrix::<i64>::from_flat_vec((0..12).collect(), 3, 4).unwrap();

    assert_eq!(matrix.get(0, 5), Ok(5));
    assert_eq!(matrix.get(1, 7), Ok(11));
    assert_eq!(matrix.get(2, 3), Ok(11));
    assert_eq!(matrix.get(2, 4), Err(MatrixError::OutOfBounds));
    assert_eq!(matrix.get(3, 0), Err(MatrixError::OutOfBounds));
    assert_eq!(matrix.get(0, 12), Err(MatrixError::OutOfBounds));
}

#[test]
fn get_survives_an_index_too_large_to_compute() {
    let matrix = Matrix::<i64>::from_flat_vec((0..12).collect(), 3, 4).unwrap();

    assert_eq!(matrix.get(usize::MAX, 0), Err(MatrixError::OutOfBounds));
    assert_eq!(matrix.get(0, usize::MAX), Err(MatrixError::OutOfBounds));
    assert_eq!(matrix.get(1, usize::MAX - 3), Err(MatrixError::OutOfBounds));
}

#[test]
fn equality_needs_equal_shape_and_elements() {
    let matrix = || Matrix::<i64>::from_flat_vec(vec![1, 2, 3, 4, 5, 6], 2, 3).unwrap();
    let reshaped = Matrix::<i64>::from_flat_vec(vec![1, 2, 3, 4, 5, 6], 3, 2).unwrap();
    let changed = Matrix::<i64>::from_flat_vec(vec![1, 2, 3, 4, 5, 7], 2, 3).unwrap();

    assert_eq!(matrix(), matrix());
    assert_ne!(matrix(), reshaped);
    assert_ne!(matrix(), changed);
}
