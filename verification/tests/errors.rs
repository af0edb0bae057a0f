use linalg::errors::MatrixError;
use linalg::functions::{dot, vector_cross, vector_dot, vector_length, vector_unit};
use linalg::matrix::Matrix;

fn square() -> Matrix<f32> {
    Matrix::from_flat_vec(vec![1.0, 2.0, 3.0, 4.0], 2, 2).unwrap()
}

#[test]
fn every_error_has_its_message() {
    assert_eq!(
        MatrixError::EmptyData.message(),
        "cannot create a matrix with empty data"
    );
    assert_eq!(
        MatrixError::NotAVector.message(),
        "the matrix is not a vector"
    );
    assert_eq!(
        MatrixError::OutOfBounds.message(),
        "location is out of bounds"
    );
    assert_eq!(
        MatrixError::TheDataDoesNotMatchTheDimensions.message(),
        "the provided data does not match the matrix dimensions"
    );
    assert_eq!(
        MatrixError::MatricesMustHaveSameDimensions.message(),
        "lhs and rhs matrices must have the same dimensions"
    );
    assert_eq!(
        MatrixError::MatrixDimensionsDoNotMatchForDotProduct.message(),
        "lhs and rhs matrices do not have matching dimensions for dot product"
    );
    assert_eq!(
        MatrixError::VectorMustBe3DForCrossProduct.message(),
        "lhs and rhs must be vector_3 for cross product"
    );
}

#[test]
fn vector_operations_refuse_a_matrix() {
    let vector = || Matrix::<f32>::vector(vec![1.0, 2.0]).unwrap();

    assert_eq!(
        vector_length(&square(), f32::sqrt),
        Err(MatrixError::NotAVector)
    );
    assert_eq!(
        vector_unit(&square(), f32::sqrt),
        Err(MatrixError::NotAVector)
    );
    assert_eq!(
        vector_dot(&square(), &vector()),
        Err(MatrixError::NotAVector)
    );
    assert_eq!(
        vector_dot(&vector(), &square()),
        Err(MatrixError::NotAVector)
    );
    assert_eq!(
        vector_cross(&square(), &vector()),
        Err(MatrixError::NotAVector)
    );
    assert_eq!(
        vector_cross(&vector(), &square()),
        Err(MatrixError::NotAVector)
    );
}

#[test]
fn vector_methods_refuse_a_matrix() {
    let vector = || Matrix::<f32>::vector(vec![1.0, 2.0]).unwrap();

    assert_eq!(
        square().vector_length(f32::sqrt),
        Err(MatrixError::NotAVector)
    );
    assert_eq!(
        square().vector_unit(f32::sqrt),
        Err(MatrixError::NotAVector)
    );
    assert_eq!(square().vector_dot(&vector()), Err(MatrixError::NotAVector));
    assert_eq!(vector().vector_dot(&square()), Err(MatrixError::NotAVector));
    assert_eq!(
        square().vector_cross(&vector()),
        Err(MatrixError::NotAVector)
    );
    assert_eq!(
        vector().vector_cross(&square()),
        Err(MatrixError::NotAVector)
    );
}

#[test]
fn cross_product_refuses_other_than_three_elements() {
    let two = || Matrix::<f32>::vector(vec![1.0, 2.0]).unwrap();
    let three = || Matrix::<f32>::vector(vec![1.0, 2.0, 3.0]).unwrap();
    let four = || Matrix::<f32>::vector(vec![1.0, 2.0, 3.0, 4.0]).unwrap();

    assert_eq!(
        vector_cross(&two(), &three()),
        Err(MatrixError::VectorMustBe3DForCrossProduct)
    );
    assert_eq!(
        vector_cross(&three(), &four()),
        Err(MatrixError::VectorMustBe3DForCrossProduct)
    );
    assert_eq!(
        two().vector_cross(&two()),
        Err(MatrixError::VectorMustBe3DForCrossProduct)
    );
    assert_eq!(
        four().vector_cross(&three()),
        Err(MatrixError::VectorMustBe3DForCrossProduct)
    );
}

#[test]
fn product_refuses_mismatched_inner_dimensions() {
    let wide = Matrix::<f32>::from_flat_vec(vec![1.0, 2.0, 3.0, 4.0, 5.0, 6.0], 2, 3).unwrap();

    assert_eq!(
        dot(&wide, &square()),
        Err(MatrixError::MatrixDimensionsDoNotMatchForDotProduct)
    );
    assert_eq!(
        wide.dot(&square()),
        Err(MatrixError::MatrixDimensionsDoNotMatchForDotProduct)
    );
    assert!(dot(&square(), &wide).is_ok());
}

#[test]
fn the_plain_product_does_not_turn_a_vector() {
    let v1 = Matrix::<f32>::vector(vec![1.0, 2.0]).unwrap();
    let v2 = Matrix::<f32>::vector(vec![3.0, 4.0]).unwrap();

    assert_eq!(
        dot(&v1, &v2),
        Err(MatrixError::MatrixDimensionsDoNotMatchForDotProduct)
    );
}

#[test]
fn inner_product_refuses_unequal_lengths() {
    let two = || Matrix::<f32>::vector(vec![1.0, 2.0]).unwrap();
    let three = || Matrix::<f32>::vector(vec![1.0, 2.0, 3.0]).unwrap();

    assert_eq!(
        vector_dot(&two(), &three()),
        Err(MatrixError::MatrixDimensionsDoNotMatchForDotProduct)
    );
    assert_eq!(
        two().vector_dot(&three()),
        Err(MatrixError::MatrixDimensionsDoNotMatchForDotProduct)
    );
}

#[test]
fn sum_and_difference_refuse_unequal_counts() {
    let wide = || Matrix::<f32>::from_flat_vec(vec![1.0, 2.0, 3.0, 4.0, 5.0, 6.0], 2, 3).unwrap();

    assert_eq!(
        square().add(wide()),
        Err(MatrixError::MatricesMustHaveSameDimensions)
    );
    assert_eq!(
        wide().sub(square()),
        Err(MatrixError::MatricesMustHaveSameDimensions)
    );
}

#[test]
fn transformation_matrices_refuse_what_is_no_vector() {
    assert_eq!(
        Matrix::scaling_matrix(square()),
        Err(MatrixError::NotAVector)
    );
    assert_eq!(
        Matrix::translation_matrix(square()),
        Err(MatrixError::NotAVector)
    );
    assert_eq!(Matrix::<f32>::identity(0), Err(MatrixError::EmptyData));
}
