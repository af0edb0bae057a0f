use linalg::functions::{dot, transpose, vector_cross, vector_dot, vector_length, vector_unit};
use linalg::matrix::Matrix;

fn close(a: f32, b: f32) -> bool {
    (a - b).abs() <= 1e-5
}

#[test]
fn transposing_twice_gives_the_matrix_back() {
    let matrix = Matrix::<f32>::from_flat_vec(
        vec![1.0, 2.0, 2.0, 3.0, 2.2, 5.7, 9.0, 1.2, 3.6, 0.2, 7.8, 10.0],
        3,
        4,
    )
    .unwrap();
    let vector = Matrix::<i64>::vector(vec![1, 2, 3, 4, 5]).unwrap();
    let single = Matrix::<i64>::vector(vec![9]).unwrap();

    assert_eq!(transpose(&transpose(&matrix).unwrap()).unwrap(), matrix);
    assert_eq!(transpose(&transpose(&vector).unwrap()).unwrap(), vector);
    assert_eq!(transpose(&single).unwrap(), single);
}

#[test]
fn the_identity_leaves_a_vector_as_it_is() {
    for size in 1..6_usize {
        let vector = Matrix::<i64>::vector((0..size).map(|i| 3 * i as i64 - 4).collect()).unwrap();
        let identity = Matrix::<i64>::identity(size).unwrap();

        assert_eq!(dot(&identity, &vector).unwrap(), vector);
    }
}

#[test]
fn the_identity_leaves_a_matrix_as_it_is() {
    let matrix = Matrix::<i64>::from_flat_vec(vec![1, -2, 3, -4, 5, -6], 3, 2).unwrap();
    let identity = Matrix::<i64>::identity(3).unwrap();

    assert_eq!(dot(&identity, &matrix).unwrap(), matrix);
}

#[test]
fn a_scaling_matrix_multiplies_element_by_element() {
    let factors = Matrix::<i64>::vector(vec![2, -3, 0, 5]).unwrap();
    let vector = Matrix::<i64>::vector(vec![7, 11, 13, -17]).unwrap();
    let scaling = Matrix::scaling_matrix(factors).unwrap();

    assert_eq!(
        dot(&scaling, &vector).unwrap(),
        Matrix::vector(vec![14, -33, 0, -85]).unwrap()
    );
}

#[test]
fn a_translation_matrix_adds_the_offsets() {
    let offsets = Matrix::<i64>::vector(vec![10, 20, 30, 1]).unwrap();
    let point = Matrix::<i64>::vector(vec![1, 2, 3, 1]).unwrap();
    let translation = Matrix::translation_matrix(offsets).unwrap();

    assert_eq!(
        dot(&translation, &point).unwrap(),
        Matrix::vector(vec![11, 22, 33, 1]).unwrap()
    );
}

#[test]
fn a_translation_puts_its_last_offset_in_the_last_place() {
    let offsets = Matrix::<i64>::vector(vec![10, 20, 30, 5]).unwrap();
    let point = Matrix::<i64>::vector(vec![1, 2, 3, 1]).unwrap();
    let translation = Matrix::translation_matrix(offsets).unwrap();

    assert_eq!(
        dot(&translation, &point).unwrap(),
        Matrix::vector(vec![11, 22, 33, 5]).unwrap()
    );
}

#[test]
fn a_unit_vector_has_length_one() {
    let vectors: Vec<Vec<f32>> = vec![
        vec![3.0, 4.0],
        vec![2.0, 3.0, 4.0],
        vec![-1.5, 0.25, 8.0, 100.0],
        vec![1e-3],
        vec![0.0, -7.0, 0.0],
    ];

    for elements in vectors {
        let vector = Matrix::<f32>::vector(elements).unwrap();
        let unit = vector_unit(&vector, f32::sqrt).unwrap();

        assert!(close(vector_length(&unit, f32::sqrt).unwrap(), 1.0));
    }
}

#[test]
fn the_unit_of_the_zero_vector_is_not_a_number() {
    let zero = Matrix::<f32>::vector(vec![0.0, 0.0]).unwrap();

    let unit = vector_unit(&zero, f32::sqrt).unwrap();

    assert_eq!((unit.rows(), unit.cols()), (2, 1));
    assert!(unit.raw_data().iter().all(|element| element.is_nan()));
}

#[test]
fn a_cross_product_is_orthogonal_to_its_factors() {
    let a = Matrix::<f32>::vector(vec![1.0, 2.0, 3.0]).unwrap();
    let b = Matrix::<f32>::vector(vec![1.0, 5.0, 7.0]).unwrap();
    let c = Matrix::<f32>::vector(vec![-0.5, 0.25, 4.0]).unwrap();

    let ab = vector_cross(&a, &b).unwrap();
    let bc = vector_cross(&b, &c).unwrap();

    assert!(close(vector_dot(&ab, &a).unwrap(), 0.0));
    assert!(close(vector_dot(&ab, &b).unwrap(), 0.0));
    assert!(close(vector_dot(&bc, &b).unwrap(), 0.0));
    assert!(close(vector_dot(&bc, &c).unwrap(), 0.0));
}

#[test]
fn product_of_two_by_two_and_two_by_three() {
    let m1 = Matrix::<f32>::new(vec![vec![2.0, 3.0], vec![6.0, 1.0]]).unwrap();
    let m2 = Matrix::<f32>::new(vec![vec![3.0, 2.0, 5.0], vec![1.0, 3.0, 2.0]]).unwrap();
    let expected =
        Matrix::<f32>::new(vec![vec![9.0, 13.0, 16.0], vec![19.0, 15.0, 32.0]]).unwrap();

    assert_eq!(dot(&m1, &m2).unwrap(), expected);
}

#[test]
fn the_unit_of_three_four() {
    let vector = Matrix::<f32>::vector(vec![3.0, 4.0]).unwrap();

    assert_eq!(
        vector_unit(&vector, f32::sqrt).unwrap(),
        Matrix::vector(vec![0.6, 0.8]).unwrap()
    );
}
