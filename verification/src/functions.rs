//! Operations on matrices that go through the public interface of
//! [`Matrix`]: the transpose, the product, and the vector operations.

use crate::errors::{fails_with, MatrixError};
use crate::arithmetic::{divided, minor, sum_of_squares};
use crate::matrix::Matrix;
use crate::model::{
    cross_defined, entry_defined, inner_defined, inner_step_defined, is_cross, is_entry,
    is_inner_prefix, is_inner_product, is_length, is_product_of, is_unit,
    lemma_flat_index_splits, lemma_vector_transposed, length_defined, product_defined, row_of,
    unit_defined, MatrixView,
};
use crate::scalar::{can_add, can_root, is_root, is_sum, zero_value, Scalar};
use vstd::prelude::*;

verus! {

/// The transpose: the matrix whose element of row `c` and column `r` is the
/// element of row `r` and column `c` of `matrix`. It is filled column by
/// column of `matrix`.
pub fn transpose<T: Copy>(matrix: &Matrix<T>) -> (res: Result<Matrix<T>, MatrixError>)
    ensures
        res is Ok,
        res.unwrap()@ == matrix@.transposed(),
{
    proof {
        use_type_invariant(matrix);
    }
    let rows: usize = matrix.rows();
    let cols: usize = matrix.cols();
    let mut transposed: Vec<T> = Vec::new();
    let mut col: usize = 0;
    while col < cols
        invariant
            matrix@.well_formed(),
            rows == matrix@.rows,
            cols == matrix@.cols,
            0 <= col <= cols,
            transposed.len() == col * rows,
            forall|i: int|
                0 <= i < transposed.len() ==> #[trigger] transposed[i] == matrix@.at(
                    i % (rows as int),
                    i / (rows as int),
                ),
        decreases cols - col,
    {
        let mut row: usize = 0;
        while row < rows
            invariant
                matrix@.well_formed(),
                rows == matrix@.rows,
                cols == matrix@.cols,
                0 <= col < cols,
                0 <= row <= rows,
                transposed.len() == col * rows + row,
                forall|i: int|
                    0 <= i < transposed.len() ==> #[trigger] transposed[i] == matrix@.at(
                        i % (rows as int),
                        i / (rows as int),
                    ),
            decreases rows - row,
        {
            proof {
                matrix@.lemma_holds(row as int, col as int);
                lemma_flat_index_splits(col as int, row as int, rows as int);
            }
            match matrix.get(row, col) {
                Ok(value) => {
                    transposed.push(value);
                },
                Err(error) => {
                    return Err(error);
                },
            }
            row = row + 1;
        }
        proof {
            assert((col + 1) * rows == col * rows + rows) by (nonlinear_arith);
        }
        col = col + 1;
    }
    proof {
        assert(cols * rows == rows * cols && cols * rows >= 1) by (nonlinear_arith)
            requires
                rows >= 1,
                cols >= 1,
        ;
        assert(transposed@ =~= matrix@.transposed().elements);
    }
    Matrix::from_flat_vec(transposed, cols, rows)
}

/// The matrix product, by the schoolbook triple loop: the element of row
/// `row` and column `col` is the sum over `k` of `lhs[row, k] * rhs[k, col]`,
/// added to a zero one after the other in the order of `k`.
pub fn dot<T: Scalar>(lhs: &Matrix<T>, rhs: &Matrix<T>) -> (res: Result<Matrix<T>, MatrixError>)
    requires
        lhs@.cols == rhs@.rows ==> product_defined(lhs@, rhs@),
    ensures
        lhs@.cols != rhs@.rows ==> fails_with(
            res,
            MatrixError::MatrixDimensionsDoNotMatchForDotProduct,
        ),
        lhs@.cols == rhs@.rows ==> res is Ok && is_product_of(lhs@, rhs@, res.unwrap()@),
{
    proof {
        use_type_invariant(lhs);
        use_type_invariant(rhs);
    }
    let rows: usize = lhs.rows();
    let inner: usize = lhs.cols();
    let cols: usize = rhs.cols();
    if inner != rhs.rows() {
        return Err(MatrixError::MatrixDimensionsDoNotMatchForDotProduct);
    }
    let mut data: Vec<T> = Vec::new();
    let mut row: usize = 0;
    while row < rows
        invariant
            lhs@.well_formed(),
            rhs@.well_formed(),
            rows == lhs@.rows && inner == lhs@.cols && inner == rhs@.rows && cols == rhs@.cols,
            product_defined(lhs@, rhs@),
            0 <= row <= rows,
            data.len() == row * cols,
            forall|i: int|
                0 <= i < data.len() ==> is_entry(
                    lhs@,
                    rhs@,
                    i / (cols as int),
                    i % (cols as int),
                    #[trigger] data[i],
                ),
        decreases rows - row,
    {
        let mut col: usize = 0;
        while col < cols
            invariant
                lhs@.well_formed(),
                rhs@.well_formed(),
                rows == lhs@.rows && inner == lhs@.cols && inner == rhs@.rows && cols
                    == rhs@.cols,
                product_defined(lhs@, rhs@),
                0 <= row < rows,
                0 <= col <= cols,
                data.len() == row * cols + col,
                forall|i: int|
                    0 <= i < data.len() ==> is_entry(
                        lhs@,
                        rhs@,
                        i / (cols as int),
                        i % (cols as int),
                        #[trigger] data[i],
                    ),
            decreases cols - col,
        {
            let ghost a = lhs@.row(row as int);
            let ghost b = rhs@.column(col as int);
            assert(entry_defined(lhs@, rhs@, row as int, col as int));
            let mut val: T = zero_value();
            let mut k: usize = 0;
            while k < inner
                invariant
                    lhs@.well_formed(),
                    rhs@.well_formed(),
                    rows == lhs@.rows && inner == lhs@.cols && inner == rhs@.rows && cols
                        == rhs@.cols,
                    a == lhs@.row(row as int),
                    b == rhs@.column(col as int),
                    inner_defined(a, b),
                    0 <= row < rows,
                    0 <= col < cols,
                    0 <= k <= inner,
                    is_inner_prefix(a, b, k as nat, val),
                decreases inner - k,
            {
                proof {
                    lhs@.lemma_holds(row as int, k as int);
                    rhs@.lemma_holds(k as int, col as int);
                    assert(inner_step_defined(a, b, k as int));
                }
                let lhs_val: T = match lhs.get(row, k) {
                    Ok(value) => value,
                    Err(error) => {
                        return Err(error);
                    },
                };
                let rhs_val: T = match rhs.get(k, col) {
                    Ok(value) => value,
                    Err(error) => {
                        return Err(error);
                    },
                };
                assert(lhs_val == a[k as int]);
                assert(rhs_val == b[k as int]);
                let term: T = lhs_val * rhs_val;
                assert(can_add(val, term));
                let next: T = val + term;
                assert(is_sum(val, term, next));
                val = next;
                k = k + 1;
            }
            proof {
                lemma_flat_index_splits(row as int, col as int, cols as int);
            }
            data.push(val);
            col = col + 1;
        }
        proof {
            assert((row + 1) * cols == row * cols + cols) by (nonlinear_arith);
        }
        row = row + 1;
    }
    proof {
        let out = (MatrixView { rows: rows as nat, cols: cols as nat, elements: data@ });
        assert forall|row: int, col: int|
            0 <= row < lhs@.rows && 0 <= col < rhs@.cols implies #[trigger] is_entry(
            lhs@,
            rhs@,
            row,
            col,
            out.at(row, col),
        ) by {
            out.lemma_holds(row, col);
            lemma_flat_index_splits(row, col, cols as int);
        }
        assert(rows * cols >= 1) by (nonlinear_arith)
            requires
                rows >= 1,
                cols >= 1,
        ;
    }
    Matrix::from_flat_vec(data, rows, cols)
}

/// The inner product of two column vectors of equal length: the single
/// element of `transpose(lhs)` times `rhs`.
pub fn vector_dot<T: Scalar>(lhs: &Matrix<T>, rhs: &Matrix<T>) -> (res: Result<T, MatrixError>)
    requires
        lhs@.is_vector() && rhs@.is_vector() && lhs@.rows == rhs@.rows ==> inner_defined(
            lhs@.elements,
            rhs@.elements,
        ),
    ensures
        !lhs@.is_vector() || !rhs@.is_vector() ==> fails_with(res, MatrixError::NotAVector),
        lhs@.is_vector() && rhs@.is_vector() && lhs@.rows != rhs@.rows ==> fails_with(
            res,
            MatrixError::MatrixDimensionsDoNotMatchForDotProduct,
        ),
        lhs@.is_vector() && rhs@.is_vector() && lhs@.rows == rhs@.rows ==> res is Ok
            && is_inner_product(lhs@.elements, rhs@.elements, res.unwrap()),
{
    proof {
        use_type_invariant(lhs);
        use_type_invariant(rhs);
    }
    if lhs.cols() != 1 || rhs.cols() != 1 {
        return Err(MatrixError::NotAVector);
    }
    let transposed_lhs: Matrix<T> = match transpose(lhs) {
        Ok(matrix) => matrix,
        Err(error) => {
            return Err(error);
        },
    };
    proof {
        lemma_vector_transposed(lhs@);
        rhs@.lemma_vector_elements();
        if lhs@.rows == rhs@.rows {
            assert forall|row: int, col: int|
                0 <= row < 1 && 0 <= col < 1 implies #[trigger] entry_defined(
                row_of(lhs@),
                rhs@,
                row,
                col,
            ) by {
            }
        }
    }
    let result: Matrix<T> = match dot(&transposed_lhs, rhs) {
        Ok(matrix) => matrix,
        Err(error) => {
            return Err(error);
        },
    };
    proof {
        assert(is_entry(row_of(lhs@), rhs@, 0, 0, result@.at(0, 0)));
        assert(result@.flat_index(0, 0) == 0);
    }
    let data = result.raw_data();
    Ok(data[0])
}

/// The Euclidean length of a column vector: `sqrt` of the sum of the squares
/// of its elements, added to a zero one after the other.
///
/// The square root is the caller's: the library has none of its own for an
/// arbitrary element type.
pub fn vector_length<T: Scalar, F: Fn(T) -> T>(vector: &Matrix<T>, sqrt: F) -> (res: Result<
    T,
    MatrixError,
>)
    requires
        vector@.is_vector() ==> length_defined(vector@.elements, sqrt),
    ensures
        !vector@.is_vector() ==> fails_with(res, MatrixError::NotAVector),
        vector@.is_vector() ==> res is Ok && is_length(vector@.elements, sqrt, res.unwrap()),
{
    if vector.cols() != 1 {
        return Err(MatrixError::NotAVector);
    }
    let square: T = sum_of_squares(vector.raw_data());
    assert(can_root(sqrt, square));
    let length: T = sqrt(square);
    assert(is_root(sqrt, square, length));
    Ok(length)
}

/// The column vector of the same direction and of length one: each element
/// divided by the length.
///
/// Nothing is done about a length of zero: what comes out is what `/` makes
/// of it.
pub fn vector_unit<T: Scalar, F: Fn(T) -> T>(vector: &Matrix<T>, sqrt: F) -> (res: Result<
    Matrix<T>,
    MatrixError,
>)
    requires
        vector@.is_vector() ==> unit_defined(vector@.elements, sqrt),
    ensures
        !vector@.is_vector() ==> fails_with(res, MatrixError::NotAVector),
        vector@.is_vector() ==> res is Ok && res.unwrap()@.rows == vector@.rows
            && res.unwrap()@.cols == 1 && is_unit(
            vector@.elements,
            sqrt,
            res.unwrap()@.elements,
        ),
{
    proof {
        use_type_invariant(vector);
    }
    let length: T = match vector_length(vector, sqrt) {
        Ok(length) => length,
        Err(error) => {
            return Err(error);
        },
    };
    proof {
        vector@.lemma_vector_elements();
    }
    let data: Vec<T> = divided(vector.raw_data(), length);
    Matrix::vector(data)
}

/// The cross product of two column vectors of three elements.
pub fn vector_cross<T: Scalar>(lhs: &Matrix<T>, rhs: &Matrix<T>) -> (res: Result<
    Matrix<T>,
    MatrixError,
>)
    requires
        lhs@.is_vector() && rhs@.is_vector() && lhs@.rows == 3 && rhs@.rows == 3 ==> cross_defined(
            lhs@.elements,
            rhs@.elements,
        ),
    ensures
        !lhs@.is_vector() || !rhs@.is_vector() ==> fails_with(res, MatrixError::NotAVector),
        lhs@.is_vector() && rhs@.is_vector() && (lhs@.rows != 3 || rhs@.rows != 3) ==> fails_with(
            res,
            MatrixError::VectorMustBe3DForCrossProduct,
        ),
        lhs@.is_vector() && rhs@.is_vector() && lhs@.rows == 3 && rhs@.rows == 3 ==> res is Ok
            && res.unwrap()@.rows == 3 && res.unwrap()@.cols == 1 && is_cross(
            lhs@.elements,
            rhs@.elements,
            res.unwrap()@.elements,
        ),
{
    proof {
        use_type_invariant(lhs);
        use_type_invariant(rhs);
    }
    if lhs.cols() != 1 || rhs.cols() != 1 {
        return Err(MatrixError::NotAVector);
    }
    if lhs.rows() != 3 || rhs.rows() != 3 {
        return Err(MatrixError::VectorMustBe3DForCrossProduct);
    }
    let a = lhs.raw_data();
    let b = rhs.raw_data();
    proof {
        lhs@.lemma_vector_elements();
        rhs@.lemma_vector_elements();
    }
    let elements: Vec<T> = vec![
        minor(a[1], b[2], a[2], b[1]),
        minor(a[2], b[0], a[0], b[2]),
        minor(a[0], b[1], a[1], b[0]),
    ];
    Matrix::vector(elements)
}

} // verus!
