//! The square matrices of 3D graphics: identity, scaling and translation.

use crate::errors::{fails_with, MatrixError};
use crate::arithmetic::copy_of;
use crate::matrix::Matrix;
use crate::model::{
    is_identity, is_scaling, is_translation, lemma_flat_index_splits, lemma_row_and_column,
    MatrixView,
};
use crate::scalar::{is_one, is_zero, one_value, zero_value, Scalar};
use vstd::prelude::*;

verus! {

impl<T: Scalar> Matrix<T> {
    /// The identity matrix of `size` rows and columns: the scaling matrix
    /// of a vector of ones.
    pub fn identity(size: usize) -> (res: Result<Matrix<T>, MatrixError>)
        ensures
            size == 0 ==> fails_with(res, MatrixError::EmptyData),
            size != 0 ==> res is Ok && is_identity(size as nat, res.unwrap()@),
    {
        let unit: T = one_value();
        let mut ones: Vec<T> = Vec::new();
        let mut i: usize = 0;
        while i < size
            invariant
                0 <= i <= size,
                ones.len() == i,
                forall|j: int| 0 <= j < i ==> #[trigger] ones[j] == unit,
            decreases size - i,
        {
            ones.push(unit);
            i = i + 1;
        }
        match Matrix::vector(ones) {
            Ok(diagonal) => Matrix::scaling_matrix(diagonal),
            Err(error) => Err(error),
        }
    }

    /// The square matrix with the elements of `diagonal_vector` on its
    /// diagonal and a zero everywhere else.
    pub fn scaling_matrix(diagonal_vector: Matrix<T>) -> (res: Result<Matrix<T>, MatrixError>)
        ensures
            !diagonal_vector@.is_vector() ==> fails_with(res, MatrixError::NotAVector),
            diagonal_vector@.is_vector() ==> res is Ok && is_scaling(
                diagonal_vector@.elements,
                res.unwrap()@,
            ),
    {
        proof {
            use_type_invariant(&diagonal_vector);
        }
        if diagonal_vector.cols() != 1 {
            return Err(MatrixError::NotAVector);
        }
        let size: usize = diagonal_vector.rows();
        let diagonal = diagonal_vector.raw_data();
        proof {
            diagonal_vector@.lemma_vector_elements();
        }
        let off_diagonal: T = zero_value();
        let mut data: Vec<T> = Vec::new();
        let mut row: usize = 0;
        while row < size
            invariant
                size >= 1,
                diagonal@.len() == size,
                0 <= row <= size,
                data.len() == row * size,
                forall|i: int|
                    0 <= i < data.len() ==> #[trigger] data[i] == if i / (size as int) == i % (
                    size as int) {
                        diagonal[i / (size as int)]
                    } else {
                        off_diagonal
                    },
            decreases size - row,
        {
            let mut col: usize = 0;
            while col < size
                invariant
                    size >= 1,
                    diagonal@.len() == size,
                    0 <= row < size,
                    0 <= col <= size,
                    data.len() == row * size + col,
                    forall|i: int|
                        0 <= i < data.len() ==> #[trigger] data[i] == if i / (size as int) == i
                            % (size as int) {
                            diagonal[i / (size as int)]
                        } else {
                            off_diagonal
                        },
                decreases size - col,
            {
                proof {
                    lemma_flat_index_splits(row as int, col as int, size as int);
                }
                if row == col {
                    data.push(diagonal[row]);
                } else {
                    data.push(off_diagonal);
                }
                col = col + 1;
            }
            proof {
                assert((row + 1) * size == row * size + size) by (nonlinear_arith);
            }
            row = row + 1;
        }
        proof {
            let out = (MatrixView { rows: size as nat, cols: size as nat, elements: data@ });
            out.lemma_not_empty();
            assert forall|row: int, col: int| 0 <= row < size && 0 <= col < size implies if row
                == col {
                #[trigger] out.at(row, col) == diagonal[row]
            } else {
                is_zero(out.at(row, col))
            } by {
                out.lemma_holds(row, col);
                lemma_flat_index_splits(row, col, size as int);
            }
        }
        Matrix::from_flat_vec(data, size, size)
    }

    /// The identity matrix with the last column of each row replaced by the
    /// element of `diagonal_vector` for that row. With four rows this is the
    /// translation of 3D points in homogeneous coordinates.
    pub fn translation_matrix(diagonal_vector: Matrix<T>) -> (res: Result<Matrix<T>, MatrixError>)
        ensures
            !diagonal_vector@.is_vector() ==> fails_with(res, MatrixError::NotAVector),
            diagonal_vector@.is_vector() ==> res is Ok && is_translation(
                diagonal_vector@.elements,
                res.unwrap()@,
            ),
    {
        proof {
            use_type_invariant(&diagonal_vector);
        }
        if diagonal_vector.cols() != 1 {
            return Err(MatrixError::NotAVector);
        }
        let size: usize = diagonal_vector.rows();
        let offsets = diagonal_vector.raw_data();
        proof {
            diagonal_vector@.lemma_vector_elements();
        }
        let identity: Matrix<T> = match Matrix::identity(size) {
            Ok(identity) => identity,
            Err(error) => {
                return Err(error);
            },
        };
        let mut data: Vec<T> = copy_of(identity.raw_data());
        let last: usize = size - 1;
        let mut row: usize = 0;
        while row < size
            invariant
                size >= 1,
                last == size - 1,
                offsets@.len() == size,
                identity@.elements.len() == size * size,
                data.len() == size * size,
                0 <= row <= size,
                forall|i: int|
                    0 <= i < data.len() ==> #[trigger] data[i] == if i % (size as int) == size - 1
                        && i / (size as int) < row {
                        offsets[i / (size as int)]
                    } else {
                        identity@.elements[i]
                    },
            decreases size - row,
        {
            proof {
                assert(0 <= row * size + last < size * size) by (nonlinear_arith)
                    requires
                        0 <= row < size,
                        last == size - 1,
                ;
                lemma_flat_index_splits(row as int, last as int, size as int);
            }
            let index: usize = row * size + last;
            let ghost before = data@;
            data.set(index, offsets[row]);
            proof {
                assert forall|i: int| 0 <= i < data.len() implies #[trigger] data[i] == if i % (
                size as int) == size - 1 && i / (size as int) < row + 1 {
                    offsets[i / (size as int)]
                } else {
                    identity@.elements[i]
                } by {
                    if i != index {
                        assert(data[i] == before[i]);
                        lemma_row_and_column(i, size as int, size as int);
                    }
                }
            }
            row = row + 1;
        }
        proof {
            let out = (MatrixView { rows: size as nat, cols: size as nat, elements: data@ });
            out.lemma_not_empty();
            assert forall|row: int, col: int| 0 <= row < size && 0 <= col < size implies if col
                == size - 1 {
                #[trigger] out.at(row, col) == offsets[row]
            } else if row == col {
                is_one(out.at(row, col))
            } else {
                is_zero(out.at(row, col))
            } by {
                out.lemma_holds(row, col);
                lemma_flat_index_splits(row, col, size as int);
                assert(out.at(row, col) == data[row * size + col]);
                assert(identity@.at(row, col) == identity@.elements[row * size + col]);
            }
        }
        Matrix::from_flat_vec(data, size, size)
    }
}

} // verus!
