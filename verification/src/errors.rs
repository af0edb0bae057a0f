//! The ways in which an operation on matrices can fail.

use vstd::prelude::*;

verus! {

/// Why an operation was refused. Every fallible function of this crate
/// returns one of these instead of panicking.
#[derive(Debug, Clone, Copy, PartialEq, Eq, Structural)]
pub enum MatrixError {
    /// A constructor was given no elements, or no rows.
    EmptyData,
    /// A vector operation was applied to a matrix with more than one column.
    NotAVector,
    /// The flat index `row * cols + col` lies past the last element.
    OutOfBounds,
    /// The number of elements is not `rows * cols`.
    TheDataDoesNotMatchTheDimensions,
    /// Element-wise addition or subtraction of operands of different lengths.
    MatricesMustHaveSameDimensions,
    /// The left operand's columns are not as many as the right operand's rows.
    MatrixDimensionsDoNotMatchForDotProduct,
    /// A cross product of vectors that do not both have three elements.
    VectorMustBe3DForCrossProduct,
}

impl MatrixError {
    /// The text of [`MatrixError::message`], as a sequence of characters.
    pub open spec fn message_text(self) -> Seq<char> {
        match self {
            MatrixError::EmptyData => "cannot create a matrix with empty data"@,
            MatrixError::NotAVector => "the matrix is not a vector"@,
            MatrixError::OutOfBounds => "location is out of bounds"@,
            MatrixError::TheDataDoesNotMatchTheDimensions =>
                "the provided data does not match the matrix dimensions"@,
            MatrixError::MatricesMustHaveSameDimensions =>
                "lhs and rhs matrices must have the same dimensions"@,
            MatrixError::MatrixDimensionsDoNotMatchForDotProduct =>
                "lhs and rhs matrices do not have matching dimensions for dot product"@,
            MatrixError::VectorMustBe3DForCrossProduct =>
                "lhs and rhs must be vector_3 for cross product"@,
        }
    }

    /// A sentence for people, one per variant.
    pub fn message(&self) -> (text: &'static str)
        ensures
            text@ == self.message_text(),
    {
        match self {
            MatrixError::EmptyData => "cannot create a matrix with empty data",
            MatrixError::NotAVector => "the matrix is not a vector",
            MatrixError::OutOfBounds => "location is out of bounds",
            MatrixError::TheDataDoesNotMatchTheDimensions =>
                "the provided data does not match the matrix dimensions",
            MatrixError::MatricesMustHaveSameDimensions =>
                "lhs and rhs matrices must have the same dimensions",
            MatrixError::MatrixDimensionsDoNotMatchForDotProduct =>
                "lhs and rhs matrices do not have matching dimensions for dot product",
            MatrixError::VectorMustBe3DForCrossProduct =>
                "lhs and rhs must be vector_3 for cross product",
        }
    }
}

/// `res` is the failure `error`.
pub open spec fn fails_with<V>(res: Result<V, MatrixError>, error: MatrixError) -> bool {
    res == Err::<V, MatrixError>(error)
}

} // verus!
