//! The mathematical model: a matrix as a shape and a row-major sequence of
//! elements, and what it means for a value to be the result of an operation.
//!
//! The results are given as relations, not as functions, because the
//! operators of the element type need not be functions: see
//! [`crate::scalar`]. For each operation there are two predicates. One,
//! named `is_*`, says that a value is a result of the operation: it was
//! made by the operators that the operation names, applied in the order it
//! names, each to operands that the step before may have produced. The
//! other, named `*_defined`, says that the operators accept the operands of
//! every step, whatever the steps before have produced.

use crate::scalar::{
    can_add, can_divide, can_multiply, can_root, can_subtract, is_difference, is_one, is_product,
    is_quotient, is_root, is_sum, is_zero, Scalar,
};
use vstd::arithmetic::div_mod::{
    lemma_fundamental_div_mod, lemma_fundamental_div_mod_converse, lemma_mod_bound,
};
use vstd::prelude::*;

verus! {

/// What a matrix is: `rows * cols` elements, stored row after row, so that
/// the element of row `r` and column `c` is `elements[r * cols + c]`.
pub struct MatrixView<T> {
    pub rows: nat,
    pub cols: nat,
    pub elements: Seq<T>,
}

impl<T> MatrixView<T> {
    /// The shape is not empty and the elements fill it.
    pub open spec fn well_formed(self) -> bool {
        &&& self.rows >= 1
        &&& self.cols >= 1
        &&& self.elements.len() == self.rows * self.cols
    }

    /// Where the element of `row` and `col` lies in `elements`.
    pub open spec fn flat_index(self, row: int, col: int) -> int {
        row * self.cols + col
    }

    /// The flat index of `row` and `col` lies within `elements`. This asks
    /// nothing of `col` alone: in a well-formed matrix a column past the last
    /// is read as the start of a later row.
    pub open spec fn holds(self, row: int, col: int) -> bool {
        0 <= self.flat_index(row, col) < self.elements.len()
    }

    /// The element of `row` and `col`.
    pub open spec fn at(self, row: int, col: int) -> T {
        self.elements[self.flat_index(row, col)]
    }

    /// One column.
    pub open spec fn is_vector(self) -> bool {
        self.cols == 1
    }

    /// The elements of row `row`, from left to right.
    pub open spec fn row(self, row: int) -> Seq<T> {
        Seq::new(self.cols, |k: int| self.at(row, k))
    }

    /// The elements of column `col`, from top to bottom.
    pub open spec fn column(self, col: int) -> Seq<T> {
        Seq::new(self.rows, |k: int| self.at(k, col))
    }

    /// Rows and columns exchanged: the element of row `c` and column `r` of
    /// the result is the element of row `r` and column `c` of `self`.
    pub open spec fn transposed(self) -> MatrixView<T> {
        MatrixView {
            rows: self.cols,
            cols: self.rows,
            elements: Seq::new(
                self.rows * self.cols,
                |i: int| self.at(i % (self.rows as int), i / (self.rows as int)),
            ),
        }
    }

    /// A well-formed vector has as many elements as rows, and they are its
    /// one column.
    pub proof fn lemma_vector_elements(self)
        requires
            self.well_formed(),
            self.is_vector(),
        ensures
            self.elements.len() == self.rows,
            self.column(0) == self.elements,
    {
        let rows = self.rows as int;
        let cols = self.cols as int;
        assert(rows * cols == rows) by (nonlinear_arith)
            requires
                cols == 1,
        ;
        assert forall|k: int| 0 <= k < rows implies self.flat_index(k, 0) == k by {
            assert(k * cols == k) by (nonlinear_arith)
                requires
                    cols == 1,
            ;
        }
        assert(self.column(0) =~= self.elements);
    }

    /// A well-formed matrix has an element.
    pub proof fn lemma_not_empty(self)
        requires
            self.well_formed(),
        ensures
            self.elements.len() >= 1,
    {
        let rows = self.rows as int;
        let cols = self.cols as int;
        assert(rows * cols >= 1) by (nonlinear_arith)
            requires
                rows >= 1,
                cols >= 1,
        ;
    }

    /// In a well-formed matrix every row and column within the shape has its
    /// element.
    pub proof fn lemma_holds(self, row: int, col: int)
        requires
            self.elements.len() == self.rows * self.cols,
            0 <= row < self.rows,
            0 <= col < self.cols,
        ensures
            self.holds(row, col),
    {
        let rows = self.rows as int;
        let cols = self.cols as int;
        assert(0 <= row * cols + col < rows * cols) by (nonlinear_arith)
            requires
                0 <= row < rows,
                0 <= col < cols,
        ;
    }
}

/// A flat index below `rows * cols` splits into a row below `rows` and a
/// column below `cols`.
pub proof fn lemma_row_and_column(i: int, rows: int, cols: int)
    requires
        cols > 0,
        0 <= i < rows * cols,
    ensures
        0 <= i / cols < rows,
        0 <= i % cols < cols,
        i == (i / cols) * cols + i % cols,
{
    lemma_fundamental_div_mod(i, cols);
    lemma_mod_bound(i, cols);
    let row = i / cols;
    let col = i % cols;
    assert(0 <= row < rows && i == row * cols + col) by (nonlinear_arith)
        requires
            i == cols * row + col,
            0 <= col < cols,
            0 <= i < rows * cols,
    ;
}

/// The flat index of `row` and `col` splits back into `row` and `col`.
pub proof fn lemma_flat_index_splits(row: int, col: int, cols: int)
    requires
        0 <= row,
        0 <= col < cols,
    ensures
        (row * cols + col) / cols == row,
        (row * cols + col) % cols == col,
{
    lemma_fundamental_div_mod_converse(row * cols + col, cols, row, col);
}

/// The rows of a nested vector, each as a sequence.
pub open spec fn rows_of<T>(data: Seq<Vec<T>>) -> Seq<Seq<T>> {
    data.map_values(|row: Vec<T>| row@)
}

/// The elements of a nested vector, row after row.
pub open spec fn flattened<T>(data: Seq<Vec<T>>) -> Seq<T> {
    rows_of(data).flatten()
}

/// `+` accepts every pair of elements at the same place.
pub open spec fn sums_defined<T: Scalar>(lhs: Seq<T>, rhs: Seq<T>) -> bool {
    forall|i: int| 0 <= i < lhs.len() ==> #[trigger] can_add(lhs[i], rhs[i])
}

/// `out` is an element-wise sum of `lhs` and `rhs`.
pub open spec fn is_sums<T: Scalar>(lhs: Seq<T>, rhs: Seq<T>, out: Seq<T>) -> bool {
    &&& out.len() == lhs.len()
    &&& forall|i: int| 0 <= i < lhs.len() ==> #[trigger] is_sum(lhs[i], rhs[i], out[i])
}

/// `-` accepts every pair of elements at the same place.
pub open spec fn differences_defined<T: Scalar>(lhs: Seq<T>, rhs: Seq<T>) -> bool {
    forall|i: int| 0 <= i < lhs.len() ==> #[trigger] can_subtract(lhs[i], rhs[i])
}

/// `out` is an element-wise difference of `lhs` and `rhs`.
pub open spec fn is_differences<T: Scalar>(lhs: Seq<T>, rhs: Seq<T>, out: Seq<T>) -> bool {
    &&& out.len() == lhs.len()
    &&& forall|i: int| 0 <= i < lhs.len() ==> #[trigger] is_difference(lhs[i], rhs[i], out[i])
}

/// `*` accepts every element with `factor`.
pub open spec fn scaled_defined<T: Scalar>(elements: Seq<T>, factor: T) -> bool {
    forall|i: int| 0 <= i < elements.len() ==> #[trigger] can_multiply(elements[i], factor)
}

/// `out` is `elements` with every element multiplied by `factor`.
pub open spec fn is_scaled<T: Scalar>(elements: Seq<T>, factor: T, out: Seq<T>) -> bool {
    &&& out.len() == elements.len()
    &&& forall|i: int|
        0 <= i < elements.len() ==> #[trigger] is_product(elements[i], factor, out[i])
}

/// `/` accepts every element with `divisor`.
pub open spec fn quotients_defined<T: Scalar>(elements: Seq<T>, divisor: T) -> bool {
    forall|i: int| 0 <= i < elements.len() ==> #[trigger] can_divide(elements[i], divisor)
}

/// `out` is `elements` with every element divided by `divisor`.
pub open spec fn is_quotients<T: Scalar>(elements: Seq<T>, divisor: T, out: Seq<T>) -> bool {
    &&& out.len() == elements.len()
    &&& forall|i: int|
        0 <= i < elements.len() ==> #[trigger] is_quotient(elements[i], divisor, out[i])
}

/// `sum` is a value that the first `k` products `a[i] * b[i]` may add up
/// to, when they are added to a zero one after the other in the order of
/// `i`.
pub open spec fn is_inner_prefix<T: Scalar>(a: Seq<T>, b: Seq<T>, k: nat, sum: T) -> bool
    decreases k,
{
    if k == 0 {
        is_zero(sum)
    } else {
        exists|before: T, term: T|
            {
                &&& is_inner_prefix(a, b, (k - 1) as nat, before)
                &&& is_product(a[k - 1], b[k - 1], term)
                &&& #[trigger] is_sum(before, term, sum)
            }
    }
}

/// `out` is an inner product of `a` and `b`: a value that all the products
/// `a[i] * b[i]` may add up to.
pub open spec fn is_inner_product<T: Scalar>(a: Seq<T>, b: Seq<T>, out: T) -> bool {
    is_inner_prefix(a, b, a.len(), out)
}

/// The operators accept the operands of step `k` of the inner product:
/// `a[k]` with `b[k]`, and every sum so far with every product of the two.
pub open spec fn inner_step_defined<T: Scalar>(a: Seq<T>, b: Seq<T>, k: int) -> bool {
    &&& can_multiply(a[k], b[k])
    &&& forall|before: T, term: T|
        is_inner_prefix(a, b, k as nat, before) && is_product(a[k], b[k], term)
            ==> #[trigger] can_add(before, term)
}

/// The operators accept the operands of every step of the inner product of
/// `a` and `b`.
pub open spec fn inner_defined<T: Scalar>(a: Seq<T>, b: Seq<T>) -> bool {
    forall|k: int| 0 <= k < a.len() ==> #[trigger] inner_step_defined(a, b, k)
}

/// A column vector read as a row: one row of as many columns as the vector
/// has rows, with the same elements.
pub open spec fn row_of<T>(vector: MatrixView<T>) -> MatrixView<T> {
    MatrixView { rows: 1, cols: vector.rows, elements: vector.elements }
}

/// The left operand as the product of raw data reads it: where both operands
/// have one column, the left one is taken as a row of `lhs.rows` elements.
pub open spec fn left_operand<T>(lhs: MatrixView<T>, rhs: MatrixView<T>) -> MatrixView<T> {
    if lhs.cols == 1 && rhs.cols == 1 {
        row_of(lhs)
    } else {
        lhs
    }
}

/// The transpose of a column vector is the vector read as a row, and that
/// row is the vector's elements.
pub proof fn lemma_vector_transposed<T>(vector: MatrixView<T>)
    requires
        vector.well_formed(),
        vector.is_vector(),
    ensures
        vector.transposed() == row_of(vector),
        row_of(vector).row(0) == vector.elements,
{
    let rows = vector.rows as int;
    vector.lemma_vector_elements();
    assert forall|i: int| 0 <= i < rows implies #[trigger] vector.transposed().elements[i]
        == vector.elements[i] by {
        lemma_fundamental_div_mod_converse(i, rows, 0, i);
        assert(vector.column(0)[i] == vector.at(i, 0));
    }
    assert(vector.transposed().elements =~= vector.elements);
    assert(row_of(vector).row(0) =~= vector.elements);
}

/// Term `k` of row `row` times column `col` reads within both operands.
pub open spec fn step_in_bounds<T>(
    lhs: MatrixView<T>,
    rhs: MatrixView<T>,
    row: int,
    col: int,
    k: int,
) -> bool {
    lhs.holds(row, k) && rhs.holds(k, col)
}

/// Every element that the product of `lhs` and `rhs` reads lies within its
/// operand.
pub open spec fn product_in_bounds<T>(lhs: MatrixView<T>, rhs: MatrixView<T>) -> bool {
    forall|row: int, col: int, k: int|
        #![trigger step_in_bounds(lhs, rhs, row, col, k)]
        0 <= row < lhs.rows && 0 <= col < rhs.cols && 0 <= k < lhs.cols ==> step_in_bounds(
            lhs,
            rhs,
            row,
            col,
            k,
        )
}

/// The operators accept the operands of every step of row `row` of `lhs`
/// times column `col` of `rhs`.
pub open spec fn entry_defined<T: Scalar>(
    lhs: MatrixView<T>,
    rhs: MatrixView<T>,
    row: int,
    col: int,
) -> bool {
    inner_defined(lhs.row(row), rhs.column(col))
}

/// The operators accept the operands of every step of the product of `lhs`
/// and `rhs`.
pub open spec fn product_defined<T: Scalar>(lhs: MatrixView<T>, rhs: MatrixView<T>) -> bool {
    forall|row: int, col: int|
        0 <= row < lhs.rows && 0 <= col < rhs.cols ==> #[trigger] entry_defined(
            lhs,
            rhs,
            row,
            col,
        )
}

/// `value` is an inner product of row `row` of `lhs` and column `col` of
/// `rhs`.
pub open spec fn is_entry<T: Scalar>(
    lhs: MatrixView<T>,
    rhs: MatrixView<T>,
    row: int,
    col: int,
    value: T,
) -> bool {
    is_inner_product(lhs.row(row), rhs.column(col), value)
}

/// `out` is a matrix product of `lhs` and `rhs`: it has the rows of `lhs`
/// and the columns of `rhs`, and its element of row `row` and column `col`
/// is an inner product of that row of `lhs` and that column of `rhs`.
pub open spec fn is_product_of<T: Scalar>(
    lhs: MatrixView<T>,
    rhs: MatrixView<T>,
    out: MatrixView<T>,
) -> bool {
    &&& out.rows == lhs.rows
    &&& out.cols == rhs.cols
    &&& out.elements.len() == lhs.rows * rhs.cols
    &&& forall|row: int, col: int|
        0 <= row < lhs.rows && 0 <= col < rhs.cols ==> #[trigger] is_entry(
            lhs,
            rhs,
            row,
            col,
            out.at(row, col),
        )
}

/// The length of the vector `elements` can be computed with the square root
/// `sqrt`: the operators accept every step of the sum of the squares, and
/// `sqrt` accepts every such sum.
pub open spec fn length_defined<T: Scalar, F: Fn(T) -> T>(elements: Seq<T>, sqrt: F) -> bool {
    &&& inner_defined(elements, elements)
    &&& forall|square: T|
        is_inner_product(elements, elements, square) ==> #[trigger] can_root(sqrt, square)
}

/// `length` is a length of the vector `elements` under the square root
/// `sqrt`: a value that `sqrt` may return for a sum of the squares.
pub open spec fn is_length<T: Scalar, F: Fn(T) -> T>(
    elements: Seq<T>,
    sqrt: F,
    length: T,
) -> bool {
    exists|square: T|
        is_inner_product(elements, elements, square) && #[trigger] is_root(sqrt, square, length)
}

/// The unit vector of `elements` can be computed with the square root
/// `sqrt`: the length can, and `/` accepts every element with every length.
pub open spec fn unit_defined<T: Scalar, F: Fn(T) -> T>(elements: Seq<T>, sqrt: F) -> bool {
    &&& length_defined(elements, sqrt)
    &&& forall|length: T| #[trigger]
        is_length(elements, sqrt, length) ==> quotients_defined(elements, length)
}

/// `out` is a unit vector of `elements` under the square root `sqrt`: the
/// elements divided by one length of the vector.
pub open spec fn is_unit<T: Scalar, F: Fn(T) -> T>(elements: Seq<T>, sqrt: F, out: Seq<T>) -> bool {
    exists|length: T| #[trigger]
        is_length(elements, sqrt, length) && is_quotients(elements, length, out)
}

/// The operators accept the operands of every step of `a * b - c * d`.
pub open spec fn minor_defined<T: Scalar>(a: T, b: T, c: T, d: T) -> bool {
    &&& can_multiply(a, b)
    &&& can_multiply(c, d)
    &&& forall|first: T, second: T|
        is_product(a, b, first) && is_product(c, d, second) ==> #[trigger] can_subtract(
            first,
            second,
        )
}

/// `out` is a value that `a * b - c * d` may return.
pub open spec fn is_minor<T: Scalar>(a: T, b: T, c: T, d: T, out: T) -> bool {
    exists|first: T, second: T|
        {
            &&& is_product(a, b, first)
            &&& is_product(c, d, second)
            &&& #[trigger] is_difference(first, second, out)
        }
}

/// The operators accept the operands of every step of the cross product of
/// two sequences of three elements.
pub open spec fn cross_defined<T: Scalar>(a: Seq<T>, b: Seq<T>) -> bool {
    &&& minor_defined(a[1], b[2], a[2], b[1])
    &&& minor_defined(a[2], b[0], a[0], b[2])
    &&& minor_defined(a[0], b[1], a[1], b[0])
}

/// `out` is a cross product of the sequences `a` and `b` of three elements:
/// `(a1 * b2 - a2 * b1, a2 * b0 - a0 * b2, a0 * b1 - a1 * b0)`.
pub open spec fn is_cross<T: Scalar>(a: Seq<T>, b: Seq<T>, out: Seq<T>) -> bool {
    &&& out.len() == 3
    &&& is_minor(a[1], b[2], a[2], b[1], out[0])
    &&& is_minor(a[2], b[0], a[0], b[2], out[1])
    &&& is_minor(a[0], b[1], a[1], b[0], out[2])
}

/// `out` is square, of `size` rows.
pub open spec fn is_square<T>(size: nat, out: MatrixView<T>) -> bool {
    &&& out.rows == size
    &&& out.cols == size
    &&& out.elements.len() == size * size
}

/// `out` is a scaling matrix of `diagonal`: square, with the elements of
/// `diagonal` on its diagonal and a zero everywhere else.
pub open spec fn is_scaling<T: Scalar>(diagonal: Seq<T>, out: MatrixView<T>) -> bool {
    &&& is_square(diagonal.len(), out)
    &&& forall|row: int, col: int|
        0 <= row < diagonal.len() && 0 <= col < diagonal.len() ==> if row == col {
            #[trigger] out.at(row, col) == diagonal[row]
        } else {
            is_zero(out.at(row, col))
        }
}

/// `out` is an identity matrix of `size` rows: square, with a one
/// everywhere on its diagonal and a zero everywhere else.
pub open spec fn is_identity<T: Scalar>(size: nat, out: MatrixView<T>) -> bool {
    &&& is_square(size, out)
    &&& forall|row: int, col: int|
        0 <= row < size && 0 <= col < size ==> if row == col {
            is_one(#[trigger] out.at(row, col))
        } else {
            is_zero(out.at(row, col))
        }
}

/// `out` is a translation matrix of `offsets`: an identity matrix with its
/// last column replaced by `offsets`.
pub open spec fn is_translation<T: Scalar>(offsets: Seq<T>, out: MatrixView<T>) -> bool {
    &&& is_square(offsets.len(), out)
    &&& forall|row: int, col: int|
        0 <= row < offsets.len() && 0 <= col < offsets.len() ==> if col == offsets.len() - 1 {
            #[trigger] out.at(row, col) == offsets[row]
        } else if row == col {
            is_one(out.at(row, col))
        } else {
            is_zero(out.at(row, col))
        }
}

} // verus!
