//! Laws that relate the operations to one another, proved over the model.
//!
//! Each law takes the results of the operations as the executable functions
//! describe them, so it holds of whatever those functions return.

use crate::model::{
    is_entry, is_identity, is_inner_prefix, is_product_of, is_scaling, is_translation,
    lemma_flat_index_splits, lemma_row_and_column, MatrixView,
};
use crate::scalar::{functional, is_one, is_product, is_sum, is_zero, unital, Scalar};
use vstd::prelude::*;

verus! {

/// The transpose exchanges rows and columns: its element of row `col` and
/// column `row` is the element of row `row` and column `col` of the matrix.
pub proof fn lemma_transpose_exchanges<T>(matrix: MatrixView<T>, row: int, col: int)
    requires
        matrix.well_formed(),
        0 <= row < matrix.rows,
        0 <= col < matrix.cols,
    ensures
        matrix.transposed().well_formed(),
        matrix.transposed().at(col, row) == matrix.at(row, col),
{
    let rows = matrix.rows as int;
    let cols = matrix.cols as int;
    assert(0 <= col * rows + row < rows * cols && cols * rows == rows * cols) by (nonlinear_arith)
        requires
            0 <= row < rows,
            0 <= col < cols,
    ;
    lemma_flat_index_splits(col, row, rows);
}

/// Transposing twice gives the matrix back.
pub proof fn lemma_transpose_involution<T>(matrix: MatrixView<T>)
    requires
        matrix.well_formed(),
    ensures
        matrix.transposed().transposed() == matrix,
{
    let rows = matrix.rows as int;
    let cols = matrix.cols as int;
    let once = matrix.transposed();
    let twice = once.transposed();
    assert(cols * rows == rows * cols) by (nonlinear_arith);
    assert forall|i: int| 0 <= i < rows * cols implies #[trigger] twice.elements[i]
        == matrix.elements[i] by {
        lemma_row_and_column(i, rows, cols);
        let row = i / cols;
        let col = i % cols;
        let j = col * rows + row;
        assert(0 <= j < rows * cols) by (nonlinear_arith)
            requires
                0 <= row < rows,
                0 <= col < cols,
                j == col * rows + row,
        ;
        lemma_flat_index_splits(col, row, rows);
        assert(twice.elements[i] == once.at(col, row));
        assert(once.flat_index(col, row) == j);
        assert(once.elements[j] == matrix.at(row, col));
        assert(matrix.flat_index(row, col) == i);
    }
    assert(twice.elements =~= matrix.elements);
}

/// Where the operators are functions, so is the inner product: two values
/// that the first `k` products may add up to are equal.
pub proof fn lemma_inner_product_is_unique<T: Scalar>(a: Seq<T>, b: Seq<T>, k: nat, x: T, y: T)
    requires
        functional::<T>(),
        is_inner_prefix(a, b, k, x),
        is_inner_prefix(a, b, k, y),
    ensures
        x == y,
    decreases k,
{
    if k > 0 {
        let (x_before, x_term) = choose|before: T, term: T|
            {
                &&& is_inner_prefix(a, b, (k - 1) as nat, before)
                &&& is_product(a[k - 1], b[k - 1], term)
                &&& #[trigger] is_sum(before, term, x)
            };
        let (y_before, y_term) = choose|before: T, term: T|
            {
                &&& is_inner_prefix(a, b, (k - 1) as nat, before)
                &&& is_product(a[k - 1], b[k - 1], term)
                &&& #[trigger] is_sum(before, term, y)
            };
        lemma_inner_product_is_unique(a, b, (k - 1) as nat, x_before, y_before);
        assert(x_term == y_term);
    }
}

/// Where the operators are functions, so is the matrix product: two
/// products of the same matrices are equal.
pub proof fn lemma_product_is_unique<T: Scalar>(
    lhs: MatrixView<T>,
    rhs: MatrixView<T>,
    x: MatrixView<T>,
    y: MatrixView<T>,
)
    requires
        functional::<T>(),
        is_product_of(lhs, rhs, x),
        is_product_of(lhs, rhs, y),
    ensures
        x == y,
{
    let rows = lhs.rows as int;
    let cols = rhs.cols as int;
    assert forall|i: int| 0 <= i < x.elements.len() implies #[trigger] x.elements[i]
        == y.elements[i] by {
        if cols == 0 {
            assert(rows * cols == 0) by (nonlinear_arith)
                requires
                    cols == 0,
            ;
        } else {
            lemma_row_and_column(i, rows, cols);
            let row = i / cols;
            let col = i % cols;
            assert(is_entry(lhs, rhs, row, col, x.at(row, col)));
            assert(is_entry(lhs, rhs, row, col, y.at(row, col)));
            lemma_inner_product_is_unique(
                lhs.row(row),
                rhs.column(col),
                lhs.row(row).len(),
                x.at(row, col),
                y.at(row, col),
            );
        }
    }
    assert(x.elements =~= y.elements);
}

/// The sums, the products and the zero of the 64-bit signed integers are
/// functions of their operands.
pub proof fn lemma_i64_functional()
    ensures
        functional::<i64>(),
{
}

/// The 64-bit signed integers have a ring's zero and one: the laws of this
/// module that ask for them hold of matrices of integers.
pub proof fn lemma_i64_unital()
    ensures
        unital::<i64>(),
{
    assert forall|zero: i64, x: i64, sum: i64| is_zero(zero) && #[trigger] is_sum(
        zero,
        x,
        sum,
    ) implies sum == x by {
        assert(0 + x == x);
    }
    assert forall|zero: i64, x: i64, sum: i64| is_zero(zero) && #[trigger] is_sum(
        x,
        zero,
        sum,
    ) implies sum == x by {
        assert(x + 0 == x);
    }
    assert forall|zero: i64, x: i64, product: i64| is_zero(zero) && #[trigger] is_product(
        zero,
        x,
        product,
    ) implies product == zero by {
        assert(0 * x == 0);
    }
    assert forall|one: i64, x: i64, product: i64| is_one(one) && #[trigger] is_product(
        one,
        x,
        product,
    ) implies product == x by {
        assert(1 * x == x);
    }
    assert forall|one: i64, x: i64, product: i64| is_one(one) && #[trigger] is_product(
        x,
        one,
        product,
    ) implies product == x by {
        assert(x * 1 == x);
    }
}

/// An inner product in which every element of `a` before the `k`-th is a
/// zero, but for the one at `at`: the sum is a zero up to `at`, and from
/// there on it is the one product `a[at] * b[at]`.
proof fn lemma_one_term<T: Scalar>(a: Seq<T>, b: Seq<T>, at: int, k: nat, sum: T)
    requires
        unital::<T>(),
        0 <= at,
        forall|i: int| 0 <= i < k && i != at ==> is_zero(#[trigger] a[i]),
        is_inner_prefix(a, b, k, sum),
    ensures
        k <= at ==> is_zero(sum),
        k > at ==> is_product(a[at], b[at], sum),
    decreases k,
{
    if k > 0 {
        let (before, term) = choose|before: T, term: T|
            {
                &&& is_inner_prefix(a, b, (k - 1) as nat, before)
                &&& is_product(a[k - 1], b[k - 1], term)
                &&& #[trigger] is_sum(before, term, sum)
            };
        lemma_one_term(a, b, at, (k - 1) as nat, before);
        if k - 1 < at {
            assert(is_zero(a[k - 1]));
            assert(term == a[k - 1]);
            assert(sum == term);
        } else if k - 1 == at {
            assert(sum == term);
        } else {
            assert(is_zero(a[k - 1]));
            assert(term == a[k - 1]);
            assert(sum == before);
        }
    }
}

/// A scaling matrix times a matrix multiplies each row of the matrix by
/// the element of the diagonal for that row.
pub proof fn lemma_scaling_scales_rows<T: Scalar>(
    diagonal: Seq<T>,
    scaling: MatrixView<T>,
    matrix: MatrixView<T>,
    result: MatrixView<T>,
)
    requires
        unital::<T>(),
        matrix.well_formed(),
        matrix.rows == diagonal.len(),
        is_scaling(diagonal, scaling),
        is_product_of(scaling, matrix, result),
    ensures
        result.rows == matrix.rows,
        result.cols == matrix.cols,
        result.elements.len() == matrix.elements.len(),
        forall|row: int, col: int|
            0 <= row < matrix.rows && 0 <= col < matrix.cols ==> is_product(
                diagonal[row],
                matrix.at(row, col),
                #[trigger] result.at(row, col),
            ),
{
    assert forall|row: int, col: int|
        0 <= row < matrix.rows && 0 <= col < matrix.cols implies is_product(
        diagonal[row],
        matrix.at(row, col),
        #[trigger] result.at(row, col),
    ) by {
        let a = scaling.row(row);
        let b = matrix.column(col);
        assert(is_entry(scaling, matrix, row, col, result.at(row, col)));
        assert forall|i: int| 0 <= i < a.len() && i != row implies is_zero(#[trigger] a[i]) by {
            assert(a[i] == scaling.at(row, i));
        }
        assert(a[row] == scaling.at(row, row));
        lemma_one_term(a, b, row, a.len(), result.at(row, col));
    }
}

/// A scaling matrix times a vector is the element-wise product of the
/// diagonal and the vector.
pub proof fn lemma_scaling_times_vector<T: Scalar>(
    diagonal: Seq<T>,
    scaling: MatrixView<T>,
    vector: MatrixView<T>,
    result: MatrixView<T>,
)
    requires
        unital::<T>(),
        vector.well_formed(),
        vector.is_vector(),
        vector.rows == diagonal.len(),
        is_scaling(diagonal, scaling),
        is_product_of(scaling, vector, result),
    ensures
        result.rows == vector.rows,
        result.cols == 1,
        result.elements.len() == vector.rows,
        forall|i: int|
            0 <= i < vector.rows ==> is_product(
                diagonal[i],
                vector.elements[i],
                #[trigger] result.elements[i],
            ),
{
    lemma_scaling_scales_rows(diagonal, scaling, vector, result);
    vector.lemma_vector_elements();
    assert forall|i: int| 0 <= i < vector.rows implies is_product(
        diagonal[i],
        vector.elements[i],
        #[trigger] result.elements[i],
    ) by {
        assert(result.at(i, 0) == result.elements[i]) by {
            assert(i * 1 + 0 == i);
        }
        assert(vector.at(i, 0) == vector.column(0)[i]);
    }
}

/// The identity matrix times a matrix is that matrix; in particular, the
/// identity matrix times a vector is that vector.
pub proof fn lemma_identity_is_neutral<T: Scalar>(
    identity: MatrixView<T>,
    matrix: MatrixView<T>,
    result: MatrixView<T>,
)
    requires
        unital::<T>(),
        matrix.well_formed(),
        is_identity(matrix.rows, identity),
        is_product_of(identity, matrix, result),
    ensures
        result == matrix,
{
    let rows = matrix.rows as int;
    let cols = matrix.cols as int;
    assert forall|i: int| 0 <= i < rows * cols implies #[trigger] result.elements[i]
        == matrix.elements[i] by {
        lemma_row_and_column(i, rows, cols);
        let row = i / cols;
        let col = i % cols;
        let a = identity.row(row);
        let b = matrix.column(col);
        assert(result.at(row, col) == result.elements[i]);
        assert(matrix.at(row, col) == matrix.elements[i]);
        assert(is_entry(identity, matrix, row, col, result.at(row, col)));
        assert forall|j: int| 0 <= j < a.len() && j != row implies is_zero(#[trigger] a[j]) by {
            assert(a[j] == identity.at(row, j));
        }
        assert(a[row] == identity.at(row, row));
        assert(b[row] == matrix.at(row, col));
        lemma_one_term(a, b, row, a.len(), result.at(row, col));
    }
    assert(result.elements =~= matrix.elements);
}

/// A translation matrix times a point whose last coordinate is a one adds
/// the offsets to the other coordinates. The last coordinate becomes the
/// last offset: it stays a one where that offset is one.
pub proof fn lemma_translation_moves_point<T: Scalar>(
    offsets: Seq<T>,
    translation: MatrixView<T>,
    point: MatrixView<T>,
    result: MatrixView<T>,
)
    requires
        unital::<T>(),
        point.well_formed(),
        point.is_vector(),
        point.rows == offsets.len(),
        is_one(point.elements.last()),
        is_translation(offsets, translation),
        is_product_of(translation, point, result),
    ensures
        result.rows == point.rows,
        result.cols == 1,
        result.elements.len() == point.rows,
        forall|i: int|
            0 <= i < point.rows - 1 ==> is_sum(
                point.elements[i],
                offsets[i],
                #[trigger] result.elements[i],
            ),
        result.elements.last() == offsets.last(),
{
    let size = offsets.len() as int;
    let last = size - 1;
    let b = point.column(0);
    point.lemma_vector_elements();
    assert forall|row: int| 0 <= row < size implies if row < last {
        is_sum(point.elements[row], offsets[row], #[trigger] result.elements[row])
    } else {
        result.elements[row] == offsets[row]
    } by {
        let a = translation.row(row);
        let value = result.at(row, 0);
        assert(value == result.elements[row]) by {
            assert(row * 1 + 0 == row);
        }
        assert(is_entry(translation, point, row, 0, value));
        let (before, term) = choose|before: T, term: T|
            {
                &&& is_inner_prefix(a, b, last as nat, before)
                &&& is_product(a[last], b[last], term)
                &&& #[trigger] is_sum(before, term, value)
            };
        assert forall|j: int| 0 <= j < last && j != row implies is_zero(#[trigger] a[j]) by {
            assert(a[j] == translation.at(row, j));
        }
        assert(a[last] == translation.at(row, last));
        assert(term == offsets[row]);
        lemma_one_term(a, b, row, last as nat, before);
        if row < last {
            assert(a[row] == translation.at(row, row));
            assert(before == b[row]);
        } else {
            assert(value == term);
        }
    }
}

} // verus!
