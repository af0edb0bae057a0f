//! The matrix type, and the arithmetic on raw row-major data under it.

pub use crate::errors::MatrixError;

use crate::arithmetic::{copy_of, divided, minor, sum_of_squares};
use crate::errors::fails_with;
use crate::model::{
    cross_defined, differences_defined, entry_defined, flattened, inner_defined,
    inner_step_defined, is_cross, is_differences, is_entry, is_inner_prefix, is_inner_product,
    is_length, is_product_of, is_scaled, is_sums, is_unit, left_operand,
    lemma_flat_index_splits, length_defined, product_defined, product_in_bounds, row_of,
    rows_of, scaled_defined, step_in_bounds, sums_defined, unit_defined, MatrixView,
};
use crate::scalar::{
    can_add, can_multiply, can_root, can_subtract, is_difference, is_product, is_root, is_sum,
    zero_value, Scalar,
};
use vstd::prelude::*;
use vstd::std_specs::cmp::{PartialEqSpec, PartialEqSpecImpl};

verus! {

/// A matrix of `rows` by `cols` elements in row-major order. A vector is a
/// matrix with one column.
///
/// A value of this type always has at least one row and one column, and
/// exactly `rows * cols` elements: the constructors refuse anything else, and
/// nothing changes a matrix after it is made.
#[derive(Debug)]
pub struct Matrix<T> {
    data: Vec<T>,
    rows: usize,
    cols: usize,
}

impl<T> View for Matrix<T> {
    type V = MatrixView<T>;

    closed spec fn view(&self) -> MatrixView<T> {
        MatrixView { rows: self.rows as nat, cols: self.cols as nat, elements: self.data@ }
    }
}

/// Two matrices are equal where their shapes are equal and their elements
/// are equal place by place, by the equality of the element type.
impl<T: PartialEq> PartialEq for Matrix<T> {
    fn eq(&self, other: &Self) -> (equal: bool) {
        self.rows == other.rows && self.cols == other.cols && self.data == other.data
    }
}

impl<T: PartialEq> PartialEqSpecImpl for Matrix<T> {
    open spec fn obeys_eq_spec() -> bool {
        T::obeys_eq_spec()
    }

    open spec fn eq_spec(&self, other: &Self) -> bool {
        &&& self@.rows == other@.rows
        &&& self@.cols == other@.cols
        &&& self@.elements.len() == other@.elements.len()
        &&& forall|i: int|
            0 <= i < self@.elements.len() ==> #[trigger] self@.elements[i].eq_spec(
                &other@.elements[i],
            )
    }
}

impl<T> Matrix<T> {
    /// What holds of every matrix. In executable code
    /// `use_type_invariant` yields it.
    #[verifier::type_invariant]
    pub open spec fn valid(&self) -> bool {
        self@.well_formed()
    }
}

impl<T: Copy> Matrix<T> {
    /// A matrix from its rows.
    ///
    /// The row count is the number of rows given, the column count the length
    /// of the first. The rows are then laid end to end and handed to
    /// [`Matrix::from_flat_vec`], so rows of unequal lengths are refused
    /// unless their elements happen to number `rows * cols`.
    pub fn new(data: Vec<Vec<T>>) -> (res: Result<Self, MatrixError>)
        ensures
            data.len() == 0 || flattened(data@).len() == 0 ==> fails_with(
                res,
                MatrixError::EmptyData,
            ),
            data.len() != 0 && flattened(data@).len() != 0 && flattened(data@).len() != data.len()
                * data[0].len() ==> fails_with(res, MatrixError::TheDataDoesNotMatchTheDimensions),
            data.len() != 0 && flattened(data@).len() != 0 && flattened(data@).len() == data.len()
                * data[0].len() ==> res is Ok && res.unwrap()@ == (MatrixView {
                rows: data.len() as nat,
                cols: data[0].len() as nat,
                elements: flattened(data@),
            }),
    {
        if data.len() == 0 {
            return Err(MatrixError::EmptyData);
        }
        let rows: usize = data.len();
        let cols: usize = data[0].len();
        let ghost all = rows_of(data@);
        let mut flat: Vec<T> = Vec::new();
        let mut i: usize = 0;
        assert(all.take(0) =~= Seq::<Seq<T>>::empty());
        while i < data.len()
            invariant
                all == rows_of(data@),
                0 <= i <= data.len(),
                flat@ == all.take(i as int).flatten(),
            decreases data.len() - i,
        {
            let row = &data[i];
            let ghost before = flat@;
            let mut j: usize = 0;
            while j < row.len()
                invariant
                    0 <= j <= row.len(),
                    flat@ == before + row@.take(j as int),
                decreases row.len() - j,
            {
                flat.push(row[j]);
                assert(row@.take(j + 1) =~= row@.take(j as int).push(row@[j as int]));
                j = j + 1;
            }
            proof {
                assert(row@.take(row.len() as int) =~= row@);
                assert(all.take(i + 1) =~= all.take(i as int).push(row@));
                all.take(i as int).lemma_flatten_push(row@);
            }
            i = i + 1;
        }
        assert(all.take(data.len() as int) =~= all);
        Self::from_flat_vec(flat, rows, cols)
    }

    /// A matrix of the given shape from its elements in row-major order.
    pub fn from_flat_vec(data: Vec<T>, rows: usize, cols: usize) -> (res: Result<
        Self,
        MatrixError,
    >)
        ensures
            data.len() == 0 ==> fails_with(res, MatrixError::EmptyData),
            data.len() != 0 && data.len() != rows * cols ==> fails_with(
                res,
                MatrixError::TheDataDoesNotMatchTheDimensions,
            ),
            data.len() != 0 && data.len() == rows * cols ==> res is Ok && res.unwrap()@
                == (MatrixView { rows: rows as nat, cols: cols as nat, elements: data@ }),
    {
        if data.len() == 0 {
            return Err(MatrixError::EmptyData);
        }
        match rows.checked_mul(cols) {
            Some(count) => {
                if data.len() != count {
                    return Err(MatrixError::TheDataDoesNotMatchTheDimensions);
                }
            },
            None => {
                return Err(MatrixError::TheDataDoesNotMatchTheDimensions);
            },
        }
        proof {
            if rows == 0 || cols == 0 {
                assert(rows * cols == 0) by (nonlinear_arith)
                    requires
                        rows == 0 || cols == 0,
                ;
            }
        }
        Ok(Self { data, rows, cols })
    }

    /// A column vector of the given elements.
    pub fn vector(data: Vec<T>) -> (res: Result<Self, MatrixError>)
        ensures
            data.len() == 0 ==> fails_with(res, MatrixError::EmptyData),
            data.len() != 0 ==> res is Ok && res.unwrap()@ == (MatrixView {
                rows: data.len() as nat,
                cols: 1,
                elements: data@,
            }),
    {
        let rows: usize = data.len();
        Self::from_flat_vec(data, rows, 1)
    }

    /// The column vector of two elements.
    pub fn vector_2(data: (T, T)) -> (res: Result<Self, MatrixError>)
        ensures
            res is Ok,
            res.unwrap()@ == (MatrixView { rows: 2, cols: 1, elements: seq![data.0, data.1] }),
    {
        let elements: Vec<T> = vec![data.0, data.1];
        assert(elements@ =~= seq![data.0, data.1]);
        Self::vector(elements)
    }

    /// The column vector of three elements.
    pub fn vector_3(data: (T, T, T)) -> (res: Result<Self, MatrixError>)
        ensures
            res is Ok,
            res.unwrap()@ == (MatrixView {
                rows: 3,
                cols: 1,
                elements: seq![data.0, data.1, data.2],
            }),
    {
        let elements: Vec<T> = vec![data.0, data.1, data.2];
        assert(elements@ =~= seq![data.0, data.1, data.2]);
        Self::vector(elements)
    }

    /// The column vector of four elements.
    pub fn vector_4(data: (T, T, T, T)) -> (res: Result<Self, MatrixError>)
        ensures
            res is Ok,
            res.unwrap()@ == (MatrixView {
                rows: 4,
                cols: 1,
                elements: seq![data.0, data.1, data.2, data.3],
            }),
    {
        let elements: Vec<T> = vec![data.0, data.1, data.2, data.3];
        assert(elements@ =~= seq![data.0, data.1, data.2, data.3]);
        Self::vector(elements)
    }

    /// The number of rows.
    pub fn rows(&self) -> (rows: usize)
        ensures
            rows == self@.rows,
    {
        self.rows
    }

    /// The number of columns.
    pub fn cols(&self) -> (cols: usize)
        ensures
            cols == self@.cols,
    {
        self.cols
    }

    /// The elements in row-major order.
    pub fn raw_data(&self) -> (elements: &[T])
        ensures
            elements@ == self@.elements,
    {
        self.data.as_slice()
    }

    /// The element of `row` and `col`.
    ///
    /// Only the flat index `row * cols + col` is checked against the number of
    /// elements. So `col` may exceed the column count where `row` is small
    /// enough: the element of a later row is then returned.
    pub fn get(&self, row: usize, col: usize) -> (res: Result<T, MatrixError>)
        ensures
            self@.holds(row as int, col as int) ==> res == Ok::<T, MatrixError>(
                self@.at(row as int, col as int),
            ),
            !self@.holds(row as int, col as int) ==> fails_with(res, MatrixError::OutOfBounds),
    {
        self::get(&self.data, self.cols, (row, col))
    }
}

impl<T: Scalar> Matrix<T> {
    /// The Euclidean length of a column vector: `sqrt` of the sum of the
    /// squares of its elements, added to a zero one after the other.
    ///
    /// The square root is the caller's: the library has none of its own for
    /// an arbitrary element type.
    pub fn vector_length<F: Fn(T) -> T>(&self, sqrt: F) -> (res: Result<T, MatrixError>)
        requires
            self@.is_vector() ==> length_defined(self@.elements, sqrt),
        ensures
            !self@.is_vector() ==> fails_with(res, MatrixError::NotAVector),
            self@.is_vector() ==> res is Ok && is_length(self@.elements, sqrt, res.unwrap()),
    {
        match self.assert_vector() {
            Ok(_) => {},
            Err(error) => {
                return Err(error);
            },
        }
        let square: T = sum_of_squares(self.raw_data());
        assert(can_root(sqrt, square));
        let length: T = sqrt(square);
        assert(is_root(sqrt, square, length));
        Ok(length)
    }

    /// The column vector of the same direction and of length one: each
    /// element divided by the length.
    ///
    /// Nothing is done about a length of zero: what comes out is what `/`
    /// makes of it.
    pub fn vector_unit<F: Fn(T) -> T>(&self, sqrt: F) -> (res: Result<Matrix<T>, MatrixError>)
        requires
            self@.is_vector() ==> unit_defined(self@.elements, sqrt),
        ensures
            !self@.is_vector() ==> fails_with(res, MatrixError::NotAVector),
            self@.is_vector() ==> res is Ok && res.unwrap()@.rows == self@.rows
                && res.unwrap()@.cols == 1 && is_unit(
                self@.elements,
                sqrt,
                res.unwrap()@.elements,
            ),
    {
        proof {
            use_type_invariant(self);
        }
        let length: T = match self.vector_length(sqrt) {
            Ok(length) => length,
            Err(error) => {
                return Err(error);
            },
        };
        proof {
            self@.lemma_vector_elements();
        }
        let data: Vec<T> = divided(self.raw_data(), length);
        Self::vector(data)
    }

    /// The matrix product `self * rhs`. Where both are column vectors,
    /// `self` is read as a row, and the result is the one-by-one matrix of
    /// their inner product.
    pub fn dot(&self, rhs: &Self) -> (res: Result<Self, MatrixError>)
        requires
            left_operand(self@, rhs@).cols == rhs@.rows ==> product_defined(
                left_operand(self@, rhs@),
                rhs@,
            ),
        ensures
            left_operand(self@, rhs@).cols != rhs@.rows ==> fails_with(
                res,
                MatrixError::MatrixDimensionsDoNotMatchForDotProduct,
            ),
            left_operand(self@, rhs@).cols == rhs@.rows ==> res is Ok && is_product_of(
                left_operand(self@, rhs@),
                rhs@,
                res.unwrap()@,
            ),
    {
        proof {
            use_type_invariant(self);
            use_type_invariant(rhs);
        }
        let ghost left = left_operand(self@, rhs@);
        proof {
            if self@.is_vector() {
                self@.lemma_vector_elements();
            }
            assert forall|row: int, col: int, k: int|
                0 <= row < left.rows && 0 <= col < rhs@.cols && 0 <= k < left.cols && left.cols
                    == rhs@.rows implies #[trigger] step_in_bounds(left, rhs@, row, col, k) by {
                left.lemma_holds(row, k);
                rhs@.lemma_holds(k, col);
            }
        }
        let lhs_raw = (copy_of(self.raw_data()), self.rows, self.cols);
        let rhs_raw = (copy_of(rhs.raw_data()), rhs.rows, rhs.cols);
        assert(left_operand(raw_view(lhs_raw), raw_view(rhs_raw)) == left);
        assert(raw_view(rhs_raw) == rhs@);
        match self::dot(lhs_raw, rhs_raw) {
            Ok(out) => {
                proof {
                    assert(left.rows * rhs@.cols >= 1) by (nonlinear_arith)
                        requires
                            left.rows >= 1,
                            rhs@.cols >= 1,
                    ;
                }
                Self::from_flat_vec(out.0, out.1, out.2)
            },
            Err(error) => Err(error),
        }
    }

    /// The inner product of two column vectors of equal length.
    pub fn vector_dot(&self, rhs: &Self) -> (res: Result<T, MatrixError>)
        requires
            self@.is_vector() && rhs@.is_vector() && self@.rows == rhs@.rows ==> inner_defined(
                self@.elements,
                rhs@.elements,
            ),
        ensures
            !self@.is_vector() || !rhs@.is_vector() ==> fails_with(res, MatrixError::NotAVector),
            self@.is_vector() && rhs@.is_vector() && self@.rows != rhs@.rows ==> fails_with(
                res,
                MatrixError::MatrixDimensionsDoNotMatchForDotProduct,
            ),
            self@.is_vector() && rhs@.is_vector() && self@.rows == rhs@.rows ==> res is Ok
                && is_inner_product(self@.elements, rhs@.elements, res.unwrap()),
    {
        proof {
            use_type_invariant(self);
            use_type_invariant(rhs);
        }
        match self.assert_vector() {
            Ok(_) => {},
            Err(error) => {
                return Err(error);
            },
        }
        match rhs.assert_vector() {
            Ok(_) => {},
            Err(error) => {
                return Err(error);
            },
        }
        proof {
            self@.lemma_vector_elements();
            rhs@.lemma_vector_elements();
            assert(left_operand(self@, rhs@) == row_of(self@));
            assert(row_of(self@).row(0) =~= self@.elements);
            if self@.rows == rhs@.rows {
                assert forall|row: int, col: int|
                    0 <= row < 1 && 0 <= col < 1 implies #[trigger] entry_defined(
                    row_of(self@),
                    rhs@,
                    row,
                    col,
                ) by {
                }
            }
        }
        let result: Matrix<T> = match self.dot(rhs) {
            Ok(matrix) => matrix,
            Err(error) => {
                return Err(error);
            },
        };
        proof {
            assert(is_entry(row_of(self@), rhs@, 0, 0, result@.at(0, 0)));
            assert(result@.flat_index(0, 0) == 0);
        }
        let data = result.raw_data();
        Ok(data[0])
    }

    /// The cross product of two column vectors of three elements.
    pub fn vector_cross(&self, rhs: &Self) -> (res: Result<Matrix<T>, MatrixError>)
        requires
            self@.is_vector() && rhs@.is_vector() && self@.rows == 3 && rhs@.rows == 3
                ==> cross_defined(self@.elements, rhs@.elements),
        ensures
            !self@.is_vector() || !rhs@.is_vector() ==> fails_with(res, MatrixError::NotAVector),
            self@.is_vector() && rhs@.is_vector() && (self@.rows != 3 || rhs@.rows != 3)
                ==> fails_with(res, MatrixError::VectorMustBe3DForCrossProduct),
            self@.is_vector() && rhs@.is_vector() && self@.rows == 3 && rhs@.rows == 3 ==> res is Ok
                && res.unwrap()@.rows == 3 && res.unwrap()@.cols == 1 && is_cross(
                self@.elements,
                rhs@.elements,
                res.unwrap()@.elements,
            ),
    {
        proof {
            use_type_invariant(self);
            use_type_invariant(rhs);
        }
        match self.assert_vector() {
            Ok(_) => {},
            Err(error) => {
                return Err(error);
            },
        }
        match rhs.assert_vector() {
            Ok(_) => {},
            Err(error) => {
                return Err(error);
            },
        }
        if self.rows != 3 || rhs.rows != 3 {
            return Err(MatrixError::VectorMustBe3DForCrossProduct);
        }
        let a = self.raw_data();
        let b = rhs.raw_data();
        proof {
            self@.lemma_vector_elements();
            rhs@.lemma_vector_elements();
        }
        let first: T = minor(a[1], b[2], a[2], b[1]);
        let second: T = minor(a[2], b[0], a[0], b[2]);
        let third: T = minor(a[0], b[1], a[1], b[0]);
        Self::vector_3((first, second, third))
    }

    /// The element-wise sum, in the shape of `self`.
    ///
    /// The operands need the same number of elements, not the same shape.
    pub fn add(self, rhs: Matrix<T>) -> (res: Result<Matrix<T>, MatrixError>)
        requires
            self@.elements.len() == rhs@.elements.len() ==> sums_defined(
                self@.elements,
                rhs@.elements,
            ),
        ensures
            self@.elements.len() != rhs@.elements.len() ==> fails_with(
                res,
                MatrixError::MatricesMustHaveSameDimensions,
            ),
            self@.elements.len() == rhs@.elements.len() ==> res is Ok && res.unwrap()@.rows
                == self@.rows && res.unwrap()@.cols == self@.cols && is_sums(
                self@.elements,
                rhs@.elements,
                res.unwrap()@.elements,
            ),
    {
        proof {
            use_type_invariant(&self);
            self@.lemma_not_empty();
        }
        let rows: usize = self.rows;
        let cols: usize = self.cols;
        match self::add(self.data, rhs.data) {
            Ok(result) => Self::from_flat_vec(result, rows, cols),
            Err(error) => Err(error),
        }
    }

    /// The element-wise difference, in the shape of `self`.
    ///
    /// The operands need the same number of elements, not the same shape.
    pub fn sub(self, rhs: Matrix<T>) -> (res: Result<Matrix<T>, MatrixError>)
        requires
            self@.elements.len() == rhs@.elements.len() ==> differences_defined(
                self@.elements,
                rhs@.elements,
            ),
        ensures
            self@.elements.len() != rhs@.elements.len() ==> fails_with(
                res,
                MatrixError::MatricesMustHaveSameDimensions,
            ),
            self@.elements.len() == rhs@.elements.len() ==> res is Ok && res.unwrap()@.rows
                == self@.rows && res.unwrap()@.cols == self@.cols && is_differences(
                self@.elements,
                rhs@.elements,
                res.unwrap()@.elements,
            ),
    {
        proof {
            use_type_invariant(&self);
            self@.lemma_not_empty();
        }
        let rows: usize = self.rows;
        let cols: usize = self.cols;
        match self::sub(self.data, rhs.data) {
            Ok(result) => Self::from_flat_vec(result, rows, cols),
            Err(error) => Err(error),
        }
    }

    /// Every element times the scalar `rhs`, in the shape of `self`.
    pub fn mul(self, rhs: T) -> (product: Matrix<T>)
        requires
            scaled_defined(self@.elements, rhs),
        ensures
            product@.rows == self@.rows,
            product@.cols == self@.cols,
            is_scaled(self@.elements, rhs, product@.elements),
    {
        proof {
            use_type_invariant(&self);
            self@.lemma_not_empty();
        }
        let rows: usize = self.rows;
        let cols: usize = self.cols;
        let result: Vec<T> = self::mul(self.data, rhs).unwrap();
        Self::from_flat_vec(result, rows, cols).unwrap()
    }

    /// Refuses a matrix with more than one column.
    fn assert_vector(&self) -> (res: Result<(), MatrixError>)
        ensures
            self@.is_vector() ==> res is Ok,
            !self@.is_vector() ==> fails_with(res, MatrixError::NotAVector),
    {
        if self.cols != 1 {
            return Err(MatrixError::NotAVector);
        }
        Ok(())
    }
}

/// Raw data with its shape, as a model matrix. Nothing is asked of the
/// lengths.
pub open spec fn raw_view<T>(raw: (Vec<T>, usize, usize)) -> MatrixView<T> {
    MatrixView { rows: raw.1 as nat, cols: raw.2 as nat, elements: raw.0@ }
}

/// The element at `loc = (row, col)` of row-major `data` with `cols` columns.
///
/// Only the flat index `row * cols + col` is checked: a column past `cols`
/// is accepted as long as the index stays within `data`.
pub fn get<T: Copy>(data: &Vec<T>, cols: usize, loc: (usize, usize)) -> (res: Result<
    T,
    MatrixError,
>)
    ensures
        loc.0 * cols + loc.1 < data.len() ==> res == Ok::<T, MatrixError>(
            data[loc.0 * cols + loc.1],
        ),
        loc.0 * cols + loc.1 >= data.len() ==> fails_with(res, MatrixError::OutOfBounds),
{
    let row: usize = loc.0;
    let col: usize = loc.1;
    let start: usize = match row.checked_mul(cols) {
        Some(start) => start,
        None => {
            return Err(MatrixError::OutOfBounds);
        },
    };
    let index: usize = match start.checked_add(col) {
        Some(index) => index,
        None => {
            return Err(MatrixError::OutOfBounds);
        },
    };
    if index >= data.len() {
        return Err(MatrixError::OutOfBounds);
    }
    Ok(data[index])
}

/// The element-wise sum of two sequences of equal length.
pub fn add<T: Scalar>(lhs: Vec<T>, rhs: Vec<T>) -> (res: Result<Vec<T>, MatrixError>)
    requires
        lhs.len() == rhs.len() ==> sums_defined(lhs@, rhs@),
    ensures
        lhs.len() != rhs.len() ==> fails_with(res, MatrixError::MatricesMustHaveSameDimensions),
        lhs.len() == rhs.len() ==> res is Ok && is_sums(lhs@, rhs@, res.unwrap()@),
{
    if lhs.len() != rhs.len() {
        return Err(MatrixError::MatricesMustHaveSameDimensions);
    }
    let mut result: Vec<T> = Vec::new();
    let mut i: usize = 0;
    while i < lhs.len()
        invariant
            lhs.len() == rhs.len(),
            sums_defined(lhs@, rhs@),
            0 <= i <= lhs.len(),
            result.len() == i,
            forall|j: int| 0 <= j < i ==> #[trigger] is_sum(lhs[j], rhs[j], result[j]),
        decreases lhs.len() - i,
    {
        assert(can_add(lhs[i as int], rhs[i as int]));
        result.push(lhs[i] + rhs[i]);
        i = i + 1;
    }
    Ok(result)
}

/// The element-wise difference of two sequences of equal length.
pub fn sub<T: Scalar>(lhs: Vec<T>, rhs: Vec<T>) -> (res: Result<Vec<T>, MatrixError>)
    requires
        lhs.len() == rhs.len() ==> differences_defined(lhs@, rhs@),
    ensures
        lhs.len() != rhs.len() ==> fails_with(res, MatrixError::MatricesMustHaveSameDimensions),
        lhs.len() == rhs.len() ==> res is Ok && is_differences(lhs@, rhs@, res.unwrap()@),
{
    if lhs.len() != rhs.len() {
        return Err(MatrixError::MatricesMustHaveSameDimensions);
    }
    let mut result: Vec<T> = Vec::new();
    let mut i: usize = 0;
    while i < lhs.len()
        invariant
            lhs.len() == rhs.len(),
            differences_defined(lhs@, rhs@),
            0 <= i <= lhs.len(),
            result.len() == i,
            forall|j: int| 0 <= j < i ==> #[trigger] is_difference(lhs[j], rhs[j], result[j]),
        decreases lhs.len() - i,
    {
        assert(can_subtract(lhs[i as int], rhs[i as int]));
        result.push(lhs[i] - rhs[i]);
        i = i + 1;
    }
    Ok(result)
}

/// Every element of `lhs` times the scalar `rhs`. This never fails.
pub fn mul<T: Scalar>(lhs: Vec<T>, rhs: T) -> (res: Result<Vec<T>, MatrixError>)
    requires
        scaled_defined(lhs@, rhs),
    ensures
        res is Ok,
        is_scaled(lhs@, rhs, res.unwrap()@),
{
    let mut result: Vec<T> = Vec::new();
    let mut i: usize = 0;
    while i < lhs.len()
        invariant
            scaled_defined(lhs@, rhs),
            0 <= i <= lhs.len(),
            result.len() == i,
            forall|j: int| 0 <= j < i ==> #[trigger] is_product(lhs[j], rhs, result[j]),
        decreases lhs.len() - i,
    {
        assert(can_multiply(lhs[i as int], rhs));
        result.push(lhs[i] * rhs);
        i = i + 1;
    }
    Ok(result)
}

/// The matrix product of raw data, by the schoolbook triple loop.
///
/// Each operand is `(elements, rows, cols)`. Where both have one column the
/// left one is read as a row, so that two column vectors give their inner
/// product. The lengths of the data are not held against the shapes: only
/// an element that the loop would read past the end of its operand gives
/// `OutOfBounds`, and then nothing is computed.
pub fn dot<T: Scalar>(lhs: (Vec<T>, usize, usize), rhs: (Vec<T>, usize, usize)) -> (res: Result<
    (Vec<T>, usize, usize),
    MatrixError,
>)
    requires
        left_operand(raw_view(lhs), raw_view(rhs)).cols == rhs.1 && product_in_bounds(
            left_operand(raw_view(lhs), raw_view(rhs)),
            raw_view(rhs),
        ) ==> product_defined(left_operand(raw_view(lhs), raw_view(rhs)), raw_view(rhs)),
    ensures
        left_operand(raw_view(lhs), raw_view(rhs)).cols != rhs.1 ==> fails_with(
            res,
            MatrixError::MatrixDimensionsDoNotMatchForDotProduct,
        ),
        left_operand(raw_view(lhs), raw_view(rhs)).cols == rhs.1 && !product_in_bounds(
            left_operand(raw_view(lhs), raw_view(rhs)),
            raw_view(rhs),
        ) ==> fails_with(res, MatrixError::OutOfBounds),
        left_operand(raw_view(lhs), raw_view(rhs)).cols == rhs.1 && product_in_bounds(
            left_operand(raw_view(lhs), raw_view(rhs)),
            raw_view(rhs),
        ) ==> res is Ok && is_product_of(
            left_operand(raw_view(lhs), raw_view(rhs)),
            raw_view(rhs),
            raw_view(res.unwrap()),
        ),
{
    let both_vectors: bool = lhs.2 == 1 && rhs.2 == 1;
    let lhs_r: usize = if both_vectors {
        1
    } else {
        lhs.1
    };
    let lhs_c: usize = if both_vectors {
        lhs.1
    } else {
        lhs.2
    };
    let rhs_r: usize = rhs.1;
    let rhs_c: usize = rhs.2;
    let ghost left = left_operand(raw_view(lhs), raw_view(rhs));
    let ghost right = raw_view(rhs);
    assert(left.rows == lhs_r && left.cols == lhs_c && left.elements == lhs.0@);

    if lhs_c != rhs_r {
        return Err(MatrixError::MatrixDimensionsDoNotMatchForDotProduct);
    }
    if lhs_r > 0 && rhs_c > 0 && rhs_r > 0 {
        match self::get(&lhs.0, lhs_c, (lhs_r - 1, lhs_c - 1)) {
            Ok(_) => {},
            Err(error) => {
                assert(!step_in_bounds(left, right, lhs_r - 1, 0, lhs_c - 1));
                return Err(error);
            },
        }
        match self::get(&rhs.0, rhs_c, (rhs_r - 1, rhs_c - 1)) {
            Ok(_) => {},
            Err(error) => {
                assert(!step_in_bounds(left, right, 0, rhs_c - 1, rhs_r - 1));
                return Err(error);
            },
        }
    }
    proof {
        assert forall|row: int, col: int, k: int|
            0 <= row < lhs_r && 0 <= col < rhs_c && 0 <= k < lhs_c implies step_in_bounds(
            left,
            right,
            row,
            col,
            k,
        ) by {
            assert(0 <= row * lhs_c + k <= (lhs_r - 1) * lhs_c + (lhs_c - 1)) by (nonlinear_arith)
                requires
                    0 <= row < lhs_r,
                    0 <= k < lhs_c,
            ;
            assert(0 <= k * rhs_c + col <= (rhs_r - 1) * rhs_c + (rhs_c - 1)) by (nonlinear_arith)
                requires
                    0 <= k < rhs_r,
                    0 <= col < rhs_c,
            ;
        }
        assert(product_in_bounds(left, right));
    }
    let mut data: Vec<T> = Vec::new();
    let mut row: usize = 0;
    while row < lhs_r
        invariant
            left.rows == lhs_r && left.cols == lhs_c && left.elements == lhs.0@,
            right == raw_view(rhs),
            rhs_r == rhs.1 && rhs_c == rhs.2 && lhs_c == rhs_r,
            product_in_bounds(left, right),
            product_defined(left, right),
            0 <= row <= lhs_r,
            data.len() == row * rhs_c,
            forall|i: int|
                0 <= i < data.len() ==> is_entry(
                    left,
                    right,
                    i / (rhs_c as int),
                    i % (rhs_c as int),
                    #[trigger] data[i],
                ),
        decreases lhs_r - row,
    {
        let mut col: usize = 0;
        while col < rhs_c
            invariant
                left.rows == lhs_r && left.cols == lhs_c && left.elements == lhs.0@,
                right == raw_view(rhs),
                rhs_r == rhs.1 && rhs_c == rhs.2 && lhs_c == rhs_r,
                product_in_bounds(left, right),
                product_defined(left, right),
                0 <= row < lhs_r,
                0 <= col <= rhs_c,
                data.len() == row * rhs_c + col,
                forall|i: int|
                    0 <= i < data.len() ==> is_entry(
                        left,
                        right,
                        i / (rhs_c as int),
                        i % (rhs_c as int),
                        #[trigger] data[i],
                    ),
            decreases rhs_c - col,
        {
            let ghost a = left.row(row as int);
            let ghost b = right.column(col as int);
            assert(entry_defined(left, right, row as int, col as int));
            let mut val: T = zero_value();
            let mut k: usize = 0;
            while k < rhs_r
                invariant
                    left.rows == lhs_r && left.cols == lhs_c && left.elements == lhs.0@,
                    right == raw_view(rhs),
                    rhs_r == rhs.1 && rhs_c == rhs.2 && lhs_c == rhs_r,
                    product_in_bounds(left, right),
                    a == left.row(row as int),
                    b == right.column(col as int),
                    inner_defined(a, b),
                    0 <= row < lhs_r,
                    0 <= col < rhs_c,
                    0 <= k <= rhs_r,
                    is_inner_prefix(a, b, k as nat, val),
                decreases rhs_r - k,
            {
                assert(step_in_bounds(left, right, row as int, col as int, k as int));
                assert(inner_step_defined(a, b, k as int));
                let lhs_val: T = match self::get(&lhs.0, lhs_c, (row, k)) {
                    Ok(value) => value,
                    Err(error) => {
                        return Err(error);
                    },
                };
                let rhs_val: T = match self::get(&rhs.0, rhs_c, (k, col)) {
                    Ok(value) => value,
                    Err(error) => {
                        return Err(error);
                    },
                };
                assert(lhs_val == a[k as int]);
                assert(rhs_val == b[k as int]);
                let term: T = lhs_val * rhs_val;
                assert(can_add(val, term));
                let next: T = val + term;
                assert(is_sum(val, term, next));
                val = next;
                k = k + 1;
            }
            proof {
                lemma_flat_index_splits(row as int, col as int, rhs_c as int);
            }
            data.push(val);
            col = col + 1;
        }
        proof {
            assert((row + 1) * rhs_c == row * rhs_c + rhs_c) by (nonlinear_arith);
        }
        row = row + 1;
    }
    proof {
        let out = (MatrixView { rows: lhs_r as nat, cols: rhs_c as nat, elements: data@ });
        assert forall|row: int, col: int|
            0 <= row < left.rows && 0 <= col < right.cols implies #[trigger] is_entry(
            left,
            right,
            row,
            col,
            out.at(row, col),
        ) by {
            out.lemma_holds(row, col);
            lemma_flat_index_splits(row, col, rhs_c as int);
        }
    }
    Ok((data, lhs_r, rhs_c))
}

} // verus!
