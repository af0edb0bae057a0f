//! Vectors of two, three and four elements, held by value.
//!
//! Unlike the vector operations of [`crate::matrix::Matrix`], the sums here
//! start from their first term: no zero is added in front.

use crate::arithmetic::minor;
use crate::model::{
    cross_defined, differences_defined, is_cross, is_differences, is_quotients, is_scaled,
    is_sums, quotients_defined, scaled_defined, sums_defined,
};
use crate::scalar::{
    can_add, can_divide, can_multiply, can_root, can_subtract, is_product, is_root, is_sum,
    Scalar,
};
use vstd::prelude::*;
use vstd::std_specs::cmp::{PartialEqSpec, PartialEqSpecImpl};

verus! {

/// `sum` is a value that the first `k` products `a[i] * b[i]` may add up
/// to, for `k >= 1`, when they are added one after the other in the order
/// of `i`, starting from the first product.
pub open spec fn is_products_sum<T: Scalar>(a: Seq<T>, b: Seq<T>, k: nat, sum: T) -> bool
    decreases k,
{
    if k <= 1 {
        is_product(a[0], b[0], sum)
    } else {
        exists|before: T, term: T|
            {
                &&& is_products_sum(a, b, (k - 1) as nat, before)
                &&& is_product(a[k - 1], b[k - 1], term)
                &&& #[trigger] is_sum(before, term, sum)
            }
    }
}

/// The operators accept the operands of every step of the sum of the first
/// `k` products `a[i] * b[i]`.
pub open spec fn products_sum_defined<T: Scalar>(a: Seq<T>, b: Seq<T>, k: nat) -> bool
    decreases k,
{
    if k <= 1 {
        can_multiply(a[0], b[0])
    } else {
        &&& products_sum_defined(a, b, (k - 1) as nat)
        &&& can_multiply(a[k - 1], b[k - 1])
        &&& forall|before: T, term: T|
            is_products_sum(a, b, (k - 1) as nat, before) && is_product(a[k - 1], b[k - 1], term)
                ==> #[trigger] can_add(before, term)
    }
}

/// `out` is an inner product of the vectors `a` and `b` of this module.
pub open spec fn is_dot<T: Scalar>(a: Seq<T>, b: Seq<T>, out: T) -> bool {
    is_products_sum(a, b, a.len(), out)
}

/// The operators accept the operands of every step of the inner product of
/// `a` and `b`.
pub open spec fn dot_defined<T: Scalar>(a: Seq<T>, b: Seq<T>) -> bool {
    products_sum_defined(a, b, a.len())
}

/// The length of `v` can be computed with the square root `sqrt`: the
/// operators accept every step of the sum of the squares, and `sqrt` accepts
/// every such sum.
pub open spec fn length_defined<T: Scalar, F: Fn(T) -> T>(v: Seq<T>, sqrt: F) -> bool {
    &&& dot_defined(v, v)
    &&& forall|square: T| is_dot(v, v, square) ==> #[trigger] can_root(sqrt, square)
}

/// `length` is a length of `v` under the square root `sqrt`: a value that
/// `sqrt` may return for a sum of the squares.
pub open spec fn is_length<T: Scalar, F: Fn(T) -> T>(v: Seq<T>, sqrt: F, length: T) -> bool {
    exists|square: T| is_dot(v, v, square) && #[trigger] is_root(sqrt, square, length)
}

/// The unit vector of `v` can be computed with the square root `sqrt`: the
/// length can, and `/` accepts every element with every length.
pub open spec fn unit_defined<T: Scalar, F: Fn(T) -> T>(v: Seq<T>, sqrt: F) -> bool {
    &&& length_defined(v, sqrt)
    &&& forall|length: T| #[trigger] is_length(v, sqrt, length) ==> quotients_defined(v, length)
}

/// `out` is a unit vector of `v` under the square root `sqrt`: the elements
/// divided by one length of `v`.
pub open spec fn is_unit<T: Scalar, F: Fn(T) -> T>(v: Seq<T>, sqrt: F, out: Seq<T>) -> bool {
    exists|length: T| #[trigger] is_length(v, sqrt, length) && is_quotients(v, length, out)
}

/// A vector of two elements.
#[derive(Debug)]
pub struct Vector2<T>(T, T);

impl<T> View for Vector2<T> {
    type V = Seq<T>;

    closed spec fn view(&self) -> Seq<T> {
        seq![self.0, self.1]
    }
}

/// Two vectors are equal where their elements are equal place by place, by
/// the equality of the element type.
impl<T: PartialEq> PartialEq for Vector2<T> {
    fn eq(&self, other: &Self) -> (equal: bool) {
        self.0 == other.0 && self.1 == other.1
    }
}

impl<T: PartialEq> PartialEqSpecImpl for Vector2<T> {
    open spec fn obeys_eq_spec() -> bool {
        T::obeys_eq_spec()
    }

    open spec fn eq_spec(&self, other: &Self) -> bool {
        &&& self@[0].eq_spec(&other@[0])
        &&& self@[1].eq_spec(&other@[1])
    }
}

impl<T> Vector2<T> {
    /// A vector of this type has two elements.
    pub proof fn lemma_len(&self)
        ensures
            self@.len() == 2,
    {
    }
}

impl<T: Scalar> Vector2<T> {
    /// The vector of the two elements of `dims`.
    pub fn new(dims: (T, T)) -> (vector: Self)
        ensures
            vector@ == seq![dims.0, dims.1],
    {
        Self(dims.0, dims.1)
    }

    /// The element-wise sum.
    pub fn add(self, rhs: Vector2<T>) -> (sum: Vector2<T>)
        requires
            sums_defined(self@, rhs@),
        ensures
            is_sums(self@, rhs@, sum@),
    {
        assert(can_add(self@[0], rhs@[0]));
        assert(can_add(self@[1], rhs@[1]));
        Vector2::new((self.0 + rhs.0, self.1 + rhs.1))
    }

    /// The element-wise difference.
    pub fn sub(self, rhs: Vector2<T>) -> (difference: Vector2<T>)
        requires
            differences_defined(self@, rhs@),
        ensures
            is_differences(self@, rhs@, difference@),
    {
        assert(can_subtract(self@[0], rhs@[0]));
        assert(can_subtract(self@[1], rhs@[1]));
        Vector2::new((self.0 - rhs.0, self.1 - rhs.1))
    }

    /// Every element times the scalar `rhs`.
    pub fn mul(self, rhs: T) -> (product: Vector2<T>)
        requires
            scaled_defined(self@, rhs),
        ensures
            is_scaled(self@, rhs, product@),
    {
        assert(can_multiply(self@[0], rhs));
        assert(can_multiply(self@[1], rhs));
        Vector2::new((self.0 * rhs, self.1 * rhs))
    }

    /// The Euclidean length: `sqrt` of the sum of the squares.
    pub fn length<F: Fn(T) -> T>(&self, sqrt: F) -> (length: T)
        requires
            length_defined(self@, sqrt),
        ensures
            is_length(self@, sqrt, length),
    {
        let square: T = self.products_sum(self);
        assert(can_root(sqrt, square));
        let length: T = sqrt(square);
        assert(is_root(sqrt, square, length));
        length
    }

    /// The vector of the same direction and of length one: each element
    /// divided by the length. Nothing is done about a length of zero.
    pub fn unit<F: Fn(T) -> T>(&self, sqrt: F) -> (unit: Vector2<T>)
        requires
            unit_defined(self@, sqrt),
        ensures
            is_unit(self@, sqrt, unit@),
    {
        let length: T = self.length(sqrt);
        assert(can_divide(self@[0], length));
        assert(can_divide(self@[1], length));
        let unit = Vector2(self.0 / length, self.1 / length);
        assert(is_quotients(self@, length, unit@));
        unit
    }

    /// The inner product.
    pub fn dot(&self, other: Vector2<T>) -> (product: T)
        requires
            dot_defined(self@, other@),
        ensures
            is_dot(self@, other@, product),
    {
        self.products_sum(&other)
    }

    /// The sum of the products of the elements at the same place, from the
    /// first on.
    fn products_sum(&self, other: &Vector2<T>) -> (sum: T)
        requires
            dot_defined(self@, other@),
        ensures
            is_dot(self@, other@, sum),
    {
        proof {
            reveal_with_fuel(products_sum_defined, 2);
        }
        let ghost a = self@;
        let ghost b = other@;
        let sum: T = self.0 * other.0;
        assert(is_products_sum(a, b, 1, sum));
        let term: T = self.1 * other.1;
        assert(can_add(sum, term));
        let next: T = sum + term;
        assert(is_sum(sum, term, next));
        assert(is_products_sum(a, b, 2, next));
        let sum: T = next;
        sum
    }
}

/// A vector of three elements.
#[derive(Debug)]
pub struct Vector3<T>(T, T, T);

impl<T> View for Vector3<T> {
    type V = Seq<T>;

    closed spec fn view(&self) -> Seq<T> {
        seq![self.0, self.1, self.2]
    }
}

/// Two vectors are equal where their elements are equal place by place, by
/// the equality of the element type.
impl<T: PartialEq> PartialEq for Vector3<T> {
    fn eq(&self, other: &Self) -> (equal: bool) {
        self.0 == other.0 && self.1 == other.1 && self.2 == other.2
    }
}

impl<T: PartialEq> PartialEqSpecImpl for Vector3<T> {
    open spec fn obeys_eq_spec() -> bool {
        T::obeys_eq_spec()
    }

    open spec fn eq_spec(&self, other: &Self) -> bool {
        &&& self@[0].eq_spec(&other@[0])
        &&& self@[1].eq_spec(&other@[1])
        &&& self@[2].eq_spec(&other@[2])
    }
}

impl<T> Vector3<T> {
    /// A vector of this type has three elements.
    pub proof fn lemma_len(&self)
        ensures
            self@.len() == 3,
    {
    }
}

impl<T: Scalar> Vector3<T> {
    /// The vector of the three elements of `dims`.
    pub fn new(dims: (T, T, T)) -> (vector: Self)
        ensures
            vector@ == seq![dims.0, dims.1, dims.2],
    {
        Self(dims.0, dims.1, dims.2)
    }

    /// The element-wise sum.
    pub fn add(self, rhs: Vector3<T>) -> (sum: Vector3<T>)
        requires
            sums_defined(self@, rhs@),
        ensures
            is_sums(self@, rhs@, sum@),
    {
        assert(can_add(self@[0], rhs@[0]));
        assert(can_add(self@[1], rhs@[1]));
        assert(can_add(self@[2], rhs@[2]));
        Vector3::new((self.0 + rhs.0, self.1 + rhs.1, self.2 + rhs.2))
    }

    /// The element-wise difference.
    pub fn sub(self, rhs: Vector3<T>) -> (difference: Vector3<T>)
        requires
            differences_defined(self@, rhs@),
        ensures
            is_differences(self@, rhs@, difference@),
    {
        assert(can_subtract(self@[0], rhs@[0]));
        assert(can_subtract(self@[1], rhs@[1]));
        assert(can_subtract(self@[2], rhs@[2]));
        Vector3::new((self.0 - rhs.0, self.1 - rhs.1, self.2 - rhs.2))
    }

    /// Every element times the scalar `rhs`.
    pub fn mul(self, rhs: T) -> (product: Vector3<T>)
        requires
            scaled_defined(self@, rhs),
        ensures
            is_scaled(self@, rhs, product@),
    {
        assert(can_multiply(self@[0], rhs));
        assert(can_multiply(self@[1], rhs));
        assert(can_multiply(self@[2], rhs));
        Vector3::new((self.0 * rhs, self.1 * rhs, self.2 * rhs))
    }

    /// The Euclidean length: `sqrt` of the sum of the squares.
    pub fn length<F: Fn(T) -> T>(&self, sqrt: F) -> (length: T)
        requires
            length_defined(self@, sqrt),
        ensures
            is_length(self@, sqrt, length),
    {
        let square: T = self.products_sum(self);
        assert(can_root(sqrt, square));
        let length: T = sqrt(square);
        assert(is_root(sqrt, square, length));
        length
    }

    /// The vector of the same direction and of length one: each element
    /// divided by the length. Nothing is done about a length of zero.
    pub fn unit<F: Fn(T) -> T>(&self, sqrt: F) -> (unit: Vector3<T>)
        requires
            unit_defined(self@, sqrt),
        ensures
            is_unit(self@, sqrt, unit@),
    {
        let length: T = self.length(sqrt);
        assert(can_divide(self@[0], length));
        assert(can_divide(self@[1], length));
        assert(can_divide(self@[2], length));
        let unit = Vector3(self.0 / length, self.1 / length, self.2 / length);
        assert(is_quotients(self@, length, unit@));
        unit
    }

    /// The inner product.
    pub fn dot(&self, other: Vector3<T>) -> (product: T)
        requires
            dot_defined(self@, other@),
        ensures
            is_dot(self@, other@, product),
    {
        self.products_sum(&other)
    }

    /// The cross product.
    pub fn cross(&self, other: Vector3<T>) -> (product: Vector3<T>)
        requires
            cross_defined(self@, other@),
        ensures
            is_cross(self@, other@, product@),
    {
        Vector3(
            minor(self.1, other.2, self.2, other.1),
            minor(self.2, other.0, self.0, other.2),
            minor(self.0, other.1, self.1, other.0),
        )
    }

    /// The sum of the products of the elements at the same place, from the
    /// first on.
    fn products_sum(&self, other: &Vector3<T>) -> (sum: T)
        requires
            dot_defined(self@, other@),
        ensures
            is_dot(self@, other@, sum),
    {
        proof {
            reveal_with_fuel(products_sum_defined, 3);
        }
        let ghost a = self@;
        let ghost b = other@;
        let sum: T = self.0 * other.0;
        assert(is_products_sum(a, b, 1, sum));
        let term: T = self.1 * other.1;
        assert(can_add(sum, term));
        let next: T = sum + term;
        assert(is_sum(sum, term, next));
        assert(is_products_sum(a, b, 2, next));
        let sum: T = next;
        let term: T = self.2 * other.2;
        assert(can_add(sum, term));
        let next: T = sum + term;
        assert(is_sum(sum, term, next));
        assert(is_products_sum(a, b, 3, next));
        let sum: T = next;
        sum
    }
}

/// A vector of four elements.
#[derive(Debug)]
pub struct Vector4<T>(T, T, T, T);

impl<T> View for Vector4<T> {
    type V = Seq<T>;

    closed spec fn view(&self) -> Seq<T> {
        seq![self.0, self.1, self.2, self.3]
    }
}

/// Two vectors are equal where their elements are equal place by place, by
/// the equality of the element type.
impl<T: PartialEq> PartialEq for Vector4<T> {
    fn eq(&self, other: &Self) -> (equal: bool) {
        self.0 == other.0 && self.1 == other.1 && self.2 == other.2 && self.3 == other.3
    }
}

impl<T: PartialEq> PartialEqSpecImpl for Vector4<T> {
    open spec fn obeys_eq_spec() -> bool {
        T::obeys_eq_spec()
    }

    open spec fn eq_spec(&self, other: &Self) -> bool {
        &&& self@[0].eq_spec(&other@[0])
        &&& self@[1].eq_spec(&other@[1])
        &&& self@[2].eq_spec(&other@[2])
        &&& self@[3].eq_spec(&other@[3])
    }
}

impl<T> Vector4<T> {
    /// A vector of this type has four elements.
    pub proof fn lemma_len(&self)
        ensures
            self@.len() == 4,
    {
    }
}

impl<T: Scalar> Vector4<T> {
    /// The vector of the four elements of `dims`.
    pub fn new(dims: (T, T, T, T)) -> (vector: Self)
        ensures
            vector@ == seq![dims.0, dims.1, dims.2, dims.3],
    {
        Self(dims.0, dims.1, dims.2, dims.3)
    }

    /// The element-wise sum.
    pub fn add(self, rhs: Vector4<T>) -> (sum: Vector4<T>)
        requires
            sums_defined(self@, rhs@),
        ensures
            is_sums(self@, rhs@, sum@),
    {
        assert(can_add(self@[0], rhs@[0]));
        assert(can_add(self@[1], rhs@[1]));
        assert(can_add(self@[2], rhs@[2]));
        assert(can_add(self@[3], rhs@[3]));
        Vector4::new((self.0 + rhs.0, self.1 + rhs.1, self.2 + rhs.2, self.3 + rhs.3))
    }

    /// The element-wise difference.
    pub fn sub(self, rhs: Vector4<T>) -> (difference: Vector4<T>)
        requires
            differences_defined(self@, rhs@),
        ensures
            is_differences(self@, rhs@, difference@),
    {
        assert(can_subtract(self@[0], rhs@[0]));
        assert(can_subtract(self@[1], rhs@[1]));
        assert(can_subtract(self@[2], rhs@[2]));
        assert(can_subtract(self@[3], rhs@[3]));
        Vector4::new((self.0 - rhs.0, self.1 - rhs.1, self.2 - rhs.2, self.3 - rhs.3))
    }

    /// Every element times the scalar `rhs`.
    pub fn mul(self, rhs: T) -> (product: Vector4<T>)
        requires
            scaled_defined(self@, rhs),
        ensures
            is_scaled(self@, rhs, product@),
    {
        assert(can_multiply(self@[0], rhs));
        assert(can_multiply(self@[1], rhs));
        assert(can_multiply(self@[2], rhs));
        assert(can_multiply(self@[3], rhs));
        Vector4::new((self.0 * rhs, self.1 * rhs, self.2 * rhs, self.3 * rhs))
    }

    /// The Euclidean length: `sqrt` of the sum of the squares.
    pub fn length<F: Fn(T) -> T>(&self, sqrt: F) -> (length: T)
        requires
            length_defined(self@, sqrt),
        ensures
            is_length(self@, sqrt, length),
    {
        let square: T = self.products_sum(self);
        assert(can_root(sqrt, square));
        let length: T = sqrt(square);
        assert(is_root(sqrt, square, length));
        length
    }

    /// The vector of the same direction and of length one: each element
    /// divided by the length. Nothing is done about a length of zero.
    pub fn unit<F: Fn(T) -> T>(&self, sqrt: F) -> (unit: Vector4<T>)
        requires
            unit_defined(self@, sqrt),
        ensures
            is_unit(self@, sqrt, unit@),
    {
        let length: T = self.length(sqrt);
        assert(can_divide(self@[0], length));
        assert(can_divide(self@[1], length));
        assert(can_divide(self@[2], length));
        assert(can_divide(self@[3], length));
        let unit = Vector4(self.0 / length, self.1 / length, self.2 / length, self.3 / length);
        assert(is_quotients(self@, length, unit@));
        unit
    }

    /// The inner product.
    pub fn dot(&self, other: Vector4<T>) -> (product: T)
        requires
            dot_defined(self@, other@),
        ensures
            is_dot(self@, other@, product),
    {
        self.products_sum(&other)
    }

    /// The sum of the products of the elements at the same place, from the
    /// first on.
    fn products_sum(&self, other: &Vector4<T>) -> (sum: T)
        requires
            dot_defined(self@, other@),
        ensures
            is_dot(self@, other@, sum),
    {
        proof {
            reveal_with_fuel(products_sum_defined, 4);
        }
        let ghost a = self@;
        let ghost b = other@;
        let sum: T = self.0 * other.0;
        assert(is_products_sum(a, b, 1, sum));
        let term: T = self.1 * other.1;
        assert(can_add(sum, term));
        let next: T = sum + term;
        assert(is_sum(sum, term, next));
        assert(is_products_sum(a, b, 2, next));
        let sum: T = next;
        let term: T = self.2 * other.2;
        assert(can_add(sum, term));
        let next: T = sum + term;
        assert(is_sum(sum, term, next));
        assert(is_products_sum(a, b, 3, next));
        let sum: T = next;
        let term: T = self.3 * other.3;
        assert(can_add(sum, term));
        let next: T = sum + term;
        assert(is_sum(sum, term, next));
        assert(is_products_sum(a, b, 4, next));
        let sum: T = next;
        sum
    }
}

} // verus!
