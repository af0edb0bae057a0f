//! What the library asks of the type of a matrix element.
//!
//! The library never names an element type. It works with any copyable type
//! that has `+`, `-`, `*`, `/` and a conversion from `i8`, which supplies zero
//! and one.
//!
//! Nothing is assumed of what the operators compute. A contract speaks of an
//! operator through two predicates: whether it accepts a pair of operands
//! ([`can_add`] and its like), and whether a value is one that it may return
//! for them ([`is_sum`] and its like). For the integers `can_add` holds
//! where the sum does not overflow, and `is_sum` pins the sum down. For a
//! type whose arithmetic is left open, such as floating point, the contracts
//! still say which operator was applied to which operands, and in what
//! order.

use core::ops::{Add, Div, Mul, Sub};
use vstd::prelude::*;

verus! {

/// The element types: every type with the four operators and `From<i8>`.
pub trait Scalar: Copy + From<i8> + Add<Output = Self> + Sub<Output = Self> + Mul<
    Output = Self,
> + Div<Output = Self> {

}

impl<T> Scalar for T where
    T: Copy + From<i8> + Add<Output = T> + Sub<Output = T> + Mul<Output = T> + Div<Output = T>,
 {

}

/// `+` accepts `a` and `b`.
pub open spec fn can_add<T: Scalar>(a: T, b: T) -> bool {
    call_requires(<T as Add>::add, (a, b))
}

/// `sum` is a value that `a + b` may return.
pub open spec fn is_sum<T: Scalar>(a: T, b: T, sum: T) -> bool {
    call_ensures(<T as Add>::add, (a, b), sum)
}

/// `-` accepts `a` and `b`.
pub open spec fn can_subtract<T: Scalar>(a: T, b: T) -> bool {
    call_requires(<T as Sub>::sub, (a, b))
}

/// `difference` is a value that `a - b` may return.
pub open spec fn is_difference<T: Scalar>(a: T, b: T, difference: T) -> bool {
    call_ensures(<T as Sub>::sub, (a, b), difference)
}

/// `*` accepts `a` and `b`.
pub open spec fn can_multiply<T: Scalar>(a: T, b: T) -> bool {
    call_requires(<T as Mul>::mul, (a, b))
}

/// `product` is a value that `a * b` may return.
pub open spec fn is_product<T: Scalar>(a: T, b: T, product: T) -> bool {
    call_ensures(<T as Mul>::mul, (a, b), product)
}

/// `/` accepts `a` and `b`.
pub open spec fn can_divide<T: Scalar>(a: T, b: T) -> bool {
    call_requires(<T as Div>::div, (a, b))
}

/// `quotient` is a value that `a / b` may return.
pub open spec fn is_quotient<T: Scalar>(a: T, b: T, quotient: T) -> bool {
    call_ensures(<T as Div>::div, (a, b), quotient)
}

/// `value` is a zero of `T`: a value that `T::from(0)` may return.
pub open spec fn is_zero<T: Scalar>(value: T) -> bool {
    call_ensures(<T as From<i8>>::from, (0i8,), value)
}

/// `value` is a one of `T`: a value that `T::from(1)` may return.
pub open spec fn is_one<T: Scalar>(value: T) -> bool {
    call_ensures(<T as From<i8>>::from, (1i8,), value)
}

/// The square root `sqrt` accepts `square`.
pub open spec fn can_root<T, F: Fn(T) -> T>(sqrt: F, square: T) -> bool {
    call_requires(sqrt, (square,))
}

/// `root` is a value that `sqrt` may return for `square`.
pub open spec fn is_root<T, F: Fn(T) -> T>(sqrt: F, square: T, root: T) -> bool {
    call_ensures(sqrt, (square,), root)
}

/// Zero and one behave as in a ring: adding a zero changes nothing, a
/// product with a zero is that zero, and multiplying by a one changes
/// nothing.
pub open spec fn unital<T: Scalar>() -> bool {
    &&& forall|zero: T, x: T, sum: T| is_zero(zero) && #[trigger] is_sum(zero, x, sum) ==> sum == x
    &&& forall|zero: T, x: T, sum: T| is_zero(zero) && #[trigger] is_sum(x, zero, sum) ==> sum == x
    &&& forall|zero: T, x: T, product: T|
        is_zero(zero) && #[trigger] is_product(zero, x, product) ==> product == zero
    &&& forall|one: T, x: T, product: T|
        is_one(one) && #[trigger] is_product(one, x, product) ==> product == x
    &&& forall|one: T, x: T, product: T|
        is_one(one) && #[trigger] is_product(x, one, product) ==> product == x
}

/// Sums, products and the zero of `T` are functions of their operands:
/// `+`, `*` and `T::from(0)` each have one result only.
pub open spec fn functional<T: Scalar>() -> bool {
    &&& forall|a: T, b: T, x: T, y: T| #[trigger]
        is_sum(a, b, x) && #[trigger] is_sum(a, b, y) ==> x == y
    &&& forall|a: T, b: T, x: T, y: T| #[trigger]
        is_product(a, b, x) && #[trigger] is_product(a, b, y) ==> x == y
    &&& forall|x: T, y: T| #[trigger] is_zero(x) && #[trigger] is_zero(y) ==> x == y
}

/// A zero of `T`.
pub fn zero_value<T: Scalar>() -> (zero: T)
    ensures
        is_zero(zero),
{
    T::from(0i8)
}

/// A one of `T`.
pub fn one_value<T: Scalar>() -> (one: T)
    ensures
        is_one(one),
{
    T::from(1i8)
}

} // verus!
