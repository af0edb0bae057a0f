//! Steps of element arithmetic that the matrix and vector operations share.

use crate::model::{
    inner_defined, inner_step_defined, is_inner_prefix, is_inner_product, is_minor,
    is_quotients, minor_defined, quotients_defined,
};
use crate::scalar::{
    can_add, can_divide, can_subtract, is_difference, is_quotient, is_sum, zero_value, Scalar,
};
use vstd::prelude::*;

verus! {

/// A copy of `source`.
pub(crate) fn copy_of<T: Copy>(source: &[T]) -> (copy: Vec<T>)
    ensures
        copy@ == source@,
{
    let mut copy: Vec<T> = Vec::new();
    let mut i: usize = 0;
    while i < source.len()
        invariant
            0 <= i <= source.len(),
            copy@ == source@.take(i as int),
        decreases source.len() - i,
    {
        copy.push(source[i]);
        assert(source@.take(i + 1) =~= source@.take(i as int).push(source@[i as int]));
        i = i + 1;
    }
    assert(source@.take(source.len() as int) =~= source@);
    copy
}

/// The sum of the squares of `elements`, added to a zero one after the
/// other.
pub(crate) fn sum_of_squares<T: Scalar>(elements: &[T]) -> (square: T)
    requires
        inner_defined(elements@, elements@),
    ensures
        is_inner_product(elements@, elements@, square),
{
    let mut square: T = zero_value();
    let mut i: usize = 0;
    while i < elements.len()
        invariant
            inner_defined(elements@, elements@),
            0 <= i <= elements.len(),
            is_inner_prefix(elements@, elements@, i as nat, square),
        decreases elements.len() - i,
    {
        assert(inner_step_defined(elements@, elements@, i as int));
        let val: T = elements[i];
        let term: T = val * val;
        assert(can_add(square, term));
        let next: T = square + term;
        assert(is_sum(square, term, next));
        square = next;
        i = i + 1;
    }
    square
}

/// Every element of `elements` divided by `divisor`.
pub(crate) fn divided<T: Scalar>(elements: &[T], divisor: T) -> (out: Vec<T>)
    requires
        quotients_defined(elements@, divisor),
    ensures
        is_quotients(elements@, divisor, out@),
{
    let mut out: Vec<T> = Vec::new();
    let mut i: usize = 0;
    while i < elements.len()
        invariant
            quotients_defined(elements@, divisor),
            0 <= i <= elements.len(),
            out.len() == i,
            forall|j: int| 0 <= j < i ==> #[trigger] is_quotient(elements[j], divisor, out[j]),
        decreases elements.len() - i,
    {
        assert(can_divide(elements[i as int], divisor));
        out.push(elements[i] / divisor);
        i = i + 1;
    }
    out
}

/// `a * b - c * d`.
pub(crate) fn minor<T: Scalar>(a: T, b: T, c: T, d: T) -> (out: T)
    requires
        minor_defined(a, b, c, d),
    ensures
        is_minor(a, b, c, d, out),
{
    let first: T = a * b;
    let second: T = c * d;
    assert(can_subtract(first, second));
    let out: T = first - second;
    assert(is_difference(first, second, out));
    out
}

} // verus!
