//! The arithmetic the engine is built on, and the vocabulary its contracts use.

use vstd::prelude::*;

verus! {

/// A number the engine can compute with.
///
/// No method promises anything about its result. The engine's contracts are stated
/// over the relations below, each of which holds of a result exactly when the
/// operation can return it on the given operands.
pub trait Scalar: Copy + Send + Sync {
    /// The scalar that stands for the integer `value`.
    fn from_int(value: i32) -> Self;

    /// The scalar that stands for the count `n`.
    fn from_count(n: usize) -> Self;

    /// The largest finite scalar.
    fn greatest() -> Self;

    /// The smallest finite scalar.
    fn least() -> Self;

    /// `self + rhs`.
    fn plus(self, rhs: Self) -> Self;

    /// `self - rhs`.
    fn minus(self, rhs: Self) -> Self;

    /// `self * rhs`.
    fn times(self, rhs: Self) -> Self;

    /// `self / rhs`.
    fn over(self, rhs: Self) -> Self;

    /// The exponential of `self`.
    fn exp(self) -> Self;

    /// The natural logarithm of `self`.
    fn ln(self) -> Self;

    /// The hyperbolic tangent of `self`.
    fn tanh(self) -> Self;

    /// The larger of `self` and `rhs`.
    fn larger(self, rhs: Self) -> Self;

    /// Whether `self < rhs`.
    fn below(self, rhs: Self) -> bool;

    /// Whether `self == rhs`.
    fn same(self, rhs: Self) -> bool;

    /// The scalar between `low` and `high` that `draw` picks, where `draw` is a number
    /// drawn at random: equal draws pick equal scalars.
    fn uniform(low: Self, high: Self, draw: u64) -> Self;
}

/// `r` can stand for the integer `value`.
pub open spec fn is_int<T: Scalar>(value: i32, r: T) -> bool {
    call_ensures(T::from_int, (value,), r)
}

/// `r` can stand for the count `n`.
pub open spec fn is_count<T: Scalar>(n: usize, r: T) -> bool {
    call_ensures(T::from_count, (n,), r)
}

/// `r` can be the largest finite scalar.
pub open spec fn is_greatest<T: Scalar>(r: T) -> bool {
    call_ensures(T::greatest, (), r)
}

/// `r` can be the smallest finite scalar.
pub open spec fn is_least<T: Scalar>(r: T) -> bool {
    call_ensures(T::least, (), r)
}

/// `r` can be `a + b`.
pub open spec fn is_sum<T: Scalar>(a: T, b: T, r: T) -> bool {
    call_ensures(T::plus, (a, b), r)
}

/// `r` can be `a - b`.
pub open spec fn is_difference<T: Scalar>(a: T, b: T, r: T) -> bool {
    call_ensures(T::minus, (a, b), r)
}

/// `r` can be `a * b`.
pub open spec fn is_product<T: Scalar>(a: T, b: T, r: T) -> bool {
    call_ensures(T::times, (a, b), r)
}

/// `r` can be `a / b`.
pub open spec fn is_quotient<T: Scalar>(a: T, b: T, r: T) -> bool {
    call_ensures(T::over, (a, b), r)
}

/// `r` can be the exponential of `a`.
pub open spec fn is_exp<T: Scalar>(a: T, r: T) -> bool {
    call_ensures(T::exp, (a,), r)
}

/// `r` can be the natural logarithm of `a`.
pub open spec fn is_ln<T: Scalar>(a: T, r: T) -> bool {
    call_ensures(T::ln, (a,), r)
}

/// `r` can be the hyperbolic tangent of `a`.
pub open spec fn is_tanh<T: Scalar>(a: T, r: T) -> bool {
    call_ensures(T::tanh, (a,), r)
}

/// `r` can be the larger of `a` and `b`.
pub open spec fn is_larger<T: Scalar>(a: T, b: T, r: T) -> bool {
    call_ensures(T::larger, (a, b), r)
}

/// `r` can be the answer to `a < b`.
pub open spec fn is_below<T: Scalar>(a: T, b: T, r: bool) -> bool {
    call_ensures(T::below, (a, b), r)
}

/// `r` can be the answer to `a == b`.
pub open spec fn is_same<T: Scalar>(a: T, b: T, r: bool) -> bool {
    call_ensures(T::same, (a, b), r)
}

/// `r` can be the scalar between `low` and `high` that `draw` picks.
pub open spec fn is_uniform<T: Scalar>(low: T, high: T, draw: u64, r: T) -> bool {
    call_ensures(T::uniform, (low, high, draw), r)
}

/// `r` can be picked between `low` and `high` by some draw.
pub open spec fn is_drawn<T: Scalar>(low: T, high: T, r: T) -> bool {
    exists|draw: u64| #[trigger] is_uniform(low, high, draw, r)
}

/// `partial` holds the running totals of `terms`, added from the left to the scalar
/// for zero: `partial[i]` is the total of the first `i` terms.
pub open spec fn is_running_total<T: Scalar>(terms: Seq<T>, partial: Seq<T>) -> bool {
    &&& partial.len() == terms.len() + 1
    &&& is_int(0, partial[0])
    &&& forall|i: int|
        0 <= i < terms.len() ==> is_sum(#[trigger] partial[i], terms[i], partial[i + 1])
}

/// `r` can be the total of `terms`, added one by one from the left.
pub open spec fn is_total<T: Scalar>(terms: Seq<T>, r: T) -> bool {
    exists|partial: Seq<T>| #[trigger] is_running_total(terms, partial) && partial.last() == r
}

/// `r` can be the integer `numerator` divided by the integer `denominator`; `parts`
/// holds the two integers as scalars.
pub open spec fn is_ratio_via<T: Scalar>(numerator: i32, denominator: i32, parts: Seq<T>, r: T) -> bool {
    &&& parts.len() == 2
    &&& is_int(numerator, parts[0])
    &&& is_int(denominator, parts[1])
    &&& is_quotient(parts[0], parts[1], r)
}

/// `r` can be the integer `numerator` divided by the integer `denominator`.
pub open spec fn is_ratio<T: Scalar>(numerator: i32, denominator: i32, r: T) -> bool {
    exists|parts: Seq<T>| #[trigger] is_ratio_via(numerator, denominator, parts, r)
}

/// Adds `terms` one by one, from the left, to the scalar for zero.
pub fn total<T: Scalar>(terms: &Vec<T>) -> (r: T)
    ensures
        is_total(terms@, r),
{
    let mut acc = T::from_int(0);
    let ghost mut partial: Seq<T> = seq![acc];
    let mut i: usize = 0;
    while i < terms.len()
        invariant
            i <= terms.len(),
            partial.len() == i + 1,
            partial.last() == acc,
            is_running_total(terms@.take(i as int), partial),
        decreases terms.len() - i,
    {
        let next = acc.plus(terms[i]);
        proof {
            let grown = partial.push(next);
            assert forall|j: int| 0 <= j < i + 1 implies is_sum(
                #[trigger] grown[j],
                terms@.take(i + 1)[j],
                grown[j + 1],
            ) by {
                if j < i {
                    assert(is_sum(partial[j], terms@.take(i as int)[j], partial[j + 1]));
                }
            }
            partial = grown;
        }
        acc = next;
        i = i + 1;
    }
    assert(terms@.take(i as int) == terms@);
    acc
}

/// Divides the scalar for `numerator` by the scalar for `denominator`.
pub fn ratio<T: Scalar>(numerator: i32, denominator: i32) -> (r: T)
    ensures
        is_ratio(numerator, denominator, r),
{
    let n = T::from_int(numerator);
    let d = T::from_int(denominator);
    let r = n.over(d);
    assert(is_ratio_via(numerator, denominator, seq![n, d], r));
    r
}

/// A copy of `values`.
pub fn copy_of<T: Copy>(values: &Vec<T>) -> (r: Vec<T>)
    ensures
        r@ == values@,
{
    let mut r: Vec<T> = Vec::new();
    let mut i: usize = 0;
    while i < values.len()
        invariant
            i <= values.len(),
            r@ == values@.take(i as int),
        decreases values.len() - i,
    {
        r.push(values[i]);
        assert(values@.take(i + 1) == values@.take(i as int).push(values@[i as int]));
        i = i + 1;
    }
    assert(values@.take(i as int) == values@);
    r
}

} // verus!
