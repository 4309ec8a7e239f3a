//! Stack values: IEEE 754 binary64 numbers, held as their bit patterns.
//!
//! The machine never does arithmetic on a value. What it decides itself is
//! read off the bit pattern: whether a value is zero, and which of two
//! values is the greater.

use vstd::prelude::*;

verus! {

/// A stack value: the bit pattern of an IEEE 754 binary64 number.
pub type Value = u64;

/// The sign bit of a binary64 pattern.
pub const SIGN: u64 = 0x8000_0000_0000_0000;

/// The pattern of positive infinity; every larger magnitude is a NaN.
pub const INFINITY: u64 = 0x7FF0_0000_0000_0000;

/// The difference between 1.0 and the next larger binary64 number.
pub const EPSILON: u64 = 0x3CB0_0000_0000_0000;

/// Euler's number, rounded to binary64.
pub const EULER: u64 = 0x4005_BF0A_8B14_5769;

/// The circle constant pi, rounded to binary64.
pub const PI: u64 = 0x4009_21FB_5444_2D18;

/// The full circle constant tau = 2 pi, rounded to binary64.
pub const TAU: u64 = 0x4019_21FB_5444_2D18;

/// The pattern without its sign bit.
pub open spec fn magnitude(v: Value) -> int {
    if v >= SIGN {
        v - SIGN
    } else {
        v as int
    }
}

/// Whether the sign bit is set.
pub open spec fn negative(v: Value) -> bool {
    v >= SIGN
}

/// Not a number: the exponent is all ones and the fraction is not zero.
pub open spec fn is_nan(v: Value) -> bool {
    magnitude(v) > INFINITY
}

/// Positive or negative zero.
pub open spec fn is_zero(v: Value) -> bool {
    magnitude(v) == 0
}

/// The place of a value that is not a NaN on the number line: values
/// compare as their ranks do. Both zeros have rank 0.
pub open spec fn rank(v: Value) -> int {
    if negative(v) {
        -magnitude(v)
    } else {
        magnitude(v)
    }
}

/// `a > b` as binary64 numbers: false whenever one of them is a NaN.
pub open spec fn greater(a: Value, b: Value) -> bool {
    !is_nan(a) && !is_nan(b) && rank(a) > rank(b)
}

/// `a < b` as binary64 numbers: false whenever one of them is a NaN.
pub open spec fn less(a: Value, b: Value) -> bool {
    greater(b, a)
}

/// The pattern without its sign bit.
pub fn abs_bits(v: Value) -> (m: u64)
    ensures
        m == magnitude(v),
        m < SIGN,
{
    if v >= SIGN {
        v - SIGN
    } else {
        v
    }
}

/// Tells whether `v` is positive or negative zero.
pub fn value_is_zero(v: Value) -> (r: bool)
    ensures
        r == is_zero(v),
{
    v == 0 || v == SIGN
}

/// Tells whether `a > b` holds of the two binary64 numbers.
pub fn value_greater(a: Value, b: Value) -> (r: bool)
    ensures
        r == greater(a, b),
{
    let ma: u64 = abs_bits(a);
    let mb: u64 = abs_bits(b);
    if ma > INFINITY || mb > INFINITY {
        false
    } else if a >= SIGN {
        b >= SIGN && ma < mb
    } else if b >= SIGN {
        ma > 0 || mb > 0
    } else {
        ma > mb
    }
}

/// The greater of two values, and `b` where neither is greater: what the
/// word `floor` keeps.
pub open spec fn greater_of(a: Value, b: Value) -> Value {
    if greater(a, b) {
        a
    } else {
        b
    }
}

/// The lesser of two values, and `b` where neither is less: what the word
/// `ceil` keeps.
pub open spec fn lesser_of(a: Value, b: Value) -> Value {
    if less(a, b) {
        a
    } else {
        b
    }
}

/// What `floor` keeps is one of the two values, and neither of them is
/// greater than it. Of two numbers it is the one of the higher rank.
pub proof fn law_greater_of(a: Value, b: Value)
    ensures
        greater_of(a, b) == a || greater_of(a, b) == b,
        !greater(a, greater_of(a, b)),
        !greater(b, greater_of(a, b)),
        !is_nan(a) && !is_nan(b) ==> rank(greater_of(a, b)) >= rank(a) && rank(greater_of(a, b))
            >= rank(b),
{
}

/// What `ceil` keeps is one of the two values, and neither of them is
/// less than it. Of two numbers it is the one of the lower rank.
pub proof fn law_lesser_of(a: Value, b: Value)
    ensures
        lesser_of(a, b) == a || lesser_of(a, b) == b,
        !less(a, lesser_of(a, b)),
        !less(b, lesser_of(a, b)),
        !is_nan(a) && !is_nan(b) ==> rank(lesser_of(a, b)) <= rank(a) && rank(lesser_of(a, b))
            <= rank(b),
{
}

/// Selects the greater of two values; `b` when they are equal or do not
/// compare.
pub fn floor_cmp(a: Value, b: Value) -> (r: Value)
    ensures
        r == greater_of(a, b),
{
    if value_greater(a, b) {
        a
    } else {
        b
    }
}

/// Selects the lesser of two values; `b` when they are equal or do not
/// compare.
pub fn ceil_cmp(a: Value, b: Value) -> (r: Value)
    ensures
        r == lesser_of(a, b),
{
    if value_greater(b, a) {
        a
    } else {
        b
    }
}

} // verus!
