//! The order of doubles, read off their bit patterns.
//!
//! A double is held as the 64 bits of its IEEE-754 encoding: the sign in
//! the highest bit, below it eleven bits of exponent and 52 bits of
//! fraction. Among the patterns of one sign, a larger pattern encodes a
//! number of larger magnitude, with the infinity above all numbers and the
//! patterns that are not a number above the infinity. So whether one
//! double is less than another can be decided on integers.

use vstd::prelude::*;

verus! {

/// The bit that holds the sign.
pub const SIGN_BIT: u64 = 0x8000_0000_0000_0000;

/// The bit pattern of positive infinity.
pub const INFINITY_BITS: u64 = 0x7FF0_0000_0000_0000;

/// The bit pattern of the quiet not-a-number that arithmetic produces.
pub const NAN_BITS: u64 = 0x7FF8_0000_0000_0000;

/// The bit pattern without its sign.
pub open spec fn magnitude(bits: u64) -> int {
    if bits >= SIGN_BIT {
        bits - SIGN_BIT
    } else {
        bits as int
    }
}

/// The bit pattern encodes no number.
pub open spec fn nan(bits: u64) -> bool {
    magnitude(bits) > INFINITY_BITS
}

/// An integer that is ordered as the encoded numbers are: the magnitude,
/// counted downwards from zero for a negative sign. The two zeros share
/// the rank 0.
pub open spec fn rank(bits: u64) -> int {
    if bits >= SIGN_BIT {
        -magnitude(bits)
    } else {
        magnitude(bits)
    }
}

/// The double `a` is less than the double `b`. Not-a-number is less than
/// nothing, and nothing is less than it.
pub open spec fn less(a: u64, b: u64) -> bool {
    !nan(a) && !nan(b) && rank(a) < rank(b)
}

/// The bit pattern of the double with the other sign.
pub open spec fn negated(bits: u64) -> u64 {
    if bits >= SIGN_BIT {
        (bits - SIGN_BIT) as u64
    } else {
        (bits + SIGN_BIT) as u64
    }
}

/// The larger of two doubles. Not-a-number gives way to the other one;
/// of two that are equal as numbers it is the first.
pub open spec fn larger_of(a: u64, b: u64) -> u64 {
    if nan(a) {
        b
    } else if nan(b) {
        a
    } else if less(a, b) {
        b
    } else {
        a
    }
}

/// The smaller of two doubles. Not-a-number gives way to the other one;
/// of two that are equal as numbers it is the first.
pub open spec fn smaller_of(a: u64, b: u64) -> u64 {
    if nan(a) {
        b
    } else if nan(b) {
        a
    } else if less(b, a) {
        b
    } else {
        a
    }
}

/// Whether the bit pattern encodes no number.
pub fn is_nan(bits: u64) -> (r: bool)
    ensures
        r == nan(bits),
{
    if bits >= SIGN_BIT {
        bits - SIGN_BIT > INFINITY_BITS
    } else {
        bits > INFINITY_BITS
    }
}

/// Whether the double `a` is less than the double `b`.
pub fn lt(a: u64, b: u64) -> (r: bool)
    ensures
        r == less(a, b),
{
    if is_nan(a) || is_nan(b) {
        false
    } else if a >= SIGN_BIT {
        if b >= SIGN_BIT {
            b < a
        } else {
            a > SIGN_BIT || b > 0
        }
    } else {
        b < SIGN_BIT && a < b
    }
}

/// Whether the double `a` is greater than the double `b`.
pub fn gt(a: u64, b: u64) -> (r: bool)
    ensures
        r == less(b, a),
{
    lt(b, a)
}

/// The double with the other sign.
pub fn negate(bits: u64) -> (r: u64)
    ensures
        r == negated(bits),
{
    if bits >= SIGN_BIT {
        bits - SIGN_BIT
    } else {
        bits + SIGN_BIT
    }
}

/// The larger of two doubles.
pub fn maximum(a: u64, b: u64) -> (r: u64)
    ensures
        r == larger_of(a, b),
{
    if is_nan(a) {
        b
    } else if is_nan(b) {
        a
    } else if lt(a, b) {
        b
    } else {
        a
    }
}

/// The smaller of two doubles.
pub fn minimum(a: u64, b: u64) -> (r: u64)
    ensures
        r == smaller_of(a, b),
{
    if is_nan(a) {
        b
    } else if is_nan(b) {
        a
    } else if lt(b, a) {
        b
    } else {
        a
    }
}

/// `less` is a strict order: nothing is less than itself, and it is
/// transitive.
pub proof fn lemma_less_is_strict(a: u64, b: u64, c: u64)
    ensures
        !less(a, a),
        less(a, b) ==> !less(b, a),
        less(a, b) && less(b, c) ==> less(a, c),
{
}

/// Of two numbers, exactly one of three holds: the first is less, the
/// second is less, or they are equal as numbers (the same pattern, or the
/// two zeros).
pub proof fn lemma_less_is_total_on_numbers(a: u64, b: u64)
    requires
        !nan(a),
        !nan(b),
    ensures
        less(a, b) || less(b, a) || rank(a) == rank(b),
        rank(a) == rank(b) <==> (a == b || (magnitude(a) == 0 && magnitude(b) == 0)),
{
}

/// Changing the sign turns the order around, and keeps not-a-number what
/// it is.
pub proof fn lemma_negated_reverses(a: u64, b: u64)
    ensures
        nan(negated(a)) == nan(a),
        rank(negated(a)) == -rank(a),
        negated(negated(a)) == a,
        less(negated(a), negated(b)) == less(b, a),
{
}

/// The larger and the smaller of two doubles are each one of the two,
/// are a number as soon as one of the two is, and bound both from above
/// and from below.
pub proof fn lemma_larger_and_smaller(a: u64, b: u64)
    ensures
        larger_of(a, b) == a || larger_of(a, b) == b,
        smaller_of(a, b) == a || smaller_of(a, b) == b,
        nan(larger_of(a, b)) <==> nan(a) && nan(b),
        nan(smaller_of(a, b)) <==> nan(a) && nan(b),
        !less(larger_of(a, b), a) && !less(larger_of(a, b), b),
        !less(a, smaller_of(a, b)) && !less(b, smaller_of(a, b)),
{
}

} // verus!
