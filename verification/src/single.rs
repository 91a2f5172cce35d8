//! Comparison of singles by their bit patterns.
//!
//! Apart from NaN, singles are ordered like sign-magnitude integers: the
//! pattern without its sign bit grows with the magnitude of the number. This
//! makes equality, order and maximum exact operations on patterns.

use vstd::prelude::*;

verus! {

/// Mask of everything but the sign bit.
pub const MAGNITUDE_MASK: u32 = 0x7fff_ffff;

/// Pattern of positive infinity; every larger magnitude is a NaN.
pub const INFINITY_BITS: u32 = 0x7f80_0000;

/// Whether the pattern is that of a NaN: exponent all ones, mantissa not zero.
pub open spec fn is_nan(bits: u32) -> bool {
    bits & MAGNITUDE_MASK > INFINITY_BITS
}

/// Whether the pattern is that of `+0.0` or `-0.0`.
pub open spec fn is_zero(bits: u32) -> bool {
    bits & MAGNITUDE_MASK == 0
}

/// An integer that grows with the number that the pattern stands for: the
/// magnitude bits, negated if the sign bit is set. Both zeros get 0.
pub open spec fn single_key(bits: u32) -> int {
    if bits & 0x8000_0000 != 0 {
        -((bits & MAGNITUDE_MASK) as int)
    } else {
        (bits & MAGNITUDE_MASK) as int
    }
}

/// Whether the two patterns stand for equal numbers.
pub open spec fn single_eq(a: u32, b: u32) -> bool {
    !is_nan(a) && !is_nan(b) && single_key(a) == single_key(b)
}

/// Whether the number of `a` is at most the number of `b`.
pub open spec fn single_le(a: u32, b: u32) -> bool {
    !is_nan(a) && !is_nan(b) && single_key(a) <= single_key(b)
}

/// Whether the number of `a` is below the number of `b`.
pub open spec fn single_lt(a: u32, b: u32) -> bool {
    !is_nan(a) && !is_nan(b) && single_key(a) < single_key(b)
}

/// The larger of the two numbers; if one of them is a NaN, the other one.
pub open spec fn single_max(a: u32, b: u32) -> u32 {
    if is_nan(a) {
        b
    } else if is_nan(b) {
        a
    } else if single_key(a) >= single_key(b) {
        a
    } else {
        b
    }
}

/// Computes the ordering key of a pattern.
fn key(bits: u32) -> (k: i64)
    ensures
        k == single_key(bits),
{
    let magnitude = bits & MAGNITUDE_MASK;
    if bits & 0x8000_0000 != 0 {
        -(magnitude as i64)
    } else {
        magnitude as i64
    }
}

/// Tells whether a pattern is that of a NaN.
pub fn nan(bits: u32) -> (r: bool)
    ensures
        r == is_nan(bits),
{
    bits & MAGNITUDE_MASK > INFINITY_BITS
}

/// Compares two singles for equality.
pub fn same_single(a: u32, b: u32) -> (r: bool)
    ensures
        r == single_eq(a, b),
{
    !nan(a) && !nan(b) && key(a) == key(b)
}

/// Tells whether the first single is at most the second.
pub fn at_most(a: u32, b: u32) -> (r: bool)
    ensures
        r == single_le(a, b),
{
    !nan(a) && !nan(b) && key(a) <= key(b)
}

/// Returns the larger of two singles; if one of them is a NaN, the other one.
pub fn larger(a: u32, b: u32) -> (r: u32)
    ensures
        r == single_max(a, b),
{
    if nan(a) {
        b
    } else if nan(b) {
        a
    } else if key(a) >= key(b) {
        a
    } else {
        b
    }
}

/// Two patterns stand for equal numbers exactly if neither is a NaN and
/// either the patterns agree or both are zeros.
pub proof fn lemma_single_eq_patterns(a: u32, b: u32)
    ensures
        single_eq(a, b) <==> !is_nan(a) && !is_nan(b) && (a == b || (is_zero(a) && is_zero(b))),
{
    assert((a & 0x7fff_ffffu32) == (b & 0x7fff_ffffu32) && (a & 0x8000_0000u32 != 0) == (b
        & 0x8000_0000u32 != 0) ==> a == b) by (bit_vector);
}

/// Equality of numbers is symmetric, and holds between a pattern and itself
/// unless the pattern is a NaN; the order is total on numbers.
pub proof fn lemma_single_order(a: u32, b: u32, c: u32)
    ensures
        single_eq(a, b) == single_eq(b, a),
        single_eq(a, a) == !is_nan(a),
        single_le(a, b) && single_le(b, a) <==> single_eq(a, b),
        single_le(a, b) && single_le(b, c) ==> single_le(a, c),
        !is_nan(a) && !is_nan(b) ==> single_le(a, b) || single_le(b, a),
{
}

/// The maximum is one of its arguments and is at least both of them, as far
/// as they are numbers.
pub proof fn lemma_single_max(a: u32, b: u32)
    ensures
        single_max(a, b) == a || single_max(a, b) == b,
        !is_nan(a) ==> single_le(a, single_max(a, b)),
        !is_nan(b) ==> single_le(b, single_max(a, b)),
        !is_nan(a) || !is_nan(b) ==> !is_nan(single_max(a, b)),
{
}

} // verus!
