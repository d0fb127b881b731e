//! Numbers of the language are IEEE-754 double precision values. They are
//! held as their 64 bits: one sign bit, eleven exponent bits, fifty-two
//! fraction bits. This file states, on those bits, the parts of the
//! standard that need no rounding: sign, zero, not-a-number, negation,
//! equality and order.
use vstd::prelude::*;

verus! {

/// The bit pattern with only the sign bit set (negative zero).
pub const SIGN_BIT: u64 = 0x8000_0000_0000_0000;

/// The bit pattern of positive infinity: every magnitude above it is not a
/// number.
pub const INFINITY_BITS: u64 = 0x7FF0_0000_0000_0000;

/// The bits without the sign.
pub open spec fn magnitude(bits: u64) -> int {
    if bits >= SIGN_BIT {
        bits - SIGN_BIT
    } else {
        bits as int
    }
}

pub open spec fn is_negative(bits: u64) -> bool {
    bits >= SIGN_BIT
}

/// Whether the bits stand for no number at all (NaN).
pub open spec fn is_nan(bits: u64) -> bool {
    magnitude(bits) > INFINITY_BITS
}

/// Whether the bits stand for zero, positive or negative.
pub open spec fn is_zero(bits: u64) -> bool {
    magnitude(bits) == 0
}

/// The place of a number on the number line, as an integer that grows with
/// the number: the magnitude for a positive number, its opposite for a
/// negative one. Both zeros share the place 0.
pub open spec fn ordinal(bits: u64) -> int {
    if is_negative(bits) {
        -magnitude(bits)
    } else {
        magnitude(bits)
    }
}

/// `a == b` on numbers: false if either is NaN, and the two zeros are equal.
pub open spec fn number_eq(a: u64, b: u64) -> bool {
    !is_nan(a) && !is_nan(b) && ordinal(a) == ordinal(b)
}

/// `a < b` on numbers: false if either is NaN.
pub open spec fn number_lt(a: u64, b: u64) -> bool {
    !is_nan(a) && !is_nan(b) && ordinal(a) < ordinal(b)
}

/// `a <= b` on numbers: false if either is NaN.
pub open spec fn number_le(a: u64, b: u64) -> bool {
    !is_nan(a) && !is_nan(b) && ordinal(a) <= ordinal(b)
}

/// `-a`: the same bits with the sign flipped.
pub open spec fn negated(bits: u64) -> u64 {
    if bits >= SIGN_BIT {
        (bits - SIGN_BIT) as u64
    } else {
        (bits + SIGN_BIT) as u64
    }
}

/// The bits without the sign, as a machine integer.
fn magnitude_of(bits: u64) -> (out: u64)
    ensures
        out == magnitude(bits),
{
    if bits >= SIGN_BIT {
        bits - SIGN_BIT
    } else {
        bits
    }
}

pub fn number_is_nan(bits: u64) -> (out: bool)
    ensures
        out == is_nan(bits),
{
    magnitude_of(bits) > INFINITY_BITS
}

pub fn number_is_zero(bits: u64) -> (out: bool)
    ensures
        out == is_zero(bits),
{
    magnitude_of(bits) == 0
}

pub fn number_negate(bits: u64) -> (out: u64)
    ensures
        out == negated(bits),
{
    if bits >= SIGN_BIT {
        bits - SIGN_BIT
    } else {
        bits + SIGN_BIT
    }
}

pub fn number_equal(a: u64, b: u64) -> (out: bool)
    ensures
        out == number_eq(a, b),
{
    if number_is_nan(a) || number_is_nan(b) {
        false
    } else if number_is_zero(a) && number_is_zero(b) {
        true
    } else {
        a == b
    }
}

pub fn number_less(a: u64, b: u64) -> (out: bool)
    ensures
        out == number_lt(a, b),
{
    if number_is_nan(a) || number_is_nan(b) {
        false
    } else if a >= SIGN_BIT {
        if b >= SIGN_BIT {
            // both negative: the larger magnitude is the smaller number
            magnitude_of(a) > magnitude_of(b)
        } else {
            magnitude_of(a) > 0 || magnitude_of(b) > 0
        }
    } else {
        b < SIGN_BIT && a < b
    }
}

pub fn number_less_equal(a: u64, b: u64) -> (out: bool)
    ensures
        out == number_le(a, b),
{
    number_less(a, b) || number_equal(a, b)
}

} // verus!
