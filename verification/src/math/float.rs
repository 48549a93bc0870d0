//! Numbers as bit patterns: the constants that the library needs, the
//! operations that are exact on the encoding, and equality within a
//! tolerance.
//!
//! Changing the sign of a binary64 number changes its sign bit and nothing
//! else, and its magnitude is the encoding without the sign bit: both are
//! done here, on the bits. Everything that rounds is asked of the caller's
//! arithmetic.
use crate::math::arithmetic::{difference, functional, Arithmetic};
use crate::math::order::{less_than, spec_less_than, spec_value, spec_is_finite, SIGN_BIT};
use vstd::prelude::*;

verus! {

/// The encoding of zero.
pub const ZERO: u64 = 0;

/// The encoding of one half.
pub const HALF: u64 = 0x3fe0_0000_0000_0000;

/// The encoding of one.
pub const ONE: u64 = 0x3ff0_0000_0000_0000;

/// The encoding of minus one.
pub const MINUS_ONE: u64 = 0xbff0_0000_0000_0000;

/// The encoding of two.
pub const TWO: u64 = 0x4000_0000_0000_0000;

/// The encoding of four.
pub const FOUR: u64 = 0x4010_0000_0000_0000;

/// The tolerance within which two numbers count as equal: the encoding of
/// the binary64 number nearest to one part in a hundred thousand.
pub const MAX_DIFF: u64 = 0x3ee4_f8b5_88e3_68f1;

/// The tolerance, under the name by which offsets are made.
pub const EPSILON: u64 = MAX_DIFF;

/// The encoding with its sign bit changed.
pub open spec fn spec_negate(bits: u64) -> u64 {
    if bits >= SIGN_BIT {
        (bits - SIGN_BIT) as u64
    } else {
        (bits + SIGN_BIT) as u64
    }
}

/// The encoding without its sign bit.
pub open spec fn spec_abs(bits: u64) -> u64 {
    if bits >= SIGN_BIT {
        (bits - SIGN_BIT) as u64
    } else {
        bits
    }
}

/// Whether `a` and `b` differ by less than the tolerance: `|a - b| <
/// MAX_DIFF`, where the difference is the arithmetic's.
pub open spec fn spec_equal<A: Arithmetic<u64>>(arith: &A, a: u64, b: u64) -> bool {
    spec_less_than(spec_abs(difference(arith, a, b)), MAX_DIFF)
}

/// `x` held between `min` and `max`: `min` where `x` is less, `max` where
/// `x` is more, else `x` itself, also where `x` is no number.
pub open spec fn spec_clamp(x: u64, min: u64, max: u64) -> u64 {
    if spec_less_than(x, min) {
        min
    } else if spec_less_than(max, x) {
        max
    } else {
        x
    }
}

/// `x` held between `min` and `max`.
pub fn clamp(x: u64, min: u64, max: u64) -> (r: u64)
    ensures
        r == spec_clamp(x, min, max),
{
    if less_than(x, min) {
        min
    } else if less_than(max, x) {
        max
    } else {
        x
    }
}

/// The number with its sign changed.
pub fn negate(bits: u64) -> (r: u64)
    ensures
        r == spec_negate(bits),
{
    if bits >= SIGN_BIT {
        bits - SIGN_BIT
    } else {
        bits + SIGN_BIT
    }
}

/// The magnitude of the number.
pub fn abs(bits: u64) -> (r: u64)
    ensures
        r == spec_abs(bits),
{
    if bits >= SIGN_BIT {
        bits - SIGN_BIT
    } else {
        bits
    }
}

/// Whether two numbers are equal within the tolerance.
pub fn equal<A: Arithmetic<u64>>(a: u64, b: u64, arith: &A) -> (r: bool)
    ensures
        functional(arith) ==> r == spec_equal(arith, a, b),
{
    less_than(abs(arith.minus(a, b)), MAX_DIFF)
}

/// Changing the sign bit changes the sign of the value, and taking it away
/// leaves the magnitude.
pub proof fn lemma_sign(bits: u64)
    requires
        spec_is_finite(bits),
    ensures
        spec_value(spec_negate(bits)) == -spec_value(bits),
        spec_value(spec_abs(bits)) == if spec_value(bits) < 0 {
            -spec_value(bits)
        } else {
            spec_value(bits)
        },
        spec_negate(spec_negate(bits)) == bits,
{
    let m = crate::math::order::spec_magnitude(bits);
    if m > 0 {
        crate::math::order::lemma_units_ascend(0, m);
    }
}

} // verus!
