//! The order of binary64 numbers, read off their bit patterns.
//!
//! A binary64 number is encoded in 64 bits: the sign in the top bit, then
//! eleven bits of exponent and fifty-two bits of fraction. The library never
//! computes with such numbers. It only orders them, and for that the
//! encoding is enough: without its sign bit an encoding grows with the
//! magnitude it stands for, the two zeros are the encodings of magnitude
//! zero, and everything above the encoding of infinity is not a number.
use vstd::arithmetic::power2::{lemma_pow2_pos, lemma_pow2_strictly_increases, lemma_pow2_unfold, pow2};
use vstd::prelude::*;

verus! {

/// The sign bit of an encoding.
pub const SIGN_BIT: u64 = 0x8000_0000_0000_0000;

/// The encoding of positive infinity: every exponent bit set, no fraction bit.
pub const INFINITY_BITS: u64 = 0x7ff0_0000_0000_0000;

/// The encoding without its sign bit.
pub open spec fn spec_magnitude(bits: u64) -> int {
    if bits >= SIGN_BIT {
        bits - SIGN_BIT
    } else {
        bits as int
    }
}

/// Whether the sign bit is set.
pub open spec fn spec_is_negative(bits: u64) -> bool {
    bits >= SIGN_BIT
}

/// Whether the encoding stands for no number at all.
pub open spec fn spec_is_nan(bits: u64) -> bool {
    spec_magnitude(bits) > INFINITY_BITS
}

/// Whether the encoding is one of the two zeros.
pub open spec fn spec_is_zero(bits: u64) -> bool {
    spec_magnitude(bits) == 0
}

/// The place of an encoding in the total order of all encodings: encodings
/// with the sign bit come first, the larger magnitude the earlier, then those
/// without it, the larger magnitude the later. Negative zero is at -1 and
/// positive zero at 0.
pub open spec fn spec_total_key(bits: u64) -> int {
    if spec_is_negative(bits) {
        -1 - spec_magnitude(bits)
    } else {
        spec_magnitude(bits)
    }
}

/// Numeric `a < b`: neither is a NaN, they are not both zero, and `a` comes
/// first in the total order.
pub open spec fn spec_less_than(a: u64, b: u64) -> bool {
    &&& !spec_is_nan(a)
    &&& !spec_is_nan(b)
    &&& !(spec_is_zero(a) && spec_is_zero(b))
    &&& spec_total_key(a) < spec_total_key(b)
}

/// Numeric `a == b`: neither is a NaN, and they are the same encoding or
/// both zero.
pub open spec fn spec_equal_to(a: u64, b: u64) -> bool {
    &&& !spec_is_nan(a)
    &&& !spec_is_nan(b)
    &&& (a == b || (spec_is_zero(a) && spec_is_zero(b)))
}

/// Numeric `bits >= 0`: a number that is zero, of either sign, or positive.
pub open spec fn spec_at_least_zero(bits: u64) -> bool {
    !spec_is_nan(bits) && spec_total_key(bits) >= -1
}

/// Numeric `a <= b`: `a < b` or `a == b`.
pub open spec fn spec_at_most(a: u64, b: u64) -> bool {
    spec_less_than(a, b) || spec_equal_to(a, b)
}

/// Whether `bits` stands for no number.
pub fn is_nan(bits: u64) -> (r: bool)
    ensures
        r == spec_is_nan(bits),
{
    if bits >= SIGN_BIT {
        bits - SIGN_BIT > INFINITY_BITS
    } else {
        bits > INFINITY_BITS
    }
}

/// Whether `bits` is positive or negative zero.
pub fn is_zero(bits: u64) -> (r: bool)
    ensures
        r == spec_is_zero(bits),
{
    bits == 0 || bits == SIGN_BIT
}

/// The place of `bits` in the total order, as a signed integer: comparing
/// two keys compares the encodings.
pub fn total_key(bits: u64) -> (key: i64)
    ensures
        key == spec_total_key(bits),
{
    if bits >= SIGN_BIT {
        let magnitude: u64 = bits - SIGN_BIT;
        -1 - (magnitude as i64)
    } else {
        bits as i64
    }
}

/// Numeric `a < b`.
pub fn less_than(a: u64, b: u64) -> (r: bool)
    ensures
        r == spec_less_than(a, b),
{
    !is_nan(a) && !is_nan(b) && !(is_zero(a) && is_zero(b)) && total_key(a) < total_key(b)
}

/// Numeric `a == b`.
pub fn equal_to(a: u64, b: u64) -> (r: bool)
    ensures
        r == spec_equal_to(a, b),
{
    !is_nan(a) && !is_nan(b) && (a == b || (is_zero(a) && is_zero(b)))
}

/// Numeric `a >= b`.
pub fn at_least(a: u64, b: u64) -> (r: bool)
    ensures
        r == spec_at_most(b, a),
{
    less_than(b, a) || equal_to(b, a)
}

/// Numeric `a <= b`.
pub fn at_most(a: u64, b: u64) -> (r: bool)
    ensures
        r == spec_at_most(a, b),
{
    less_than(a, b) || equal_to(a, b)
}

/// Numeric `bits >= 0`.
pub fn at_least_zero(bits: u64) -> (r: bool)
    ensures
        r == spec_at_least_zero(bits),
{
    !is_nan(bits) && total_key(bits) >= -1
}

/// Two encodings share a key only if they are the same encoding.
pub proof fn lemma_total_key_injective(a: u64, b: u64)
    ensures
        spec_total_key(a) == spec_total_key(b) <==> a == b,
{
}

/// Among numbers, exactly one of `a < b`, `a == b` and `b < a` holds.
pub proof fn lemma_trichotomy(a: u64, b: u64)
    requires
        !spec_is_nan(a),
        !spec_is_nan(b),
    ensures
        spec_less_than(a, b) || spec_equal_to(a, b) || spec_less_than(b, a),
        !(spec_less_than(a, b) && spec_equal_to(a, b)),
        !(spec_less_than(a, b) && spec_less_than(b, a)),
        !(spec_equal_to(a, b) && spec_less_than(b, a)),
{
}

/// `<` is transitive.
pub proof fn lemma_less_than_transitive(a: u64, b: u64, c: u64)
    requires
        spec_less_than(a, b),
        spec_less_than(b, c),
    ensures
        spec_less_than(a, c),
{
}

/// The lowest exponent bit of an encoding: below it lie the fifty-two bits
/// of the fraction.
pub const HIDDEN_BIT: u64 = 0x0010_0000_0000_0000;

/// Whether the encoding stands for a number that is not infinite.
pub open spec fn spec_is_finite(bits: u64) -> bool {
    spec_magnitude(bits) < INFINITY_BITS
}

/// The magnitude that a finite encoding without its sign stands for, in
/// units of the least magnitude that can be encoded. With exponent field
/// `e` and fraction `f` that is `f` where `e` is zero, and `(2^52 + f) *
/// 2^(e - 1)` elsewhere.
pub open spec fn spec_units(magnitude: int) -> int {
    let e = magnitude / (HIDDEN_BIT as int);
    let f = magnitude % (HIDDEN_BIT as int);
    if e == 0 {
        f
    } else {
        (HIDDEN_BIT + f) * pow2((e - 1) as nat)
    }
}

/// The number that a finite encoding stands for, in the same units.
pub open spec fn spec_value(bits: u64) -> int {
    if spec_is_negative(bits) {
        -spec_units(spec_magnitude(bits))
    } else {
        spec_units(spec_magnitude(bits))
    }
}

/// The greater encoding stands for the greater magnitude.
pub proof fn lemma_units_ascend(a: int, b: int)
    requires
        0 <= a < b,
    ensures
        0 <= spec_units(a) < spec_units(b),
{
    let h = HIDDEN_BIT as int;
    let (ea, fa) = (a / h, a % h);
    let (eb, fb) = (b / h, b % h);
    vstd::arithmetic::div_mod::lemma_fundamental_div_mod(a, h);
    vstd::arithmetic::div_mod::lemma_fundamental_div_mod(b, h);
    vstd::arithmetic::div_mod::lemma_div_is_ordered(a, b, h);
    lemma_pow2_pos((ea - 1) as nat);
    lemma_pow2_pos((eb - 1) as nat);
    let pa = pow2((ea - 1) as nat) as int;
    let pb = pow2((eb - 1) as nat) as int;
    if ea == 0 {
        if eb != 0 {
            assert((h + fb) * pb >= h) by (nonlinear_arith)
                requires
                    fb >= 0,
                    pb >= 1,
                    h >= 0,
            ;
        }
    } else if ea == eb {
        assert(0 <= (h + fa) * pa < (h + fb) * pa) by (nonlinear_arith)
            requires
                0 <= fa < fb,
                pa >= 1,
                h >= 0,
        ;
    } else {
        lemma_pow2_unfold(ea as nat);
        if ea < eb - 1 {
            lemma_pow2_strictly_increases(ea as nat, (eb - 1) as nat);
        }
        let top = pow2(ea as nat) as int;
        assert(0 <= (h + fa) * pa < h * top) by (nonlinear_arith)
            requires
                0 <= fa < h,
                pa >= 1,
                top == 2 * pa,
        ;
        assert(h * top <= (h + fb) * pb) by (nonlinear_arith)
            requires
                fb >= 0,
                top <= pb,
                h >= 0,
                top >= 0,
        ;
    }
}

/// The order read off the encodings is the order of the numbers they stand
/// for: a finite `a` is less than a finite `b` exactly when its value is the
/// lesser, and equal to it exactly when the values are the same.
pub proof fn lemma_order_is_numeric(a: u64, b: u64)
    requires
        spec_is_finite(a),
        spec_is_finite(b),
    ensures
        spec_less_than(a, b) <==> spec_value(a) < spec_value(b),
        spec_equal_to(a, b) <==> spec_value(a) == spec_value(b),
{
    let ma = spec_magnitude(a);
    let mb = spec_magnitude(b);
    if ma < mb {
        lemma_units_ascend(ma, mb);
    } else if mb < ma {
        lemma_units_ascend(mb, ma);
    }
    if ma > 0 {
        lemma_units_ascend(0, ma);
    }
    if mb > 0 {
        lemma_units_ascend(0, mb);
    }
    assert(spec_units(0) == 0);
}

} // verus!
