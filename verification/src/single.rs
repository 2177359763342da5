//! IEEE 754 single-precision numbers, carried as their 32-bit patterns.
//!
//! Bit 31 is the sign, bits 30 to 23 the exponent, bits 22 to 0 the
//! fraction. Nothing here computes with such a number: a pattern is only
//! classified and compared.

use vstd::arithmetic::power2::{lemma_pow2_pos, lemma_pow2_strictly_increases, lemma_pow2_unfold, pow2};
use vstd::prelude::*;

verus! {

/// The pattern of positive infinity: all exponent bits set, no fraction.
pub const INFINITY_BITS: u32 = 0x7f80_0000;

/// The pattern with only the sign bit set.
pub const SIGN_BIT: u32 = 0x8000_0000;

/// The sign bit is set.
pub open spec fn is_negative(bits: u32) -> bool {
    bits >= SIGN_BIT
}

/// The pattern without its sign bit.
pub open spec fn magnitude(bits: u32) -> int {
    if bits >= SIGN_BIT {
        bits - SIGN_BIT
    } else {
        bits as int
    }
}

/// The pattern is a number: neither an infinity nor a NaN.
pub open spec fn is_finite(bits: u32) -> bool {
    magnitude(bits) < INFINITY_BITS
}

/// An integer that orders patterns as the numbers they stand for are
/// ordered: for finite `a` and `b`, `a` is the smaller number exactly when
/// `order_key(a) < order_key(b)`. Both zeros have key 0.
pub open spec fn order_key(bits: u32) -> int {
    if is_negative(bits) {
        -magnitude(bits)
    } else {
        magnitude(bits)
    }
}

/// `value` held to the range from `min` to `max`. Where `max` is below
/// `min`, the range is the single point `min`.
pub open spec fn clamp_bits(value: u32, min: u32, max: u32) -> u32 {
    let top = if order_key(max) < order_key(min) {
        min
    } else {
        max
    };
    if order_key(value) < order_key(min) {
        min
    } else if order_key(value) > order_key(top) {
        top
    } else {
        value
    }
}

/// The exponent field of a pattern, from 0 to 255.
pub open spec fn exponent_field(bits: u32) -> nat {
    (magnitude(bits) / 0x80_0000) as nat
}

/// The fraction field of a pattern, below 2 to the power 23.
pub open spec fn fraction_field(bits: u32) -> nat {
    (magnitude(bits) % 0x80_0000) as nat
}

/// The size of the number that a finite pattern stands for, counted in
/// units of 2 to the power -149, the smallest size there is. With the
/// exponent field zero the size is the fraction field; otherwise the
/// fraction gains a leading one and is doubled once for every step of the
/// exponent above one.
pub open spec fn scaled_size(bits: u32) -> nat {
    if exponent_field(bits) == 0 {
        fraction_field(bits)
    } else {
        (0x80_0000 + fraction_field(bits)) * pow2((exponent_field(bits) - 1) as nat)
    }
}

/// The number that a finite pattern stands for, in units of 2 to the power
/// -149: its size, negated where the sign bit is set.
pub open spec fn scaled_value(bits: u32) -> int {
    if is_negative(bits) {
        -(scaled_size(bits) as int)
    } else {
        scaled_size(bits) as int
    }
}

proof fn lemma_size_increases(a: u32, b: u32)
    requires
        magnitude(a) < magnitude(b),
    ensures
        scaled_size(a) < scaled_size(b),
{
    let ea = exponent_field(a);
    let eb = exponent_field(b);
    let fa = fraction_field(a);
    let fb = fraction_field(b);
    if ea == eb {
        if ea > 0 {
            let p = pow2((ea - 1) as nat);
            lemma_pow2_pos((ea - 1) as nat);
            assert((0x80_0000 + fa) * p < (0x80_0000 + fb) * p) by (nonlinear_arith)
                requires
                    fa < fb,
                    p > 0,
            ;
        }
    } else {
        assert(ea < eb);
        let q = pow2((eb - 1) as nat);
        lemma_pow2_pos((eb - 1) as nat);
        assert(0x80_0000 * q <= (0x80_0000 + fb) * q) by (nonlinear_arith)
            requires
                q > 0,
                fb >= 0,
        ;
        if ea == 0 {
            assert(0x80_0000 * 1 <= 0x80_0000 * q) by (nonlinear_arith)
                requires
                    q >= 1,
            ;
        } else {
            let p = pow2((ea - 1) as nat);
            lemma_pow2_pos((ea - 1) as nat);
            lemma_pow2_unfold(ea);
            if ea < eb - 1 {
                lemma_pow2_strictly_increases(ea, (eb - 1) as nat);
            }
            assert((0x80_0000 + fa) * p < 0x80_0000 * (2 * p)) by (nonlinear_arith)
                requires
                    fa < 0x80_0000,
                    p > 0,
            ;
            assert(0x80_0000 * (2 * p) <= 0x80_0000 * q) by (nonlinear_arith)
                requires
                    2 * p <= q,
            ;
        }
    }
}

/// The key orders patterns as the numbers they stand for are ordered, and
/// two patterns have one key exactly when they stand for one number.
pub proof fn lemma_key_orders_values(a: u32, b: u32)
    ensures
        order_key(a) < order_key(b) <==> scaled_value(a) < scaled_value(b),
        order_key(a) == order_key(b) <==> scaled_value(a) == scaled_value(b),
{
    if magnitude(a) < magnitude(b) {
        lemma_size_increases(a, b);
    }
    if magnitude(b) < magnitude(a) {
        lemma_size_increases(b, a);
    }
    if magnitude(a) > 0 {
        lemma_size_increases(0, a);
    }
    if magnitude(b) > 0 {
        lemma_size_increases(0, b);
    }
    assert(scaled_size(0) == 0);
    assert(magnitude(a) == magnitude(b) ==> scaled_size(a) == scaled_size(b));
    assert(magnitude(a) == 0 ==> scaled_size(a) == 0);
    assert(magnitude(b) == 0 ==> scaled_size(b) == 0);
}

/// Tells whether a pattern is a finite number.
pub fn finite(bits: u32) -> (r: bool)
    ensures
        r == is_finite(bits),
{
    let rest: u32 = if bits >= SIGN_BIT {
        bits - SIGN_BIT
    } else {
        bits
    };
    rest < INFINITY_BITS
}

/// Computes [`order_key`].
pub fn key(bits: u32) -> (k: i64)
    ensures
        k == order_key(bits),
{
    if bits >= SIGN_BIT {
        -((bits - SIGN_BIT) as i64)
    } else {
        bits as i64
    }
}

/// Computes [`clamp_bits`].
pub fn clamp(value: u32, min: u32, max: u32) -> (r: u32)
    ensures
        r == clamp_bits(value, min, max),
{
    let top: u32 = if key(max) < key(min) {
        min
    } else {
        max
    };
    if key(value) < key(min) {
        min
    } else if key(value) > key(top) {
        top
    } else {
        value
    }
}

} // verus!
