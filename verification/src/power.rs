//! Motor power: how a requested power becomes the byte that the board takes.
//!
//! A power is a binary32 number, given by its bit pattern. It is clamped to
//! the range from -1.0 to 1.0; its absolute value times 255, cut off after the
//! decimal point, is the PWM rate; its sign picks the direction.
use crate::binary32::{
    exponent, fraction, is_nan, lemma_magnitude_order, lemma_rounded_exact, lemma_rounded_scales,
    lemma_scaled_one,
    magnitude, negated, power_of_two, round_to_significand, rounded, scaled, scaled_magnitude,
    scaled_one, HIDDEN_BIT, INFINITY, MINUS_ONE, ONE, SIGN_BIT,
};
use vstd::arithmetic::div_mod::{
    lemma_basic_div, lemma_div_by_multiple, lemma_div_denominator,
    lemma_div_is_ordered_by_denominator,
};
use vstd::arithmetic::power2::{
    lemma2_to64, lemma2_to64_rest, lemma_pow2_adds, lemma_pow2_pos,
    lemma_pow2_strictly_increases, pow2,
};
use vstd::prelude::*;

verus! {

/// Whether the pattern stands for a number from -1.0 to 1.0.
pub open spec fn in_range(bits: u32) -> bool {
    !is_nan(bits) && scaled_magnitude(bits) <= scaled_one()
}

/// The power that is sent for a requested one: the nearest number from -1.0
/// to 1.0. A NaN is near no number and stays as it is.
pub open spec fn clamped(bits: u32) -> u32 {
    if is_nan(bits) {
        bits
    } else if scaled(bits) > scaled_one() {
        ONE
    } else if scaled(bits) < -(scaled_one() as int) {
        MINUS_ONE
    } else {
        bits
    }
}

/// The PWM rate for a power from -1.0 to 1.0: the absolute value times 255,
/// as binary32 multiplication rounds that product, without what follows the
/// decimal point.
pub open spec fn power_byte(bits: u32) -> nat {
    rounded(255 * scaled_magnitude(bits), 1) / scaled_one()
}

/// Brings a power into the range from -1.0 to 1.0.
#[inline]
pub fn clamp_motor_power(value: u32) -> (power: u32)
    ensures
        power == clamped(value),
{
    proof {
        lemma_magnitude_order(value, ONE);
        lemma_scaled_one();
    }
    let size: u32 = if value >= SIGN_BIT {
        value - SIGN_BIT
    } else {
        value
    };
    if size > INFINITY {
        value
    } else if size > ONE {
        if value >= SIGN_BIT {
            MINUS_ONE
        } else {
            ONE
        }
    } else {
        value
    }
}

/// The PWM rate for a power from -1.0 to 1.0.
#[inline]
pub fn motor_power_to_byte(value: u32) -> (byte: u8)
    requires
        in_range(value),
    ensures
        byte == power_byte(value),
{
    let size: u32 = if value >= SIGN_BIT {
        value - SIGN_BIT
    } else {
        value
    };
    let stored_exponent: u32 = size / HIDDEN_BIT;
    let stored_fraction: u32 = size % HIDDEN_BIT;
    let significand: u64 = if stored_exponent == 0 {
        stored_fraction as u64
    } else {
        HIDDEN_BIT as u64 + stored_fraction as u64
    };
    proof {
        lemma_magnitude_order(value, ONE);
        lemma_scaled_one();
        assert(size <= ONE);
        assert(stored_exponent <= 127);
        assert(stored_exponent == 127 ==> stored_fraction == 0);
    }
    let product: u64 = round_to_significand(255 * significand, 1).to_u64();
    // The product counts units of 2^-shift.
    let shift: u32 = if stored_exponent == 0 {
        149
    } else {
        150 - stored_exponent
    };
    proof {
        let j: nat = (149 - shift) as nat;
        let pj = pow2(j);
        let ps = pow2(shift as nat);
        lemma2_to64();
        lemma2_to64_rest();
        lemma_pow2_pos(j);
        lemma_pow2_pos(shift as nat);
        lemma_pow2_adds(j, shift as nat);
        assert(magnitude(value) == size);
        assert(exponent(value) == stored_exponent);
        assert(fraction(value) == stored_fraction);
        assert(stored_exponent == 0 ==> j == 0);
        assert(stored_exponent != 0 ==> j == stored_exponent - 1);
        assert(significand * 1 == significand);
        assert(scaled_magnitude(value) == significand * pj);
        assert(255 * (significand * pj) == (255 * significand) * pj) by (nonlinear_arith);
        lemma_rounded_scales((255 * significand) as nat, 1, j);
        assert(power_byte(value) == (product as nat * pj) / (pj * ps));
        lemma_div_denominator((product as nat * pj) as int, pj as int, ps as int);
        lemma_div_by_multiple(product as int, pj as int);
        assert(power_byte(value) == product as nat / ps);
        if shift >= 40 {
            if shift > 40 {
                lemma_pow2_strictly_increases(40, shift as nat);
            }
            lemma_basic_div(product as int, ps as int);
        } else if shift > 24 {
            lemma_pow2_strictly_increases(24, shift as nat);
            lemma_div_is_ordered_by_denominator(product as int, 0x100_0000, ps as int);
        }
    }
    if shift >= 40 {
        0
    } else {
        (product / power_of_two(shift)) as u8
    }
}

/// A clamped power lies in the range, whatever was asked for, unless the
/// request was no number at all.
pub proof fn lemma_clamped_in_range(bits: u32)
    requires
        !is_nan(bits),
    ensures
        in_range(clamped(bits)),
        -(scaled_one() as int) <= scaled(clamped(bits)) <= scaled_one(),
{
    lemma_scaled_one();
    lemma_magnitude_order(ONE, INFINITY);
}

/// Clamping twice is clamping once.
pub proof fn lemma_clamped_idempotent(bits: u32)
    ensures
        clamped(clamped(bits)) == clamped(bits),
{
    lemma_scaled_one();
    lemma_magnitude_order(ONE, INFINITY);
}

/// A power in the range is left as it is.
pub proof fn lemma_clamped_keeps_in_range(bits: u32)
    requires
        in_range(bits),
    ensures
        clamped(bits) == bits,
{
}

/// The PWM rate does not depend on the sign: the direction is carried by the
/// command, not by the byte.
pub proof fn lemma_power_byte_ignores_sign(bits: u32)
    ensures
        power_byte(negated(bits)) == power_byte(bits),
{
    assert(magnitude(negated(bits)) == magnitude(bits));
}

/// Full power is 255 and no power is 0.
pub proof fn lemma_power_byte_ends()
    ensures
        power_byte(ONE) == 255,
        power_byte(MINUS_ONE) == 255,
        power_byte(0) == 0,
        power_byte(SIGN_BIT) == 0,
{
    lemma2_to64();
    lemma_scaled_one();
    lemma_pow2_pos(149);
    assert(exponent(0) == 0 && fraction(0) == 0);
    assert(exponent(SIGN_BIT) == 0 && fraction(SIGN_BIT) == 0);
    lemma_rounded_exact(0);
    lemma_basic_div(0, pow2(149) as int);
    lemma_rounded_scales(255, 1, 149);
    lemma_rounded_exact(255);
    lemma_div_by_multiple(255, pow2(149) as int);
    assert(255 * scaled_one() == 255 * pow2(149));
}

} // verus!
