//! Battery voltage: what a reading of the analog pin means in volts.
//!
//! The board reports the battery voltage as a reading of its analog
//! converter. The voltage is the reading divided by the converter's greatest
//! value and multiplied by the voltage that this value stands for, each
//! operation rounded as binary32 arithmetic rounds it.
use crate::binary32::{
    excess_bits, exponent, fraction, lemma_pattern_of, lemma_rounded_cancels, lemma_rounded_exact,
    lemma_rounded_scales, nearest_even, pack, pattern_of, round_to_significand, rounded, scaled_magnitude,
    scaled_one, INFINITY,
};
use vstd::arithmetic::power2::{lemma2_to64, lemma2_to64_rest, lemma_pow2_adds, lemma_pow2_pos, pow2};
use vstd::prelude::*;

verus! {

/// Maximum value for analog readings
pub const COMMAND_ANALOG_MAX: u16 = 0x3FF;

/// Maximum voltage from the analog voltage monitoring pin: the pattern of
/// 36.3.
pub const VOLTAGE_PIN_MAX: u32 = 0x4211_3333;

/// Correction value for the analog voltage monitoring pin: the pattern of
/// 0.0. Adding it changes no voltage, so no addition is made.
pub const VOLTAGE_PIN_CORRECTION: u32 = 0;

/// The significand of `VOLTAGE_PIN_MAX`, which counts units of 2^-18.
pub const VOLTAGE_PIN_MAX_DIGITS: u64 = 0x91_3333;

/// The reading as a share of the greatest reading, in units of 2^-149.
pub open spec fn reading_share(raw: nat) -> nat {
    rounded(raw * scaled_one(), COMMAND_ANALOG_MAX as nat)
}

/// The voltage that a reading stands for, in units of 2^-149.
pub open spec fn volts_scaled(raw: nat) -> nat {
    rounded(reading_share(raw) * scaled_magnitude(VOLTAGE_PIN_MAX), scaled_one())
}

/// The voltage that a reading stands for, as the pattern of a binary32
/// number.
pub open spec fn volts(raw: nat) -> u32 {
    pattern_of(volts_scaled(raw))
}

proof fn lemma_pin_max()
    ensures
        scaled_magnitude(VOLTAGE_PIN_MAX) == (VOLTAGE_PIN_MAX_DIGITS as nat) * pow2(131),
{
    assert(exponent(VOLTAGE_PIN_MAX) == 132);
    assert(fraction(VOLTAGE_PIN_MAX) == 0x11_3333);
}

/// How the voltage comes from a share that is known in units of 2^-33.
proof fn lemma_volts_from_share(raw: nat, share: nat)
    requires
        reading_share(raw) == share * pow2(116),
    ensures
        volts_scaled(raw) == rounded(share * (VOLTAGE_PIN_MAX_DIGITS as nat), 1) * pow2(98),
{
    let c = VOLTAGE_PIN_MAX_DIGITS as nat;
    let one = pow2(149);
    lemma_pin_max();
    lemma_pow2_pos(149);
    lemma_pow2_adds(116, 131);
    lemma_pow2_adds(98, 149);
    assert((share * pow2(116)) * (c * pow2(131)) == ((share * c) * pow2(98)) * one)
        by (nonlinear_arith)
        requires
            pow2(116) * pow2(131) == pow2(98) * one,
    ;
    assert(one == 1 * one);
    lemma_rounded_cancels((share * c) * pow2(98), 1, one);
    lemma_rounded_scales(share * c, 1, 98);
}

/// No reading stands for no voltage.
proof fn lemma_volts_of_zero()
    ensures
        volts_scaled(0) == 0,
        volts(0) == 0,
{
    lemma2_to64();
    assert(0 * scaled_one() == 0);
    assert(0nat / 1023 == 0);
    assert(0nat % 1023 == 0);
    assert(excess_bits(0) == 0);
    assert(1023 * pow2(0) == 1023);
    assert(nearest_even(0, 1023) == 0);
    assert(reading_share(0) == 0);
    assert(0 * scaled_magnitude(VOLTAGE_PIN_MAX) == 0);
    lemma_pow2_pos(149);
    lemma_rounded_cancels(0, 1, scaled_one());
    assert(1 * scaled_one() == scaled_one());
    lemma_rounded_exact(0);
    assert(volts_scaled(0) == 0);
    assert(exponent(0) == 0 && fraction(0) == 0);
    lemma_pattern_of(0);
}

/// The voltage that a reading of the analog pin stands for: the pattern of
/// a finite number that is zero or more.
pub fn voltage(raw: u16) -> (bits: u32)
    ensures
        bits == volts(raw as nat),
        bits < INFINITY,
        scaled_magnitude(bits) == volts_scaled(raw as nat),
{
    if raw == 0 {
        proof {
            lemma_volts_of_zero();
            assert(exponent(0) == 0 && fraction(0) == 0);
        }
        return 0;
    }
    proof {
        lemma2_to64();
        lemma2_to64_rest();
        lemma_pow2_adds(33, 116);
    }
    let numerator: u64 = raw as u64 * 0x2_0000_0000;
    let share = round_to_significand(numerator, COMMAND_ANALOG_MAX as u64);
    proof {
        assert(raw as nat * scaled_one() == numerator as nat * pow2(116)) by (nonlinear_arith)
            requires
                numerator == raw * pow2(33),
                scaled_one() == pow2(33) * pow2(116),
        ;
        lemma_rounded_scales(numerator as nat, 1023, 116);
        lemma_volts_from_share(raw as nat, share.value());
        lemma_pow2_pos(share.exponent as nat);
        assert(share.value() >= 0x80_0000) by (nonlinear_arith)
            requires
                share.value() == share.digits * pow2(share.exponent as nat),
                share.digits >= 0x80_0000,
                pow2(share.exponent as nat) >= 1,
        ;
    }
    let share_units: u64 = share.to_u64();
    let product = round_to_significand(share_units * VOLTAGE_PIN_MAX_DIGITS, 1);
    proof {
        let exact = (share_units * VOLTAGE_PIN_MAX_DIGITS) as nat;
        assert(exact / 1 == exact);
        assert(excess_bits(exact) == 1 + excess_bits(exact / 2));
    }
    pack(product, 98)
}

/// A reading of the greatest value stands for the greatest voltage.
pub proof fn lemma_volts_full_scale()
    ensures
        volts(COMMAND_ANALOG_MAX as nat) == VOLTAGE_PIN_MAX,
{
    let one = pow2(149);
    let c = VOLTAGE_PIN_MAX_DIGITS as nat;
    lemma2_to64();
    lemma_pow2_pos(149);
    lemma_pin_max();
    assert(1023 * one == one * 1023) by (nonlinear_arith);
    assert(1 * 1023 == 1023);
    lemma_rounded_cancels(one, 1, 1023);
    assert(one == 1 * one);
    lemma_rounded_scales(1, 1, 149);
    lemma_rounded_exact(1);
    assert(reading_share(1023) == one);
    let full = scaled_magnitude(VOLTAGE_PIN_MAX);
    assert(one * full == full * one) by (nonlinear_arith);
    lemma_rounded_cancels(full, 1, one);
    lemma_rounded_scales(c, 1, 131);
    lemma_rounded_exact(c);
    assert(volts_scaled(1023) == full);
    lemma_pattern_of(VOLTAGE_PIN_MAX);
}

} // verus!
