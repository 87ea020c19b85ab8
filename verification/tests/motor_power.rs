use thunderborg::binary32::is_negative;
use thunderborg::power::{clamp_motor_power, motor_power_to_byte};

fn float_clamp(value: f32) -> f32 {
    if value > 1.0 {
        1.0
    } else if value < -1.0 {
        -1.0
    } else {
        value
    }
}

fn float_byte(value: f32) -> u8 {
    (value.abs() * 255.0) as u8
}

#[test]
fn clamp_leaves_the_range_alone() {
    for value in [0.0f32, -0.0, 0.1, -0.1, 0.8, -0.8, 1.0, -1.0, 0.999_999_9, 1e-40] {
        assert_eq!(clamp_motor_power(value.to_bits()), value.to_bits());
    }
}

#[test]
fn clamp_cuts_what_lies_outside() {
    assert_eq!(clamp_motor_power(1.5f32.to_bits()), 1.0f32.to_bits());
    assert_eq!(clamp_motor_power(1.000_000_1f32.to_bits()), 1.0f32.to_bits());
    assert_eq!(clamp_motor_power(f32::MAX.to_bits()), 1.0f32.to_bits());
    assert_eq!(clamp_motor_power(f32::INFINITY.to_bits()), 1.0f32.to_bits());
    assert_eq!(clamp_motor_power((-1.5f32).to_bits()), (-1.0f32).to_bits());
    assert_eq!(clamp_motor_power(f32::MIN.to_bits()), (-1.0f32).to_bits());
    assert_eq!(clamp_motor_power(f32::NEG_INFINITY.to_bits()), (-1.0f32).to_bits());
}

#[test]
fn clamp_keeps_a_nan() {
    assert_eq!(clamp_motor_power(0x7FC0_0000), 0x7FC0_0000);
    assert_eq!(clamp_motor_power(0xFFC0_0001), 0xFFC0_0001);
    assert_eq!(clamp_motor_power(0x7F80_0001), 0x7F80_0001);
}

#[test]
fn clamp_agrees_with_float_comparison() {
    let mut bits: u32 = 0;
    loop {
        let value = f32::from_bits(bits);
        if !value.is_nan() {
            assert_eq!(clamp_motor_power(bits), float_clamp(value).to_bits(), "bits {:#x}", bits);
        } else {
            assert_eq!(clamp_motor_power(bits), bits);
        }
        match bits.checked_add(4099) {
            Some(next) => bits = next,
            None => break,
        }
    }
}

#[test]
fn clamp_is_idempotent() {
    for bits in [0u32, 0x8000_0000, 0x3F80_0000, 0x3F80_0001, 0xBF80_0001, 0x7F80_0000, 0x7FC0_0000, 0x4000_0000, 0x3DCC_CCCD] {
        let once = clamp_motor_power(bits);
        assert_eq!(clamp_motor_power(once), once);
    }
}

#[test]
fn byte_of_full_and_no_power() {
    assert_eq!(motor_power_to_byte(1.0f32.to_bits()), 255);
    assert_eq!(motor_power_to_byte((-1.0f32).to_bits()), 255);
    assert_eq!(motor_power_to_byte(0.0f32.to_bits()), 0);
    assert_eq!(motor_power_to_byte((-0.0f32).to_bits()), 0);
}

#[test]
fn byte_is_cut_off_not_rounded() {
    // 0.1 * 255 = 25.5, 0.8 * 255 = 204, 0.5 * 255 = 127.5
    assert_eq!(motor_power_to_byte(0.1f32.to_bits()), 25);
    assert_eq!(motor_power_to_byte(0.8f32.to_bits()), 204);
    assert_eq!(motor_power_to_byte(0.5f32.to_bits()), 127);
    assert_eq!(motor_power_to_byte(0.999f32.to_bits()), 254);
    assert_eq!(motor_power_to_byte(0.003f32.to_bits()), 0);
    assert_eq!(motor_power_to_byte(0.004f32.to_bits()), 1);
}

#[test]
fn byte_ignores_the_sign() {
    for value in [0.1f32, 0.25, 0.333, 0.8, 0.999, 1.0, 1e-10, 1e-40] {
        assert_eq!(
            motor_power_to_byte(value.to_bits()),
            motor_power_to_byte((-value).to_bits())
        );
    }
}

#[test]
fn byte_follows_the_rounding_of_the_product() {
    // The product of these powers with 255 lies just below a whole number and
    // is rounded up to it before it is cut off.
    for whole in 1u32..=255 {
        let near = whole as f32 / 255.0;
        let bits = near.to_bits();
        for candidate in bits.saturating_sub(4)..=bits + 4 {
            if candidate <= 0x3F80_0000 {
                let value = f32::from_bits(candidate);
                assert_eq!(motor_power_to_byte(candidate), float_byte(value), "bits {:#x}", candidate);
            }
        }
    }
}

#[test]
fn byte_agrees_with_float_multiplication() {
    let mut bits: u32 = 0;
    while bits <= 0x3F80_0000 {
        let value = f32::from_bits(bits);
        assert_eq!(motor_power_to_byte(bits), float_byte(value), "bits {:#x}", bits);
        assert_eq!(motor_power_to_byte(bits | 0x8000_0000), float_byte(-value));
        bits += 2039;
    }
}

#[test]
fn byte_of_the_smallest_powers_is_zero() {
    for bits in [1u32, 2, 0x7F_FFFF, 0x80_0000, 0x80_0001, 0x3B00_0000] {
        assert_eq!(motor_power_to_byte(bits), float_byte(f32::from_bits(bits)));
    }
}

#[test]
fn negative_means_below_zero() {
    assert!(is_negative((-0.1f32).to_bits()));
    assert!(is_negative((-1e-45f32).to_bits()));
    assert!(is_negative(f32::NEG_INFINITY.to_bits()));
    assert!(!is_negative(0.0f32.to_bits()));
    assert!(!is_negative((-0.0f32).to_bits()));
    assert!(!is_negative(0.1f32.to_bits()));
    assert!(!is_negative(0xFFC0_0000));
    assert!(!is_negative(0x7FC0_0000));
}
