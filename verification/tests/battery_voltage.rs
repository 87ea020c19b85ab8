use thunderborg::voltage::{voltage, VOLTAGE_PIN_CORRECTION, VOLTAGE_PIN_MAX};

fn float_voltage(raw: u16) -> f32 {
    (raw as f32) / (0x3FF as f32) * 36.3 + 0.0
}

#[test]
fn constants_are_the_patterns_of_the_calibration() {
    assert_eq!(f32::from_bits(VOLTAGE_PIN_MAX), 36.3);
    assert_eq!(f32::from_bits(VOLTAGE_PIN_CORRECTION), 0.0);
}

#[test]
fn full_scale_reading_is_full_scale_voltage() {
    assert_eq!(f32::from_bits(voltage(1023)), 36.3);
}

#[test]
fn no_reading_is_no_voltage() {
    assert_eq!(voltage(0), 0.0f32.to_bits());
}

#[test]
fn exact_values_of_some_readings() {
    assert_eq!(f32::from_bits(voltage(1)), 1.0f32 / 1023.0 * 36.3);
    assert_eq!(f32::from_bits(voltage(512)), 512.0f32 / 1023.0 * 36.3);
    assert_eq!(voltage(341), (341.0f32 / 1023.0 * 36.3).to_bits());
    assert_eq!(voltage(65535), (65535.0f32 / 1023.0 * 36.3).to_bits());
}

#[test]
fn voltage_agrees_with_float_arithmetic_on_every_reading() {
    for raw in 0..=u16::MAX {
        assert_eq!(voltage(raw), float_voltage(raw).to_bits(), "reading {}", raw);
    }
}
