use thunderborg::binary32::{
    is_negative, pack, power_of_two, round_to_significand, Significand, HIDDEN_BIT, INFINITY,
    MINUS_ONE, ONE, SIGN_BIT,
};

#[test]
fn constants_are_the_patterns_they_name() {
    assert_eq!(ONE, 1.0f32.to_bits());
    assert_eq!(MINUS_ONE, (-1.0f32).to_bits());
    assert_eq!(INFINITY, f32::INFINITY.to_bits());
    assert_eq!(SIGN_BIT, (-0.0f32).to_bits());
    assert_eq!(HIDDEN_BIT, 1 << 23);
}

#[test]
fn powers_of_two() {
    assert_eq!(power_of_two(0), 1);
    assert_eq!(power_of_two(1), 2);
    assert_eq!(power_of_two(23), 0x80_0000);
    assert_eq!(power_of_two(63), 0x8000_0000_0000_0000);
}

#[test]
fn small_numbers_are_not_rounded() {
    assert_eq!(round_to_significand(0, 1), Significand { digits: 0, exponent: 0 });
    assert_eq!(round_to_significand(255, 1), Significand { digits: 255, exponent: 0 });
    assert_eq!(
        round_to_significand(0xFF_FFFF, 1),
        Significand { digits: 0xFF_FFFF, exponent: 0 }
    );
}

#[test]
fn long_numbers_are_rounded_to_24_bits() {
    // 2^24 + 1 lies halfway between 2^24 and 2^24 + 2: the even significand wins.
    assert_eq!(
        round_to_significand(0x100_0001, 1),
        Significand { digits: 0x80_0000, exponent: 1 }
    );
    // 2^24 + 3 lies halfway between 2^24 + 2 and 2^24 + 4.
    assert_eq!(
        round_to_significand(0x100_0003, 1),
        Significand { digits: 0x80_0002, exponent: 1 }
    );
    assert_eq!(
        round_to_significand(0x100_0002, 1),
        Significand { digits: 0x80_0001, exponent: 1 }
    );
    // Above the half the next significand is taken, below it the one before.
    assert_eq!(
        round_to_significand(0x200_0003, 1),
        Significand { digits: 0x80_0001, exponent: 2 }
    );
    assert_eq!(
        round_to_significand(0x200_0001, 1),
        Significand { digits: 0x80_0000, exponent: 2 }
    );
}

#[test]
fn rounding_may_carry_into_the_next_bit() {
    assert_eq!(
        round_to_significand(0x1FF_FFFF, 1),
        Significand { digits: 0x100_0000, exponent: 1 }
    );
    assert_eq!(Significand { digits: 0x100_0000, exponent: 1 }.to_u64(), 0x200_0000);
}

#[test]
fn quotients_are_rounded_once() {
    // 1 / 3 in units of 2^-25: 11184810.67 is nearest to 11184811.
    assert_eq!(
        round_to_significand(1 << 25, 3),
        Significand { digits: 11184811, exponent: 0 }
    );
    assert_eq!(f32::from_bits(pack(round_to_significand(1 << 25, 3), 149 - 25)), 1.0f32 / 3.0);
    // 10 / 4 = 2.5 is halfway between 2 and 3.
    assert_eq!(round_to_significand(10, 4), Significand { digits: 2, exponent: 0 });
    assert_eq!(round_to_significand(14, 4), Significand { digits: 4, exponent: 0 });
}

#[test]
fn pack_builds_the_pattern() {
    assert_eq!(pack(Significand { digits: 0x80_0000, exponent: 0 }, 126), ONE);
    assert_eq!(pack(Significand { digits: 0x100_0000, exponent: 0 }, 125), ONE);
    assert_eq!(pack(Significand { digits: 0, exponent: 7 }, 3), 0);
    assert_eq!(
        pack(Significand { digits: 0x91_3333, exponent: 0 }, 131),
        36.3f32.to_bits()
    );
    assert_eq!(
        f32::from_bits(pack(Significand { digits: 0xC0_0000, exponent: 2 }, 125)),
        3.0
    );
}

#[test]
fn sign_of_a_number() {
    assert!(is_negative(MINUS_ONE));
    assert!(!is_negative(ONE));
    assert!(!is_negative(SIGN_BIT));
    assert!(!is_negative(0));
}
