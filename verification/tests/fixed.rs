use whale_land::fixed::Fixed;

#[test]
fn from_small_integers_is_exact() {
    assert_eq!(Fixed::from(3u8).inner_value(), 768);
    assert_eq!(Fixed::from(-3i8).inner_value(), -768);
    assert_eq!(Fixed::from(65535u16).inner_value(), 65535 * 256);
    assert_eq!(Fixed::from(-32768i16).inner_value(), -32768 * 256);
}

#[test]
fn try_from_wide_integers() {
    assert_eq!(Fixed::try_from(5u32), Ok(Fixed::from_inner_value(1280)));
    assert_eq!(Fixed::try_from(0x007f_ffffu32), Ok(Fixed::from_inner_value(0x7fff_ff00)));
    assert_eq!(Fixed::try_from(0x0080_0000u32), Err(()));
    assert_eq!(Fixed::try_from(-1i32), Ok(Fixed::from_inner_value(-256)));
    assert_eq!(Fixed::try_from(-0x80_0000i64), Ok(Fixed::from_inner_value(i32::MIN)));
    assert_eq!(Fixed::try_from(-0x80_0001i64), Err(()));
    assert_eq!(Fixed::try_from(7u64), Ok(Fixed::from_inner_value(1792)));
    assert_eq!(Fixed::try_from(7u128), Ok(Fixed::from_inner_value(1792)));
    assert_eq!(Fixed::try_from(-7i128), Ok(Fixed::from_inner_value(-1792)));
}

#[test]
fn try_from_u32_loses_bits_shifted_out() {
    // The upper 8 bits of the source are shifted out before the range check.
    assert_eq!(Fixed::try_from(0x0100_0000u32), Ok(Fixed::from_inner_value(0)));
    assert_eq!(Fixed::try_from(0x0100_0000i32), Ok(Fixed::from_inner_value(0)));
}

#[test]
fn try_into_integers() {
    let f = Fixed::from_inner_value(5 * 256);
    assert_eq!(u8::try_from(f), Ok(5));
    assert_eq!(i64::try_from(f), Ok(5));
    let g = Fixed::from_inner_value(-2 * 256);
    assert_eq!(u8::try_from(g), Err(()));
    assert_eq!(i8::try_from(g), Ok(-2));
    assert_eq!(u128::try_from(g), Err(()));
    let h = Fixed::from_inner_value(300 * 256);
    assert_eq!(u8::try_from(h), Err(()));
    assert_eq!(u16::try_from(h), Ok(300));
    let frac = Fixed::from_inner_value(257);
    assert_eq!(i32::try_from(frac), Err(()));
}

#[test]
fn integer_round_trip() {
    for v in [-128i16, -1, 0, 1, 127, 32767, -32768] {
        assert_eq!(i16::try_from(Fixed::from(v)), Ok(v));
    }
    for v in [0u32, 1, 0x7f_ffff] {
        assert_eq!(u32::try_from(Fixed::try_from(v).unwrap()), Ok(v));
    }
}
