use uintx::host::host_is_little_endian;
use uintx::radix::ParseError;
use uintx::{u104, u112, u120, u24, u40, u48, u56, u72, u80, u88, u96};

#[test]
fn round_trip_through_native() {
    for v in [0u32, 1, 0x112233, 0xFF_FFFF] {
        assert_eq!(u24::from_num(v).as_num(), v);
    }
    for v in [0u64, 0x1122_3344_5566, 0xFFFF_FFFF_FFFF] {
        assert_eq!(u48::from_num(v).as_num(), v);
    }
    for v in [0u128, 0x11_2233_4455_6677_8899_AABB_CCDD_EEFF, (1u128 << 120) - 1] {
        assert_eq!(u120::from_num(v).as_num(), v);
    }
}

#[test]
fn from_native_drops_high_bits() {
    assert_eq!(u24::from_num(0x1234_5678).as_num(), 0x34_5678);
    assert_eq!(u40::from_num(0xFFFF_FFFF_FFFF_FFFF).as_num(), 0xFF_FFFF_FFFF);
    assert_eq!(u72::from(u128::MAX).as_num(), (1u128 << 72) - 1);
    assert_eq!(u24::from(-1i32).as_num(), 0xFF_FFFF);
    assert_eq!(u48::from(-2i8).as_num(), 0xFFFF_FFFF_FFFE);
}

#[test]
fn bytes_read_in_the_stated_order() {
    assert_eq!(u24::from_le_bytes([0x33, 0x22, 0x11]).as_num(), 0x112233);
    assert_eq!(u24::from_be_bytes([0x11, 0x22, 0x33]).as_num(), 0x112233);
    assert_eq!(u56::from_be_bytes([1, 2, 3, 4, 5, 6, 7]).as_num(), 0x01_0203_0405_0607);
}

#[test]
fn endianness_involution() {
    let b = [1u8, 2, 3, 4, 5];
    assert_eq!(u40::from_le_bytes(b).to_le_bytes(), b);
    assert_eq!(u40::from_be_bytes(b).to_be_bytes(), b);
    assert_eq!(u40::from_ne_bytes(b).to_ne_bytes(), b);
    let c = [9u8, 8, 7, 6, 5, 4, 3, 2, 1, 0, 255, 128, 7];
    assert_eq!(u104::from_le_bytes(c).to_le_bytes(), c);
    assert_eq!(u104::from_be_bytes(c).to_be_bytes(), c);
}

#[test]
fn native_order_matches_one_of_the_orders() {
    let v = u24::from(0x112233u32);
    let ne = v.to_ne_bytes();
    assert!(ne == v.to_le_bytes() || ne == v.to_be_bytes());
    assert_ne!(v.to_le_bytes(), v.to_be_bytes());
}

#[test]
fn swap_bytes_reverses() {
    let v = u24::from(0x112233u32);
    assert_eq!(v.swap_bytes().as_num(), 0x332211);
    assert_eq!(v.swap_bytes().swap_bytes(), v);
}

#[test]
fn arithmetic_equivalence() {
    let a = 0x12_3456u32;
    let b = 0x00_0789u32;
    let pa = u24::from(a);
    let pb = u24::from(b);
    assert_eq!((pa + pb).as_num(), a + b);
    assert_eq!((pa - pb).as_num(), a - b);
    assert_eq!((pb * u24::from(3u32)).as_num(), b * 3);
    assert_eq!((pa / pb).as_num(), a / b);
    assert_eq!((pa % pb).as_num(), a % b);
    assert_eq!((pa & pb).as_num(), a & b);
    assert_eq!((pa | pb).as_num(), a | b);
    assert_eq!((pa ^ pb).as_num(), a ^ b);
    assert_eq!((!pa).as_num(), 0xFF_FFFF - a);
}

#[test]
fn overflow_policy_table() {
    let max = u24::from(u24::MAX_VALUE);
    let one = u24::from(1u32);
    assert_eq!(max.checked_add(one), None);
    assert_eq!(max.wrapping_add(one).as_num(), 0);
    assert_eq!(max.saturating_add(one).as_num(), 0xFF_FFFF);
    let (v, o) = max.overflowing_add(one);
    assert_eq!((v.as_num(), o), (0, true));
}

#[test]
fn overflow_policies_on_sub_and_mul() {
    let zero = u48::min_value();
    let one = u48::from(1u32);
    let big = u48::from(0x1_0000_0000u64);
    assert_eq!(zero.checked_sub(one), None);
    assert_eq!(zero.wrapping_sub(one).as_num(), 0xFFFF_FFFF_FFFF);
    assert_eq!(zero.saturating_sub(one).as_num(), 0);
    assert_eq!(zero.overflowing_sub(one).1, true);
    assert_eq!(big.checked_mul(big), None);
    assert_eq!(big.wrapping_mul(big).as_num(), 0);
    assert_eq!(big.saturating_mul(big).as_num(), 0xFFFF_FFFF_FFFF);
    assert_eq!(big.overflowing_mul(big), (u48::from(0u32), true));
    assert_eq!(one.wrapping_neg().as_num(), 0xFFFF_FFFF_FFFF);
    assert_eq!(one.checked_div(zero), None);
    assert_eq!(one.checked_rem(zero), None);
    assert_eq!(one.saturating_div(zero).as_num(), 0xFFFF_FFFF_FFFF);
    assert_eq!(big.abs_diff(one).as_num(), 0xFFFF_FFFF);
}

#[test]
fn scenario_24_bit() {
    let v = u24::from(0x112233u32);
    let native: [u8; 3] = v.into();
    if host_is_little_endian() {
        assert_eq!(native, [0x33, 0x22, 0x11]);
    } else {
        assert_eq!(native, [0x11, 0x22, 0x33]);
    }
    assert_eq!(v.to_le_bytes(), [0x33, 0x22, 0x11]);
    assert_eq!(v.to_be_bytes(), [0x11, 0x22, 0x33]);
    assert_eq!(v.as_num(), 0x112233);
    assert_eq!((v + 1u32).as_num(), 0x112234);
    assert_eq!(u24::max_value().wrapping_add(u24::from(1u32)).as_num(), 0x000000);
}

#[test]
fn scenario_48_bit_lanes() {
    let v = u48::from(0x112233445566u64);
    if host_is_little_endian() {
        assert_eq!(v.as_u16_array(), [0x5566, 0x3344, 0x1122]);
    } else {
        assert_eq!(v.as_u16_array(), [0x1122, 0x3344, 0x5566]);
    }
    assert_eq!(v.as_u16_array_in(true), [0x5566, 0x3344, 0x1122]);
    assert_eq!(v.as_u16_array_in(false), [0x1122, 0x3344, 0x5566]);
    assert_eq!(u48::from_u16_array_in([0x1122, 0x3344, 0x5566], false), v);
    assert_eq!(u48::from(v.as_u16_array()), v);
    assert_eq!(u48::from_u16_array_in([0x5566, 0x3344, 0x1122], true), v);
    let signed = v.as_i16_array_in(true);
    assert_eq!(signed, [0x5566, 0x3344, 0x1122]);
    let halves = v.as_u24_array_in(true);
    assert_eq!(halves[0].as_num(), 0x445566);
    assert_eq!(halves[1].as_num(), 0x112233);
    assert_eq!(u48::from_u24_array_in(halves, true), v);
    assert_eq!(u48::from(v.as_u24_array()), v);
    let neg = u48::from(0xFFFF_8000_0001u64).as_i16_array_in(true);
    assert_eq!(neg, [1, -32768, -1]);
    assert_eq!(u48::from_i16_array_in(neg, true).as_num(), 0xFFFF_8000_0001);
}

#[test]
fn wider_lanes() {
    let v = u96::from(0x1122_3344_5566_7788_99AA_BBCCu128);
    assert_eq!(v.as_u32_array_in(true), [0x99AA_BBCC, 0x5566_7788, 0x1122_3344]);
    assert_eq!(v.as_i32_array_in(true), [0x99AA_BBCCu32 as i32, 0x5566_7788, 0x1122_3344]);
    assert_eq!(u96::from(v.as_u32_array()), v);
    assert_eq!(u96::from(v.as_i32_array()), v);
    assert_eq!(u96::from(v.as_u16_array()), v);
    let halves = v.as_u48_array_in(true);
    assert_eq!(halves[0].as_num(), 0x7788_99AA_BBCC);
    assert_eq!(u96::from(v.as_u48_array()), v);
    let w = u120::from(0x0F_0E0D_0C0B_0A09_0807_0605_0403_0201u128);
    assert_eq!(w.as_u40_array_in(true)[0].as_num(), 0x05_0403_0201);
    assert_eq!(w.as_u24_array_in(true)[4].as_num(), 0x0F_0E0D);
    assert_eq!(w.as_u24_array_in(false)[0].as_num(), 0x0F_0E0D);
    assert_eq!(u120::from(w.as_u24_array()), w);
    assert_eq!(u120::from(w.as_u40_array()), w);
    let x = u112::from(0x1122_3344_5566_7788_99AA_BBCC_EEFFu128);
    assert_eq!(u112::from(x.as_u16_array()), x);
    assert_eq!(u112::from(x.as_i16_array()), x);
    assert_eq!(u112::from(x.as_u56_array()), x);
    assert_eq!(u112::from(x.as_i8_array()), x);
}

#[test]
fn cross_width_conversion() {
    let small = u24::from(0x12_3456u32);
    let wide = u120::from(small);
    assert_eq!(wide.as_num(), 0x12_3456);
    assert_eq!(u24::from(wide), small);
    let big = u56::from(0x11_2233_4455_6677u64);
    let narrow = u24::from(big);
    assert_eq!(narrow.as_num(), 0x55_6677);
    assert_ne!(u56::from(narrow), big);
    let fits = u56::from(0x55_6677u64);
    assert_eq!(u56::from(u24::from(fits)), fits);
    assert_eq!(u88::from(u80::from(u72::from(u40::from(0xAB_CDEF_0123u64)))).as_num(), 0xAB_CDEF_0123);
}

#[test]
fn conversions_to_native() {
    let v = u40::from(0xAB_CDEF_0123u64);
    assert_eq!(u8::from(v), 0x23);
    assert_eq!(u16::from(v), 0x0123);
    assert_eq!(u32::from(v), 0xCDEF_0123);
    assert_eq!(u64::from(v), 0xAB_CDEF_0123);
    assert_eq!(i8::from(v), 0x23);
    assert_eq!(i32::from(v), 0xCDEF_0123u32 as i32);
    assert_eq!(i128::from(v), 0xAB_CDEF_0123);
    let bytes: [u8; 5] = v.into();
    let signed: [i8; 5] = v.into();
    if host_is_little_endian() {
        assert_eq!(bytes, [0x23, 0x01, 0xEF, 0xCD, 0xAB]);
        assert_eq!(signed, [0x23, 0x01, 0xEFu8 as i8, 0xCDu8 as i8, 0xABu8 as i8]);
    } else {
        assert_eq!(bytes, [0xAB, 0xCD, 0xEF, 0x01, 0x23]);
        assert_eq!(signed, [0xABu8 as i8, 0xCDu8 as i8, 0xEFu8 as i8, 0x01, 0x23]);
    }
    assert_eq!(u40::from(bytes), v);
    assert_eq!(u40::from(signed), v);
    assert_eq!(bytes, v.to_ne_bytes());
    assert_eq!(v.as_i8_array_in(true), [0x23, 0x01, 0xEFu8 as i8, 0xCDu8 as i8, 0xABu8 as i8]);
    assert_eq!(v.as_i8_array_in(false), [0xABu8 as i8, 0xCDu8 as i8, 0xEFu8 as i8, 0x01, 0x23]);
    assert_eq!(u40::from_i8_array_in(v.as_i8_array_in(false), false), v);
    assert_eq!(*v.inner_ref(), [0x23, 0x01, 0xEF, 0xCD, 0xAB]);
}

#[test]
fn rotation_inverse() {
    let v = u24::from(0x80_0001u32);
    assert_eq!(v.rotate_left(1).as_num(), 0x00_0003);
    assert_eq!(v.rotate_right(1).as_num(), 0xC0_0000);
    for k in 0..24u32 {
        assert_eq!(v.rotate_left(k).rotate_right(k), v);
    }
    let w = u88::from(0x12_3456_789A_BCDE_F012_3456u128);
    for k in 0..88u32 {
        assert_eq!(w.rotate_left(k).rotate_right(k), w);
    }
    assert_eq!(w.rotate_left(88), w);
}

#[test]
fn bit_counts_ignore_carrier_padding() {
    let v = u24::from(0x00_F00Fu32);
    assert_eq!(v.count_ones(), 8);
    assert_eq!(v.count_zeros(), 16);
    assert_eq!(v.leading_zeros(), 8);
    assert_eq!(v.trailing_zeros(), 0);
    assert_eq!(v.trailing_ones(), 4);
    assert_eq!(u24::from(0xF0_0000u32).leading_ones(), 4);
    assert_eq!(u24::from(0u32).leading_zeros(), 24);
    assert_eq!(u24::from(0u32).trailing_zeros(), 24);
    assert_eq!(u120::max_value().leading_ones(), 120);
    assert_eq!(u120::max_value().count_ones(), 120);
    assert_eq!(u56::from(0x100u32).trailing_zeros(), 8);
}

#[test]
fn shifts_are_bounded_by_the_width() {
    let v = u24::from(0x80_0001u32);
    assert_eq!(v.checked_shl(24), None);
    assert_eq!(v.checked_shr(24), None);
    assert_eq!(v.checked_shl(1).map(|x| x.as_num()), Some(0x00_0002));
    assert_eq!(v.wrapping_shl(25).as_num(), 0x00_0002);
    assert_eq!(v.wrapping_shr(24).as_num(), 0x80_0001);
    assert_eq!(v.overflowing_shl(30).1, true);
    assert_eq!(v.overflowing_shr(3), (u24::from(0x10_0000u32), false));
    let mut z = v;
    z <<= 30u32;
    assert_eq!(z, 0);
}

#[test]
fn compound_assignment_is_modular() {
    let mut z = u24::max_value();
    z += 1u32;
    assert_eq!(z, 0);
    z -= 1u32;
    assert_eq!(z, 0xFF_FFFF);
    z /= 0u32;
    assert_eq!(z, 0xFF_FFFF);
    z %= 0u32;
    assert_eq!(z, 0xFF_FFFF);
    z %= 16u32;
    assert_eq!(z, 15);
}

#[test]
fn radix_parsing() {
    assert_eq!(u24::from_str_radix("ffffff", 16).map(|v| v.as_num()), Ok(0xFF_FFFF));
    assert_eq!(u24::from_str_radix("+123", 10).map(|v| v.as_num()), Ok(123));
    assert_eq!(u24::from_str_radix("1000000", 16), Err(ParseError::PosOverflow));
    assert_eq!(u24::from_str_radix("", 10), Err(ParseError::Empty));
    assert_eq!(u24::from_str_radix("+", 10), Err(ParseError::InvalidDigit));
    assert_eq!(u24::from_str_radix("12z", 10), Err(ParseError::InvalidDigit));
    assert_eq!(u24::from_str_radix("-1", 10), Err(ParseError::InvalidDigit));
    assert_eq!(u112::from_str_radix("ZZ", 36).map(|v| v.as_num()), Ok(35 * 36 + 35));
}

#[test]
fn comparisons_follow_the_value() {
    let a = u24::from(0x00_0100u32);
    let b = u24::from(0x00_00FFu32);
    assert!(a > b);
    assert!(a.gt(&b));
    assert!(b.lt(&a));
    assert!(a >= 0x100u32);
    assert!(a == 0x100u32);
    assert_eq!(u24::default(), 0u32);
}

#[test]
fn powers() {
    let three = u24::from(3u32);
    assert_eq!(three.pow(10).as_num(), 59049);
    assert_eq!(three.checked_pow(16), None);
    assert_eq!(three.checked_pow(15).map(|v| v.as_num()), Some(14_348_907));
    assert_eq!(three.saturating_pow(16).as_num(), 0xFF_FFFF);
    assert_eq!(three.wrapping_pow(16).as_num(), 43_046_721 % (1 << 24));
    assert_eq!(u24::from(0u32).pow(0).as_num(), 1);
}

#[test]
fn negation_and_powers_of_two() {
    assert_eq!(u40::from(0u32).checked_neg(), Some(u40::from(0u32)));
    assert_eq!(u40::from(5u32).checked_neg(), None);
    assert_eq!(u40::from(5u32).overflowing_neg(), (u40::from(0xFF_FFFF_FFFBu64), true));
    assert!(u40::from(0x80_0000_0000u64).is_power_of_two());
    assert!(!u40::from(6u32).is_power_of_two());
    assert_eq!(u40::from(17u32).div_euclid(u40::from(5u32)).as_num(), 3);
    assert_eq!(u40::from(17u32).rem_euclid(u40::from(5u32)).as_num(), 2);
}

#[test]
fn host_order_conversions_are_involutions() {
    let v = u72::from(0x01_0203_0405_0607_0809u128);
    assert_eq!(u72::from_be(v.to_be()), v);
    assert_eq!(u72::from_le(v.to_le()), v);
    assert!(v.to_be() == v || v.to_be() == v.swap_bytes());
    assert_eq!(v.to_be_in(true), v.swap_bytes());
    assert_eq!(v.to_be_in(false), v);
    assert_eq!(v.to_le_in(true), v);
    assert_eq!(v.to_le_in(false), v.swap_bytes());
    assert_eq!(u72::from_be_in(v.to_be_in(true), true), v);
}

#[test]
fn logarithms_and_rounded_division() {
    let v = u56::from(1000u32);
    assert_eq!(v.ilog10(), 3);
    assert_eq!(v.ilog2(), 9);
    assert_eq!(v.ilog(u56::from(3u32)), 6);
    assert_eq!(u56::from(0u32).checked_ilog2(), None);
    assert_eq!(v.checked_ilog(u56::from(1u32)), None);
    assert_eq!(u120::max_value().ilog2(), 119);
    assert_eq!(u24::from(7u32).div_ceil(u24::from(2u32)).as_num(), 4);
    assert_eq!(u24::from(8u32).div_ceil(u24::from(2u32)).as_num(), 4);
}
