use scivalue::{Integral, SciValue};

#[test]
fn wrap_has_exponent_zero() {
    let x: SciValue<u16, i64> = SciValue::wrap(412);
    assert_eq!(x.base(), 412);
    assert_eq!(x.exponent(), 0);
    assert_eq!(x, SciValue::wrap_with_exponent(412u16, 0i64));
}

#[test]
fn wrap_with_exponent_keeps_both_parts() {
    let x = SciValue::wrap_with_exponent(-1200i32, -7i8);
    assert_eq!(x.base(), -1200);
    assert_eq!(x.exponent(), -7);
}

#[test]
fn clone_is_the_same_value() {
    let x = SciValue::wrap_with_exponent(u128::MAX, i128::MIN);
    assert_eq!(x.clone(), x);
}

#[test]
fn debug_shows_base_and_exponent() {
    let x = SciValue::wrap_with_exponent(-45i32, 12i8);
    let text = format!("{:?}", x);
    assert!(text.contains("-45"));
    assert!(text.contains("12"));
}

#[test]
fn from_digit_and_max_value() {
    assert_eq!(Integral::equals(u8::from_digit(10), 10u8), true);
    assert_eq!(i128::from_digit(0), 0i128);
    assert_eq!(isize::from_digit(1), 1isize);
    let greatest_i8: i8 = Integral::max_value();
    let greatest_u64: u64 = Integral::max_value();
    assert_eq!(greatest_i8, 127i8);
    assert_eq!(greatest_u64, u64::MAX);
}

#[test]
fn checked_operations_report_leaving_the_range() {
    assert_eq!(Integral::checked_add(250u8, 5u8), Some(255u8));
    assert_eq!(Integral::checked_add(250u8, 6u8), None);
    assert_eq!(Integral::checked_sub(-128i8, 1i8), None);
    assert_eq!(Integral::checked_sub(0u32, 1u32), None);
    assert_eq!(Integral::checked_sub(-127i8, 1i8), Some(-128i8));
    assert_eq!(Integral::checked_mul(i64::MAX, 2i64), None);
    assert_eq!(Integral::checked_mul(-64i8, 2i8), Some(-128i8));
    assert_eq!(Integral::checked_mul(64i8, 2i8), None);
}

#[test]
fn division_rounds_toward_zero() {
    assert_eq!(Integral::checked_div(7i32, 2i32), Some(3));
    assert_eq!(Integral::checked_div(-7i32, 2i32), Some(-3));
    assert_eq!(Integral::checked_div(7i32, -2i32), Some(-3));
    assert_eq!(Integral::checked_div(-7i32, -2i32), Some(3));
    assert_eq!(Integral::checked_div(7u16, 0u16), None);
    assert_eq!(Integral::checked_div(i16::MIN, -1i16), None);
}

#[test]
fn remainder_has_the_sign_of_the_dividend() {
    assert_eq!(Integral::checked_rem(7i32, 2i32), Some(1));
    assert_eq!(Integral::checked_rem(-7i32, 2i32), Some(-1));
    assert_eq!(Integral::checked_rem(7i32, -2i32), Some(1));
    assert_eq!(Integral::checked_rem(-7i32, -2i32), Some(-1));
    assert_eq!(Integral::checked_rem(7usize, 0usize), None);
    assert_eq!(Integral::checked_rem(0i64, 0i64), None);
}

#[test]
fn remainder_by_minus_one_is_zero() {
    assert_eq!(Integral::checked_rem(i8::MIN, -1i8), Some(0));
    assert_eq!(Integral::checked_rem(i16::MIN, -1i16), Some(0));
    assert_eq!(Integral::checked_rem(i32::MIN, -1i32), Some(0));
    assert_eq!(Integral::checked_rem(i64::MIN, -1i64), Some(0));
    assert_eq!(Integral::checked_rem(i128::MIN, -1i128), Some(0));
    assert_eq!(Integral::checked_rem(isize::MIN, -1isize), Some(0));
    assert_eq!(Integral::checked_rem(5i32, -1i32), Some(0));
}

#[test]
fn comparisons_go_by_the_integer() {
    assert!(Integral::less_than(-1i8, 0i8));
    assert!(!Integral::less_than(0u128, 0u128));
    assert!(Integral::less_than(u128::MAX - 1, u128::MAX));
    assert!(Integral::equals(isize::MIN, isize::MIN));
    assert!(!Integral::equals(3u16, 4u16));
}

#[test]
fn every_machine_integer_can_be_a_base() {
    assert_eq!(SciValue::wrap_with_exponent(100u8, 0i8).reduce(), Ok(SciValue::wrap_with_exponent(1u8, 2i8)));
    assert_eq!(SciValue::wrap_with_exponent(100u16, 0i16).reduce(), Ok(SciValue::wrap_with_exponent(1u16, 2i16)));
    assert_eq!(SciValue::wrap_with_exponent(100u32, 0i32).reduce(), Ok(SciValue::wrap_with_exponent(1u32, 2i32)));
    assert_eq!(SciValue::wrap_with_exponent(100u64, 0i64).reduce(), Ok(SciValue::wrap_with_exponent(1u64, 2i64)));
    assert_eq!(SciValue::wrap_with_exponent(100u128, 0i128).reduce(), Ok(SciValue::wrap_with_exponent(1u128, 2i128)));
    assert_eq!(SciValue::wrap_with_exponent(100usize, 0isize).reduce(), Ok(SciValue::wrap_with_exponent(1usize, 2isize)));
    assert_eq!(SciValue::wrap_with_exponent(-100i8, 0i8).reduce(), Ok(SciValue::wrap_with_exponent(-1i8, 2i8)));
    assert_eq!(SciValue::wrap_with_exponent(-100i16, 0i8).reduce(), Ok(SciValue::wrap_with_exponent(-1i16, 2i8)));
    assert_eq!(SciValue::wrap_with_exponent(-100i32, 0i8).reduce(), Ok(SciValue::wrap_with_exponent(-1i32, 2i8)));
    assert_eq!(SciValue::wrap_with_exponent(-100i64, 0i8).reduce(), Ok(SciValue::wrap_with_exponent(-1i64, 2i8)));
    assert_eq!(SciValue::wrap_with_exponent(-100i128, 0i8).reduce(), Ok(SciValue::wrap_with_exponent(-1i128, 2i8)));
    assert_eq!(SciValue::wrap_with_exponent(-100isize, 0i8).reduce(), Ok(SciValue::wrap_with_exponent(-1isize, 2i8)));
}
