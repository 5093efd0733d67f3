use scivalue::{SciError, SciValue};

#[test]
fn checked_add_gives_the_sum_at_the_smaller_exponent() {
    let lhs = SciValue::wrap_with_exponent(5u64, 2i32);
    let rhs = SciValue::wrap_with_exponent(21u64, 5i32);
    assert_eq!(lhs.checked_add(rhs), Ok(SciValue::wrap_with_exponent(21005u64, 2i32)));
    assert_eq!(rhs.checked_add(lhs), Ok(SciValue::wrap_with_exponent(21005u64, 2i32)));
}

#[test]
fn checked_add_reports_overflow() {
    let lhs = SciValue::wrap_with_exponent(200u8, 0i8);
    let rhs = SciValue::wrap_with_exponent(56u8, 0i8);
    assert_eq!(lhs.checked_add(rhs), Err(SciError::Overflow));
    let fits = SciValue::wrap_with_exponent(55u8, 0i8);
    assert_eq!(lhs.checked_add(fits), Ok(SciValue::wrap_with_exponent(255u8, 0i8)));
}

#[test]
fn checked_add_passes_on_a_failed_alignment() {
    let lhs = SciValue::wrap_with_exponent(1i16, 0i8);
    let rhs = SciValue::wrap_with_exponent(1i16, 5i8);
    assert_eq!(lhs.checked_add(rhs), Err(SciError::ScaleTooLarge));
    let near = SciValue::wrap_with_exponent(4i16, 4i8);
    assert_eq!(lhs.checked_add(near), Err(SciError::Overflow));
}

#[test]
fn checked_sub_gives_the_difference() {
    let lhs = SciValue::wrap_with_exponent(-2i64, 2i8);
    let rhs = SciValue::wrap_with_exponent(1i64, 1i8);
    assert_eq!(lhs.checked_sub(rhs), Ok(SciValue::wrap_with_exponent(-21i64, 1i8)));
    assert_eq!(rhs.checked_sub(lhs), Ok(SciValue::wrap_with_exponent(21i64, 1i8)));
}

#[test]
fn checked_sub_reports_a_negative_unsigned_difference() {
    let lhs = SciValue::wrap_with_exponent(2usize, 0isize);
    let rhs = SciValue::wrap_with_exponent(5usize, 0isize);
    assert_eq!(lhs.checked_sub(rhs), Err(SciError::Overflow));
    assert_eq!(rhs.checked_sub(lhs), Ok(SciValue::wrap_with_exponent(3usize, 0isize)));
}

#[test]
fn checked_mul_multiplies_bases_and_adds_exponents() {
    let lhs = SciValue::wrap_with_exponent(-7i32, -4i16);
    let rhs = SciValue::wrap_with_exponent(30i32, 9i16);
    assert_eq!(lhs.checked_mul(rhs), Ok(SciValue::wrap_with_exponent(-210i32, 5i16)));
}

#[test]
fn checked_mul_reports_overflow_of_the_base() {
    let lhs = SciValue::wrap_with_exponent(16u8, 0i8);
    assert_eq!(lhs.checked_mul(lhs), Err(SciError::Overflow));
    let rhs = SciValue::wrap_with_exponent(15u8, 0i8);
    assert_eq!(lhs.checked_mul(rhs), Ok(SciValue::wrap_with_exponent(240u8, 0i8)));
}

#[test]
fn checked_mul_reports_overflow_of_the_exponent() {
    let lhs = SciValue::wrap_with_exponent(2u8, 100i8);
    let rhs = SciValue::wrap_with_exponent(3u8, 28i8);
    assert_eq!(lhs.checked_mul(rhs), Err(SciError::ExponentOverflow));
    let fits = SciValue::wrap_with_exponent(3u8, 27i8);
    assert_eq!(lhs.checked_mul(fits), Ok(SciValue::wrap_with_exponent(6u8, 127i8)));
}

#[test]
fn checked_mul_reports_the_base_before_the_exponent() {
    let lhs = SciValue::wrap_with_exponent(100u8, 100i8);
    assert_eq!(lhs.checked_mul(lhs), Err(SciError::Overflow));
}

#[test]
fn checked_div_of_an_exact_quotient_appends_nothing() {
    let lhs = SciValue::wrap_with_exponent(10i32, 1i32);
    let rhs = SciValue::wrap_with_exponent(2i32, 3i32);
    assert_eq!(lhs.checked_div(rhs), Ok(SciValue::wrap_with_exponent(5i32, -2i32)));
}

#[test]
fn checked_div_appends_digits_until_the_quotient_is_exact() {
    let lhs = SciValue::wrap_with_exponent(7u8, 0i8);
    let rhs = SciValue::wrap_with_exponent(2u8, 0i8);
    assert_eq!(lhs.checked_div(rhs), Ok(SciValue::wrap_with_exponent(35u8, -1i8)));
    let eighth = SciValue::wrap_with_exponent(8u16, 0i8);
    let one = SciValue::wrap_with_exponent(1u16, 0i8);
    assert_eq!(one.checked_div(eighth), Ok(SciValue::wrap_with_exponent(125u16, -3i8)));
}

#[test]
fn checked_div_stops_appending_at_a_tenth_of_the_greatest_base() {
    let one = SciValue::wrap_with_exponent(1u8, 0i8);
    let three = SciValue::wrap_with_exponent(3u8, 0i8);
    assert_eq!(one.checked_div(three), Ok(SciValue::wrap_with_exponent(33u8, -2i8)));
    let one = SciValue::wrap_with_exponent(1i32, 0i8);
    let three = SciValue::wrap_with_exponent(3i32, 0i8);
    assert_eq!(
        one.checked_div(three),
        Ok(SciValue::wrap_with_exponent(333_333_333i32, -9i8))
    );
}

#[test]
fn checked_div_leaves_a_dividend_at_the_limit_alone() {
    let lhs = SciValue::wrap_with_exponent(25u8, 0i8);
    let rhs = SciValue::wrap_with_exponent(2u8, 0i8);
    assert_eq!(lhs.checked_div(rhs), Ok(SciValue::wrap_with_exponent(12u8, 0i8)));
    let below = SciValue::wrap_with_exponent(24u8, 0i8);
    let seven = SciValue::wrap_with_exponent(7u8, 0i8);
    assert_eq!(below.checked_div(seven), Ok(SciValue::wrap_with_exponent(34u8, -1i8)));
}

#[test]
fn checked_div_rounds_toward_zero_for_a_negative_divisor() {
    let lhs = SciValue::wrap_with_exponent(10i32, 0i8);
    let rhs = SciValue::wrap_with_exponent(-4i32, 0i8);
    assert_eq!(lhs.checked_div(rhs), Ok(SciValue::wrap_with_exponent(-25i32, -1i8)));
    let one = SciValue::wrap_with_exponent(1i8, 0i8);
    let three = SciValue::wrap_with_exponent(-3i8, 0i8);
    assert_eq!(one.checked_div(three), Ok(SciValue::wrap_with_exponent(-33i8, -2i8)));
}

#[test]
fn checked_div_of_a_negative_dividend() {
    let lhs = SciValue::wrap_with_exponent(-10i32, 0i8);
    let rhs = SciValue::wrap_with_exponent(4i32, 0i8);
    assert_eq!(lhs.checked_div(rhs), Ok(SciValue::wrap_with_exponent(-25i32, -1i8)));
    let neg = SciValue::wrap_with_exponent(-4i32, 2i8);
    assert_eq!(lhs.checked_div(neg), Ok(SciValue::wrap_with_exponent(25i32, -3i8)));
}

#[test]
fn checked_div_of_zero_is_zero() {
    let zero = SciValue::wrap_with_exponent(0u32, 4i8);
    let rhs = SciValue::wrap_with_exponent(7u32, 1i8);
    assert_eq!(zero.checked_div(rhs), Ok(SciValue::wrap_with_exponent(0u32, 3i8)));
}

#[test]
fn checked_div_reports_a_zero_divisor() {
    let lhs = SciValue::wrap_with_exponent(1i32, 0i8);
    let zero = SciValue::wrap_with_exponent(0i32, 5i8);
    assert_eq!(lhs.checked_div(zero), Err(SciError::DivisionByZero));
    let nothing = SciValue::wrap_with_exponent(0i32, 0i8);
    assert_eq!(nothing.checked_div(zero), Err(SciError::DivisionByZero));
}

#[test]
fn checked_div_reports_a_negative_dividend_that_runs_out_of_room() {
    let lhs = SciValue::wrap_with_exponent(-1i32, 0i8);
    let rhs = SciValue::wrap_with_exponent(3i32, 0i8);
    assert_eq!(lhs.checked_div(rhs), Err(SciError::Overflow));
}

#[test]
fn checked_div_reports_the_least_value_divided_by_minus_one() {
    let lhs = SciValue::wrap_with_exponent(i32::MIN, 0i8);
    let rhs = SciValue::wrap_with_exponent(-1i32, 0i8);
    assert_eq!(lhs.checked_div(rhs), Err(SciError::Overflow));
    let one = SciValue::wrap_with_exponent(1i32, 0i8);
    assert_eq!(lhs.checked_div(one), Ok(lhs));
}

#[test]
fn checked_div_reports_overflow_of_the_exponent() {
    let lhs = SciValue::wrap_with_exponent(1u8, -128i8);
    let rhs = SciValue::wrap_with_exponent(2u8, 0i8);
    assert_eq!(lhs.checked_div(rhs), Err(SciError::ExponentOverflow));
    let exact = SciValue::wrap_with_exponent(10u8, -128i8);
    let coarse = SciValue::wrap_with_exponent(2u8, 1i8);
    assert_eq!(exact.checked_div(coarse), Err(SciError::ExponentOverflow));
    assert_eq!(exact.checked_div(rhs), Ok(SciValue::wrap_with_exponent(5u8, -128i8)));
}

#[test]
fn operators_agree_with_the_checked_methods() {
    let x = SciValue::wrap_with_exponent(-12i64, 3i32);
    let y = SciValue::wrap_with_exponent(5i64, 1i32);
    assert_eq!(Ok(x + y), x.checked_add(y));
    assert_eq!(Ok(x - y), x.checked_sub(y));
    assert_eq!(Ok(x * y), x.checked_mul(y));
    assert_eq!(Ok(x / y), x.checked_div(y));
    assert_eq!(x + y, SciValue::wrap_with_exponent(-1195i64, 1i32));
    assert_eq!(x - y, SciValue::wrap_with_exponent(-1205i64, 1i32));
    assert_eq!(x * y, SciValue::wrap_with_exponent(-60i64, 4i32));
    assert_eq!(x / y, SciValue::wrap_with_exponent(-24i64, 1i32));
}

#[test]
fn pow_multiplies_the_base_up_and_the_exponent_by_the_power() {
    let x = SciValue::wrap_with_exponent(-3i32, -2i32);
    assert_eq!(x.pow(3), Ok(SciValue::wrap_with_exponent(-27i32, -6i32)));
    assert_eq!(x.pow(4), Ok(SciValue::wrap_with_exponent(81i32, -8i32)));
}

#[test]
fn pow_one_is_the_value_itself() {
    let x = SciValue::wrap_with_exponent(250u8, -7i8);
    assert_eq!(x.pow(1), Ok(x));
}

#[test]
fn pow_zero_is_one() {
    let x = SciValue::wrap_with_exponent(250u8, -7i8);
    assert_eq!(x.pow(0), Ok(SciValue::wrap(1u8)));
    let zero = SciValue::wrap_with_exponent(0i64, 3i8);
    assert_eq!(zero.pow(0), Ok(SciValue::wrap(1i64)));
    assert_eq!(zero.pow(5), Ok(SciValue::wrap_with_exponent(0i64, 15i8)));
}

#[test]
fn pow_rejects_a_negative_power() {
    let x = SciValue::wrap_with_exponent(2i32, 1i32);
    assert_eq!(x.pow(-1), Err(SciError::NegativePower));
    assert_eq!(x.pow(i32::MIN), Err(SciError::NegativePower));
}

#[test]
fn pow_reports_overflow_of_the_base() {
    let two = SciValue::wrap_with_exponent(2u8, 0i8);
    assert_eq!(two.pow(7), Ok(SciValue::wrap(128u8)));
    assert_eq!(two.pow(8), Err(SciError::Overflow));
    let minus_two = SciValue::wrap_with_exponent(-2i8, 0i8);
    assert_eq!(minus_two.pow(7), Ok(SciValue::wrap(-128i8)));
    assert_eq!(minus_two.pow(6), Ok(SciValue::wrap(64i8)));
    assert_eq!(minus_two.pow(8), Err(SciError::Overflow));
}

#[test]
fn pow_reports_overflow_of_the_exponent() {
    let x = SciValue::wrap_with_exponent(1u8, 64i8);
    assert_eq!(x.pow(2), Err(SciError::ExponentOverflow));
    let y = SciValue::wrap_with_exponent(1u8, -64i8);
    assert_eq!(y.pow(2), Ok(SciValue::wrap_with_exponent(1u8, -128i8)));
}

#[test]
fn pow_reports_the_base_before_the_exponent() {
    let x = SciValue::wrap_with_exponent(16u8, 64i8);
    assert_eq!(x.pow(2), Err(SciError::Overflow));
}
