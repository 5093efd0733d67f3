use scivalue::{match_exponents, match_exponents_rhs_greater, SciError, SciValue};

#[test]
fn aligned_pair_shares_the_smaller_exponent() {
    let fine = SciValue::wrap_with_exponent(7i64, -3i32);
    let coarse = SciValue::wrap_with_exponent(-4i64, 2i32);
    let (a, b) = match_exponents(fine, coarse).unwrap();
    assert_eq!(a, fine);
    assert_eq!(b, SciValue::wrap_with_exponent(-400_000i64, -3i32));
    assert_eq!(a.exponent(), b.exponent());
}

#[test]
fn alignment_swaps_with_its_arguments() {
    let x = SciValue::wrap_with_exponent(12u32, 1i16);
    let y = SciValue::wrap_with_exponent(3u32, 6i16);
    let (a, b) = match_exponents(x, y).unwrap();
    let (c, d) = match_exponents(y, x).unwrap();
    assert_eq!((a, b), (d, c));
    assert_eq!(b, SciValue::wrap_with_exponent(300_000u32, 1i16));
}

#[test]
fn alignment_of_equal_exponents_changes_nothing() {
    let x = SciValue::wrap_with_exponent(120u8, -7i8);
    let y = SciValue::wrap_with_exponent(0u8, -7i8);
    assert_eq!(match_exponents(x, y), Ok((x, y)));
    assert_eq!(match_exponents(x, x), Ok((x, x)));
}

#[test]
fn rhs_greater_moves_only_the_right_value() {
    let lhs = SciValue::wrap_with_exponent(9i32, 0i32);
    let rhs = SciValue::wrap_with_exponent(-2i32, 3i32);
    assert_eq!(
        match_exponents_rhs_greater(lhs, rhs),
        Ok((lhs, SciValue::wrap_with_exponent(-2000i32, 0i32)))
    );
    assert_eq!(match_exponents_rhs_greater(lhs, lhs), Ok((lhs, lhs)));
}

#[test]
fn alignment_reports_a_scale_beyond_the_base_type() {
    let lhs = SciValue::wrap_with_exponent(5u8, 0i8);
    let rhs = SciValue::wrap_with_exponent(1u8, 3i8);
    assert_eq!(match_exponents(lhs, rhs), Err(SciError::ScaleTooLarge));
    assert_eq!(match_exponents(rhs, lhs), Err(SciError::ScaleTooLarge));
}

#[test]
fn alignment_reports_a_scale_beyond_the_base_type_for_a_zero_base() {
    let lhs = SciValue::wrap_with_exponent(5i32, -100i8);
    let rhs = SciValue::wrap_with_exponent(0i32, 100i8);
    assert_eq!(match_exponents(lhs, rhs), Err(SciError::ScaleTooLarge));
}

#[test]
fn alignment_reports_a_base_beyond_its_type() {
    let lhs = SciValue::wrap_with_exponent(5u8, 0i8);
    let rhs = SciValue::wrap_with_exponent(26u8, 1i8);
    assert_eq!(match_exponents(lhs, rhs), Err(SciError::Overflow));
    let fits = SciValue::wrap_with_exponent(25u8, 1i8);
    assert_eq!(
        match_exponents(lhs, fits),
        Ok((lhs, SciValue::wrap_with_exponent(250u8, 0i8)))
    );
}

#[test]
fn alignment_reaches_the_least_value_of_a_signed_base() {
    let lhs = SciValue::wrap_with_exponent(0i8, 0i8);
    let rhs = SciValue::wrap_with_exponent(-12i8, 1i8);
    assert_eq!(
        match_exponents(lhs, rhs),
        Ok((lhs, SciValue::wrap_with_exponent(-120i8, 0i8)))
    );
    let below = SciValue::wrap_with_exponent(-13i8, 1i8);
    assert_eq!(match_exponents(lhs, below), Err(SciError::Overflow));
}

#[test]
fn alignment_spans_the_whole_exponent_range() {
    let lhs = SciValue::wrap_with_exponent(1u128, -19i8);
    let rhs = SciValue::wrap_with_exponent(3u128, 19i8);
    let scaled = 3u128 * 10u128.pow(38);
    assert_eq!(
        match_exponents(lhs, rhs),
        Ok((lhs, SciValue::wrap_with_exponent(scaled, -19i8)))
    );
    let wider = SciValue::wrap_with_exponent(4u128, 19i8);
    assert_eq!(match_exponents(lhs, wider), Err(SciError::Overflow));
    let far = SciValue::wrap_with_exponent(1u128, 20i8);
    assert_eq!(match_exponents(lhs, far), Err(SciError::ScaleTooLarge));
}

#[test]
fn alignment_with_exponents_further_apart_than_their_type_spans() {
    let lhs = SciValue::wrap_with_exponent(1u128, -128i8);
    let rhs = SciValue::wrap_with_exponent(1u128, 127i8);
    assert_eq!(match_exponents(lhs, rhs), Err(SciError::ScaleTooLarge));
}
