//! Bringing two values to a common exponent.

use crate::error::SciError;
use crate::integral::{Integral, SignedIntegral};
use crate::model::{aligned, pow10, rescaled, SciNum};
use crate::value::SciValue;
use vstd::arithmetic::power::{
    lemma_pow0, lemma_pow1, lemma_pow_adds, lemma_pow_increases, lemma_pow_positive,
};
use vstd::prelude::*;

verus! {

/// What an alignment returned, with both values seen as numbers.
pub open spec fn pair_viewed<B: Integral, E: SignedIntegral>(
    r: Result<(SciValue<B, E>, SciValue<B, E>), SciError>,
) -> Result<(SciNum, SciNum), SciError> {
    match r {
        Ok((a, b)) => Ok((a@, b@)),
        Err(e) => Err(e),
    }
}

/// Aligns two values of which the right one has the exponent that is not the
/// smaller: the left value is returned as it is, the right one is rewritten
/// with the left one's exponent, its base multiplied by the power of ten
/// between the two.
///
/// Fails with [`SciError::ScaleTooLarge`] when that power of ten is beyond the
/// base type, and with [`SciError::Overflow`] when the multiplied base is.
pub fn match_exponents_rhs_greater<B: Integral, E: SignedIntegral>(
    lhs: SciValue<B, E>,
    rhs: SciValue<B, E>,
) -> (r: Result<(SciValue<B, E>, SciValue<B, E>), SciError>)
    requires
        lhs@.exponent <= rhs@.exponent,
    ensures
        pair_viewed(r) == match rescaled(rhs@, lhs@.exponent, SciValue::<B, E>::limits()) {
            Ok(moved) => Ok((lhs@, moved)),
            Err(e) => Err(e),
        },
{
    let ten = B::from_digit(10);
    let one = E::from_digit(1);
    let target = lhs.exponent();
    let top = rhs.exponent();
    let ghost gap = (top.as_int() - target.as_int()) as nat;
    let mut scale = B::from_digit(1);
    let mut at = target;
    proof {
        lemma_pow0(10);
    }
    while at.less_than(top)
        invariant
            ten.as_int() == 10,
            one.as_int() == 1,
            target.as_int() == lhs@.exponent,
            top.as_int() == rhs@.exponent,
            target.as_int() <= at.as_int() <= top.as_int(),
            gap == top.as_int() - target.as_int(),
            scale.as_int() == pow10((at.as_int() - target.as_int()) as nat),
        decreases top.as_int() - at.as_int(),
    {
        let ghost done = (at.as_int() - target.as_int()) as nat;
        proof {
            lemma_pow_adds(10, done, 1);
            lemma_pow1(10);
            lemma_pow_increases(10, done + 1, gap);
            lemma_pow_positive(10, done);
            B::lemma_limits();
            at.lemma_in_range();
            top.lemma_in_range();
        }
        match scale.checked_mul(ten) {
            Some(wider) => {
                scale = wider;
                at = at.checked_add(one).unwrap();
            },
            None => {
                return Err(SciError::ScaleTooLarge);
            },
        }
    }
    proof {
        scale.lemma_in_range();
    }
    match rhs.base().checked_mul(scale) {
        Some(base) => {
            Ok((lhs, SciValue::wrap_with_exponent(base, target)))
        },
        None => Err(SciError::Overflow),
    }
}

/// Rewrites two values so that both carry the smaller of their exponents and
/// each still stands for the same number. The value with the smaller exponent
/// is returned as it is; the other has its base multiplied by a power of ten,
/// so no digit is lost. Values with equal exponents come back unchanged.
///
/// Fails as [`match_exponents_rhs_greater`] does.
pub fn match_exponents<B: Integral, E: SignedIntegral>(
    lhs: SciValue<B, E>,
    rhs: SciValue<B, E>,
) -> (r: Result<(SciValue<B, E>, SciValue<B, E>), SciError>)
    ensures
        pair_viewed(r) == aligned(lhs@, rhs@, SciValue::<B, E>::limits()),
{
    if lhs.exponent().equals(rhs.exponent()) {
        Ok((lhs, rhs))
    } else if rhs.exponent().less_than(lhs.exponent()) {
        match match_exponents_rhs_greater(rhs, lhs) {
            Ok((new_rhs, new_lhs)) => Ok((new_lhs, new_rhs)),
            Err(e) => Err(e),
        }
    } else {
        match_exponents_rhs_greater(lhs, rhs)
    }
}

} // verus!
