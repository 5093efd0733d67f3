//! What holds of all scientific values, whatever types they are made of.
//!
//! Each statement is about the numbers that the operations' contracts speak
//! of: `x@` is the pair of integers behind the value `x`, and
//! `SciValue::<B, E>::limits()` are the ranges of its two types.

use crate::error::SciError;
use crate::integral::{Integral, SignedIntegral};
use crate::lemmas::{
    lemma_pow10_step, lemma_powers_fit_when_last_fits, lemma_reduced_is_same_number,
    lemma_rescaled_same_number, lemma_units_at_own_exponent, lemma_widened_is_least,
};
use crate::model::{
    aligned, dividend_ready, is_canonical, magnitude, pow10, power, quotient, reduced, rescaled,
    units_at, widened, SciNum,
};
use crate::value::SciValue;
use vstd::arithmetic::power::pow;
use vstd::prelude::*;

verus! {

/// Aligning a value with itself gives it back twice, unchanged.
pub proof fn lemma_alignment_of_self<B: Integral, E: SignedIntegral>(x: SciValue<B, E>)
    ensures
        aligned(x@, x@, SciValue::<B, E>::limits()) == Ok::<_, SciError>((x@, x@)),
{
}

/// Alignment does not depend on the order of its arguments: swapping them
/// swaps the results, and a failure stays the same failure.
pub proof fn lemma_alignment_is_symmetric<B: Integral, E: SignedIntegral>(
    lhs: SciValue<B, E>,
    rhs: SciValue<B, E>,
)
    ensures
        aligned(rhs@, lhs@, SciValue::<B, E>::limits()) == match aligned(
            lhs@,
            rhs@,
            SciValue::<B, E>::limits(),
        ) {
            Ok((a, b)) => Ok((b, a)),
            Err(e) => Err(e),
        },
{
}

/// Aligned values share the smaller of the two exponents, and each stands for
/// the number it stood for before: counted in units of `10^floor`, for any
/// `floor` not above either exponent, it amounts to the same.
pub proof fn lemma_alignment_keeps_numbers<B: Integral, E: SignedIntegral>(
    lhs: SciValue<B, E>,
    rhs: SciValue<B, E>,
    floor: int,
)
    requires
        floor <= lhs@.exponent,
        floor <= rhs@.exponent,
    ensures
        match aligned(lhs@, rhs@, SciValue::<B, E>::limits()) {
            Ok((a, b)) => {
                &&& a.exponent == b.exponent
                &&& a.exponent == if lhs@.exponent <= rhs@.exponent {
                    lhs@.exponent
                } else {
                    rhs@.exponent
                }
                &&& units_at(a, floor) == units_at(lhs@, floor)
                &&& units_at(b, floor) == units_at(rhs@, floor)
            },
            Err(_) => true,
        },
{
    let lim = SciValue::<B, E>::limits();
    if lhs@.exponent < rhs@.exponent {
        if rescaled(rhs@, lhs@.exponent, lim) is Ok {
            lemma_rescaled_same_number(rhs@, lhs@.exponent, lim, floor);
        }
    } else if rhs@.exponent < lhs@.exponent {
        if rescaled(lhs@, rhs@.exponent, lim) is Ok {
            lemma_rescaled_same_number(lhs@, rhs@.exponent, lim, floor);
        }
    }
}

/// Alignment fails exactly when scaling up would leave the base type: when
/// the power of ten between the exponents is more than the greatest base, or
/// the base of the value with the larger exponent, multiplied by that power,
/// is outside the base range.
pub proof fn lemma_alignment_fails_on_overflow<B: Integral, E: SignedIntegral>(
    lhs: SciValue<B, E>,
    rhs: SciValue<B, E>,
)
    requires
        lhs@.exponent <= rhs@.exponent,
    ensures
        aligned(lhs@, rhs@, SciValue::<B, E>::limits()) is Err <==> {
            ||| pow10((rhs@.exponent - lhs@.exponent) as nat) > B::max_int()
            ||| units_at(rhs@, lhs@.exponent) > B::max_int()
            ||| units_at(rhs@, lhs@.exponent) < B::min_int()
        },
        aligned(rhs@, lhs@, SciValue::<B, E>::limits()) is Err <==> aligned(
            lhs@,
            rhs@,
            SciValue::<B, E>::limits(),
        ) is Err,
{
    rhs.lemma_within_limits();
    lemma_units_at_own_exponent(rhs@);
    lemma_pow10_step(0);
}

/// A value in canonical form is its own canonical form.
pub proof fn lemma_reduce_keeps_canonical<B: Integral, E: SignedIntegral>(x: SciValue<B, E>)
    requires
        is_canonical(x@),
    ensures
        reduced(x@, SciValue::<B, E>::limits()) == Ok::<_, SciError>(x@),
{
}

/// Reducing twice gives what reducing once gives.
pub proof fn lemma_reduce_is_idempotent<B: Integral, E: SignedIntegral>(x: SciValue<B, E>)
    ensures
        match reduced(x@, SciValue::<B, E>::limits()) {
            Ok(r) => is_canonical(r) && reduced(r, SciValue::<B, E>::limits()) == Ok::<
                _,
                SciError,
            >(r),
            Err(_) => true,
        },
{
    lemma_reduced_is_same_number(x@, SciValue::<B, E>::limits());
}

/// The canonical form of `x` stands for the same number: its exponent is not
/// below that of `x`, and its base multiplied by the power of ten between the
/// two exponents is the base of `x`.
pub proof fn lemma_reduce_keeps_number<B: Integral, E: SignedIntegral>(x: SciValue<B, E>)
    ensures
        match reduced(x@, SciValue::<B, E>::limits()) {
            Ok(r) => {
                &&& r.exponent >= x@.exponent
                &&& r.base * pow10((r.exponent - x@.exponent) as nat) == x@.base
                &&& SciValue::<B, E>::limits().holds(r)
            },
            Err(e) => e == SciError::ExponentOverflow,
        },
{
    let lim = SciValue::<B, E>::limits();
    x.lemma_within_limits();
    lemma_reduced_is_same_number(x@, lim);
    if let Ok(r) = reduced(x@, lim) {
        lemma_canonical_base_is_smaller(x@, r);
    }
}

/// Where `r` times a power of ten is `x`, the base of `r` is no further from
/// zero than that of `x`, and on the same side.
proof fn lemma_canonical_base_is_smaller(x: SciNum, r: SciNum)
    requires
        r.exponent >= x.exponent,
        units_at(r, x.exponent) == x.base,
    ensures
        magnitude(r.base) <= magnitude(x.base),
        (x.base >= 0) == (r.base >= 0),
        r.base != 0 ==> pow10((r.exponent - x.exponent) as nat) <= magnitude(x.base),
{
    let k = (r.exponent - x.exponent) as nat;
    lemma_pow10_step(k);
    let scale = pow10(k);
    let b = r.base;
    assert(magnitude(b * scale) >= magnitude(b) && ((b * scale >= 0) == (b >= 0)) && (b != 0
        ==> magnitude(b * scale) >= scale)) by (nonlinear_arith)
        requires
            scale >= 1,
    ;
}

/// Aligning the canonical form of a value with the value itself restores the
/// value: the zeros that reduction moved into the exponent come back into
/// the base. This holds of every value but one whose base is both the least
/// value of a type that has no counterpart above zero and a multiple of ten.
pub proof fn lemma_reduce_then_align_restores<B: Integral, E: SignedIntegral>(x: SciValue<B, E>)
    requires
        x@.base + B::max_int() >= 0 || x@.base % 10 != 0,
    ensures
        match reduced(x@, SciValue::<B, E>::limits()) {
            Ok(r) => aligned(x@, r, SciValue::<B, E>::limits()) == Ok::<_, SciError>((x@, x@)),
            Err(_) => true,
        },
{
    let lim = SciValue::<B, E>::limits();
    x.lemma_within_limits();
    lemma_reduced_is_same_number(x@, lim);
    if let Ok(r) = reduced(x@, lim) {
        lemma_canonical_base_is_smaller(x@, r);
        if r.exponent == x@.exponent {
            lemma_units_at_own_exponent(r);
        } else {
            let k = (r.exponent - x@.exponent - 1) as nat;
        }
    }
}

/// Division never widens a dividend beyond the base type: the dividend that
/// is divided is the given one with the least number of zeros appended
/// that makes it ready, it lies within the base range, and where appending
/// one more zero would leave the range, the division fails. A dividend that
/// is not negative never fails in this way.
pub proof fn lemma_division_widens_within_limits<B: Integral, E: SignedIntegral>(
    lhs: SciValue<B, E>,
    rhs: SciValue<B, E>,
)
    requires
        rhs@.base != 0,
    ensures
        match widened(lhs@, rhs@.base, SciValue::<B, E>::limits()) {
            Ok(w) => {
                &&& w.exponent <= lhs@.exponent
                &&& w.base == lhs@.base * pow10((lhs@.exponent - w.exponent) as nat)
                &&& B::min_int() <= w.base <= B::max_int()
                &&& dividend_ready(w.base, rhs@.base, SciValue::<B, E>::limits())
                &&& forall|j: nat|
                    j < lhs@.exponent - w.exponent ==> !dividend_ready(
                        lhs@.base * #[trigger] pow10(j),
                        rhs@.base,
                        SciValue::<B, E>::limits(),
                    )
            },
            Err(e) => quotient(lhs@, rhs@, SciValue::<B, E>::limits()) == Err::<SciNum, _>(e) && (e
                == SciError::ExponentOverflow || (e == SciError::Overflow && lhs@.base < 0)),
        },
{
    lhs.lemma_within_limits();
    lemma_widened_is_least(lhs@, rhs@.base, SciValue::<B, E>::limits());
}

/// Where the base type is a machine integer, whose least value is zero or
/// lies one further from zero than its greatest, raising to a power fails on
/// the base exactly when the power itself is beyond the type.
pub proof fn lemma_power_overflows_when_result_does<B: Integral, E: SignedIntegral>(
    x: SciValue<B, E>,
    n: E,
)
    requires
        B::min_int() == 0 || B::min_int() == -B::max_int() - 1,
        n.as_int() >= 0,
    ensures
        power(x@, n.as_int(), SciValue::<B, E>::limits()) == Err::<SciNum, _>(SciError::Overflow)
            <==> !(B::min_int() <= pow(x@.base, n.as_int() as nat) <= B::max_int()),
{
    x.lemma_within_limits();
    lemma_powers_fit_when_last_fits(x@.base, n.as_int() as nat, SciValue::<B, E>::limits());
}

} // verus!
