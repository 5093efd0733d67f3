//! Facts about the mathematics of scientific values, for any limits.

use crate::error::SciError;
use crate::model::{
    dividend_ready, is_canonical, magnitude, pow10, powers_fit, reduced, rescaled, units_at,
    widened, Limits, SciNum,
};
use vstd::arithmetic::power::{
    lemma0_pow, lemma1_pow, lemma_pow0, lemma_pow1, lemma_pow_adds, lemma_pow_positive, pow,
};
use vstd::prelude::*;

verus! {

/// One more power of ten is ten times as much.
pub proof fn lemma_pow10_step(k: nat)
    ensures
        pow10(0) == 1,
        pow10(k + 1) == 10 * pow10(k),
        pow10(k) >= 1,
{
    lemma_pow0(10);
    lemma_pow1(10);
    lemma_pow_adds(10, k, 1);
    lemma_pow_positive(10, k);
}

/// Counted in its own unit, a number amounts to its base.
pub proof fn lemma_units_at_own_exponent(x: SciNum)
    ensures
        units_at(x, x.exponent) == x.base,
        x.base * pow10(0) == x.base,
{
    lemma_pow0(10);
}

/// Counting a number in finer units multiplies the count by the power of ten
/// between the two units.
pub proof fn lemma_units_at_finer(x: SciNum, floor: int, finer: int)
    requires
        finer <= floor <= x.exponent,
    ensures
        units_at(x, finer) == units_at(x, floor) * pow10((floor - finer) as nat),
{
    let a = (x.exponent - floor) as nat;
    let b = (floor - finer) as nat;
    lemma_pow_adds(10, a, b);
    assert(x.base * (pow10(a) * pow10(b)) == (x.base * pow10(a)) * pow10(b))
        by (nonlinear_arith);
}

/// A rescaled number stands for the same number: counted in any unit that is
/// fine enough, it amounts to as much as before.
pub proof fn lemma_rescaled_same_number(x: SciNum, target: int, lim: Limits, floor: int)
    requires
        floor <= target <= x.exponent,
        rescaled(x, target, lim) is Ok,
    ensures
        rescaled(x, target, lim).unwrap().exponent == target,
        rescaled(x, target, lim).unwrap().base == units_at(x, target),
        units_at(rescaled(x, target, lim).unwrap(), floor) == units_at(x, floor),
{
    lemma_units_at_finer(x, target, floor);
}

/// What the canonical form of `x` is: it has no trailing zero, its exponent is
/// not below that of `x`, and its base multiplied by the power of ten between
/// the two exponents is the base of `x`. Zero is its own canonical form.
/// When there is none, the base is not zero and the exponent ran out.
pub proof fn lemma_reduced_is_same_number(x: SciNum, lim: Limits)
    ensures
        match reduced(x, lim) {
            Ok(r) => {
                &&& is_canonical(r)
                &&& r.exponent >= x.exponent
                &&& units_at(r, x.exponent) == x.base
                &&& (x.base == 0 ==> r == x)
                &&& (r.exponent > x.exponent ==> lim.exp_fits(r.exponent))
            },
            Err(e) => e == SciError::ExponentOverflow && x.base != 0 && x.base % 10 == 0,
        },
    decreases magnitude(x.base),
{
    lemma_units_at_own_exponent(x);
    if !is_canonical(x) && lim.exp_fits(x.exponent + 1) {
        let next = SciNum { base: x.base / 10, exponent: x.exponent + 1 };
        lemma_reduced_is_same_number(next, lim);
        if let Ok(r) = reduced(next, lim) {
            let k = (r.exponent - next.exponent) as nat;
            lemma_pow10_step(k);
            assert(r.base * (10 * pow10(k)) == 10 * (r.base * pow10(k))) by (nonlinear_arith);
        }
    }
}

/// What widening a dividend does: it appends the least number of zero digits
/// that makes the dividend ready, and lowers the exponent by that number.
/// Widening fails on overflow of the base only for a negative dividend.
pub proof fn lemma_widened_is_least(x: SciNum, d: int, lim: Limits)
    requires
        d != 0,
        lim.wf(),
        lim.base_fits(x.base),
    ensures
        match widened(x, d, lim) {
            Ok(w) => {
                &&& w.exponent <= x.exponent
                &&& w.base == units_at(x, w.exponent)
                &&& lim.base_fits(w.base)
                &&& dividend_ready(w.base, d, lim)
                &&& forall|j: nat|
                    j < x.exponent - w.exponent ==> !dividend_ready(
                        x.base * #[trigger] pow10(j),
                        d,
                        lim,
                    )
            },
            Err(e) => e == SciError::ExponentOverflow || (e == SciError::Overflow && x.base < 0),
        },
    decreases
            (if x.base > 0 {
                lim.base_max - x.base
            } else {
                x.base - lim.base_min
            }),
{
    lemma_units_at_own_exponent(x);
    if !dividend_ready(x.base, d, lim) {
        assert(x.base != 0) by {
            assert(0int % d == 0) by (nonlinear_arith)
                requires
                    d != 0,
            ;
        }
        if lim.base_fits(10 * x.base) && lim.exp_fits(x.exponent - 1) {
            let next = SciNum { base: 10 * x.base, exponent: x.exponent - 1 };
            lemma_widened_is_least(next, d, lim);
            if let Ok(w) = widened(next, d, lim) {
                let k = (next.exponent - w.exponent) as nat;
                lemma_pow10_step(k);
                assert((10 * x.base) * pow10(k) == x.base * (10 * pow10(k))) by (nonlinear_arith);
                assert forall|j: nat| j < x.exponent - w.exponent implies !dividend_ready(
                    x.base * #[trigger] pow10(j),
                    d,
                    lim,
                ) by {
                    if j > 0 {
                        let i = (j - 1) as nat;
                        lemma_pow10_step(i);
                        assert((10 * x.base) * pow10(i) == x.base * (10 * pow10(i)))
                            by (nonlinear_arith);
                    }
                }
            }
        }
    }
}

/// The magnitude of a power is the power of the magnitude.
pub proof fn lemma_pow_magnitude(b: int, n: nat)
    ensures
        magnitude(pow(b, n)) == pow(magnitude(b), n),
    decreases n,
{
    if n == 0 {
        lemma_pow0(b);
        lemma_pow0(magnitude(b));
    } else {
        let m = (n - 1) as nat;
        lemma_pow_magnitude(b, m);
        lemma_pow_adds(b, m, 1);
        lemma_pow_adds(magnitude(b), m, 1);
        lemma_pow1(b);
        lemma_pow1(magnitude(b));
        let p = pow(b, m);
        assert(magnitude(p * b) == magnitude(p) * magnitude(b)) by (nonlinear_arith);
    }
}

/// A higher power of a number of magnitude two or more has at least twice
/// the magnitude of a lower one.
pub proof fn lemma_pow_magnitude_doubles(b: int, j: nat, n: nat)
    requires
        magnitude(b) >= 2,
        j < n,
    ensures
        1 <= magnitude(pow(b, j)),
        2 * magnitude(pow(b, j)) <= magnitude(pow(b, n)),
{
    let a = magnitude(b);
    let rest = (n - j) as nat;
    let less = (rest - 1) as nat;
    lemma_pow_magnitude(b, j);
    lemma_pow_magnitude(b, n);
    lemma_pow_adds(a, j, rest);
    lemma_pow_adds(a, less, 1);
    lemma_pow1(a);
    lemma_pow_positive(a, j);
    lemma_pow_positive(a, less);
    let low = pow(a, j);
    let tail = pow(a, less);
    assert(low * (tail * a) >= 2 * low) by (nonlinear_arith)
        requires
            low >= 1,
            tail >= 1,
            a >= 2,
    ;
}

/// Within the limits of a machine integer, where the least value is zero or
/// lies one further from zero than the greatest, the powers of a number up to
/// the `n`th all fit exactly when the `n`th fits.
pub proof fn lemma_powers_fit_when_last_fits(b: int, n: nat, lim: Limits)
    requires
        lim.wf(),
        lim.base_min == 0 || lim.base_min == -lim.base_max - 1,
        lim.base_fits(b),
    ensures
        powers_fit(b, n, lim) == lim.base_fits(pow(b, n)),
{
    if lim.base_fits(pow(b, n)) {
        assert forall|j: nat| j <= n implies lim.base_fits(#[trigger] pow(b, j)) by {
            if j < n {
                lemma_pow_magnitude(b, j);
                if magnitude(b) == 0 {
                    lemma_pow0(0);
                    if j > 0 {
                        lemma0_pow(j);
                    }
                } else if magnitude(b) == 1 {
                    lemma1_pow(j);
                } else {
                    lemma_pow_magnitude_doubles(b, j, n);
                }
            }
        }
    }
}

} // verus!
