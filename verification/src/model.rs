//! The mathematics of scientific values: unbounded pairs of integers, and what
//! each operation yields within given limits.

use crate::error::SciError;
use crate::integral::trunc_div;
use vstd::arithmetic::power::pow;
use vstd::prelude::*;

verus! {

/// The number `base * 10^exponent`.
pub struct SciNum {
    pub base: int,
    pub exponent: int,
}

/// The ranges that a pair of machine types gives to base and exponent.
pub struct Limits {
    pub base_min: int,
    pub base_max: int,
    pub exp_min: int,
    pub exp_max: int,
}

impl Limits {
    /// The base range holds `0..=10`, the exponent range `-1..=10`.
    pub open spec fn wf(self) -> bool {
        &&& self.base_min <= 0
        &&& self.base_max >= 10
        &&& self.exp_min < 0
        &&& self.exp_max >= 10
    }

    /// Whether `v` can be a base.
    pub open spec fn base_fits(self, v: int) -> bool {
        self.base_min <= v <= self.base_max
    }

    /// Whether `v` can be an exponent.
    pub open spec fn exp_fits(self, v: int) -> bool {
        self.exp_min <= v <= self.exp_max
    }

    /// Whether both parts of `x` are within range.
    pub open spec fn holds(self, x: SciNum) -> bool {
        self.base_fits(x.base) && self.exp_fits(x.exponent)
    }
}

/// The magnitude of an integer.
pub open spec fn magnitude(v: int) -> int {
    if v >= 0 {
        v
    } else {
        -v
    }
}

/// Ten to the power `k`.
pub open spec fn pow10(k: nat) -> int {
    pow(10, k)
}

/// How many units of `10^floor` the number `x` amounts to.
pub open spec fn units_at(x: SciNum, floor: int) -> int
    recommends
        floor <= x.exponent,
{
    x.base * pow10((x.exponent - floor) as nat)
}

/// A base is canonical when it is zero or does not end in a zero digit.
pub open spec fn is_canonical(x: SciNum) -> bool {
    x.base == 0 || x.base % 10 != 0
}

/// `x` written with the lower exponent `target`: the base takes up the powers
/// of ten that the exponent gives away.
pub open spec fn rescaled(x: SciNum, target: int, lim: Limits) -> Result<SciNum, SciError>
    recommends
        target <= x.exponent,
{
    let scale = pow10((x.exponent - target) as nat);
    if scale > lim.base_max {
        Err(SciError::ScaleTooLarge)
    } else if !lim.base_fits(x.base * scale) {
        Err(SciError::Overflow)
    } else {
        Ok(SciNum { base: x.base * scale, exponent: target })
    }
}

/// Both numbers written with the smaller of their two exponents. The one
/// that already has it stays as it is.
pub open spec fn aligned(l: SciNum, r: SciNum, lim: Limits) -> Result<(SciNum, SciNum), SciError> {
    if l.exponent == r.exponent {
        Ok((l, r))
    } else if l.exponent < r.exponent {
        match rescaled(r, l.exponent, lim) {
            Ok(r2) => Ok((l, r2)),
            Err(e) => Err(e),
        }
    } else {
        match rescaled(l, r.exponent, lim) {
            Ok(l2) => Ok((l2, r)),
            Err(e) => Err(e),
        }
    }
}

/// The sum of two numbers, at the smaller of their exponents.
pub open spec fn sum(l: SciNum, r: SciNum, lim: Limits) -> Result<SciNum, SciError> {
    match aligned(l, r, lim) {
        Ok((a, b)) => if lim.base_fits(a.base + b.base) {
            Ok(SciNum { base: a.base + b.base, exponent: a.exponent })
        } else {
            Err(SciError::Overflow)
        },
        Err(e) => Err(e),
    }
}

/// The difference of two numbers, at the smaller of their exponents.
pub open spec fn difference(l: SciNum, r: SciNum, lim: Limits) -> Result<SciNum, SciError> {
    match aligned(l, r, lim) {
        Ok((a, b)) => if lim.base_fits(a.base - b.base) {
            Ok(SciNum { base: a.base - b.base, exponent: a.exponent })
        } else {
            Err(SciError::Overflow)
        },
        Err(e) => Err(e),
    }
}

/// The product: bases multiply, exponents add.
pub open spec fn product(l: SciNum, r: SciNum, lim: Limits) -> Result<SciNum, SciError> {
    if !lim.base_fits(l.base * r.base) {
        Err(SciError::Overflow)
    } else if !lim.exp_fits(l.exponent + r.exponent) {
        Err(SciError::ExponentOverflow)
    } else {
        Ok(SciNum { base: l.base * r.base, exponent: l.exponent + r.exponent })
    }
}

/// Whether a dividend `a` is ready to be divided by `d`: the division is
/// exact, or `a` has no room left for another digit.
pub open spec fn dividend_ready(a: int, d: int, lim: Limits) -> bool {
    a % d == 0 || a >= lim.base_max / 10
}

/// The dividend `x` with as many zero digits appended as it takes to make it
/// ready for the divisor `d`, each digit paid for with one step of exponent.
pub open spec fn widened(x: SciNum, d: int, lim: Limits) -> Result<SciNum, SciError>
    recommends
        d != 0,
    decreases
            (if x.base > 0 {
                lim.base_max - x.base
            } else {
                x.base - lim.base_min
            }),
    when d != 0
    via widened_terminates
{
    if dividend_ready(x.base, d, lim) {
        Ok(x)
    } else if !lim.base_fits(10 * x.base) {
        Err(SciError::Overflow)
    } else if !lim.exp_fits(x.exponent - 1) {
        Err(SciError::ExponentOverflow)
    } else {
        widened(SciNum { base: 10 * x.base, exponent: x.exponent - 1 }, d, lim)
    }
}

#[via_fn]
proof fn widened_terminates(x: SciNum, d: int, lim: Limits) {
    assert(0int % d == 0) by (nonlinear_arith)
        requires
            d != 0,
    ;
}

/// The quotient: the widened dividend's base divided by the divisor's base,
/// rounded toward zero, at the difference of the exponents.
pub open spec fn quotient(l: SciNum, r: SciNum, lim: Limits) -> Result<SciNum, SciError> {
    if r.base == 0 {
        Err(SciError::DivisionByZero)
    } else {
        match widened(l, r.base, lim) {
            Ok(w) => if !lim.base_fits(trunc_div(w.base, r.base)) {
                Err(SciError::Overflow)
            } else if !lim.exp_fits(w.exponent - r.exponent) {
                Err(SciError::ExponentOverflow)
            } else {
                Ok(SciNum { base: trunc_div(w.base, r.base), exponent: w.exponent - r.exponent })
            },
            Err(e) => Err(e),
        }
    }
}

/// Whether every power of `b` from the zeroth to the `n`th is a base.
pub open spec fn powers_fit(b: int, n: nat, lim: Limits) -> bool {
    forall|j: nat| j <= n ==> lim.base_fits(#[trigger] pow(b, j))
}

/// `x` raised to the power `n`: the base is multiplied up `n` times starting
/// from one, the exponent is multiplied by `n`.
pub open spec fn power(x: SciNum, n: int, lim: Limits) -> Result<SciNum, SciError> {
    if n < 0 {
        Err(SciError::NegativePower)
    } else if !powers_fit(x.base, n as nat, lim) {
        Err(SciError::Overflow)
    } else if !lim.exp_fits(x.exponent * n) {
        Err(SciError::ExponentOverflow)
    } else {
        Ok(SciNum { base: pow(x.base, n as nat), exponent: x.exponent * n })
    }
}

/// `x` in canonical form: trailing zero digits leave the base and are counted
/// into the exponent.
pub open spec fn reduced(x: SciNum, lim: Limits) -> Result<SciNum, SciError>
    decreases magnitude(x.base),
{
    if is_canonical(x) {
        Ok(x)
    } else if !lim.exp_fits(x.exponent + 1) {
        Err(SciError::ExponentOverflow)
    } else {
        reduced(SciNum { base: x.base / 10, exponent: x.exponent + 1 }, lim)
    }
}

} // verus!
