//! Arithmetic on scientific values, with every failure reported.

use crate::align::match_exponents;
use crate::error::SciError;
use crate::integral::{lemma_trunc_rem_zero, Integral, SignedIntegral};
use crate::model::{difference, power, powers_fit, product, quotient, sum, widened, SciNum};
use crate::value::{viewed, SciValue};
use vstd::arithmetic::power::{lemma_pow0, lemma_pow1, lemma_pow_adds, pow};
use vstd::prelude::*;

verus! {

impl<B: Integral, E: SignedIntegral> SciValue<B, E> {
    /// The sum of two values, exact, at the smaller of their exponents.
    ///
    /// Fails as [`match_exponents`] does, and with [`SciError::Overflow`] when
    /// the sum of the aligned bases is beyond the base type.
    pub fn checked_add(self, rhs: Self) -> (r: Result<Self, SciError>)
        ensures
            viewed(r) == sum(self@, rhs@, Self::limits()),
    {
        match match_exponents(self, rhs) {
            Ok((a, b)) => match a.base().checked_add(b.base()) {
                Some(base) => Ok(SciValue::wrap_with_exponent(base, a.exponent())),
                None => Err(SciError::Overflow),
            },
            Err(e) => Err(e),
        }
    }

    /// The difference of two values, exact, at the smaller of their exponents.
    ///
    /// Fails as [`match_exponents`] does, and with [`SciError::Overflow`] when
    /// the difference of the aligned bases is beyond the base type.
    pub fn checked_sub(self, rhs: Self) -> (r: Result<Self, SciError>)
        ensures
            viewed(r) == difference(self@, rhs@, Self::limits()),
    {
        match match_exponents(self, rhs) {
            Ok((a, b)) => match a.base().checked_sub(b.base()) {
                Some(base) => Ok(SciValue::wrap_with_exponent(base, a.exponent())),
                None => Err(SciError::Overflow),
            },
            Err(e) => Err(e),
        }
    }

    /// The product of two values: the bases multiplied, the exponents added.
    ///
    /// Fails with [`SciError::Overflow`] when the product of the bases is
    /// beyond the base type, else with [`SciError::ExponentOverflow`] when the
    /// sum of the exponents is beyond the exponent type.
    pub fn checked_mul(self, rhs: Self) -> (r: Result<Self, SciError>)
        ensures
            viewed(r) == product(self@, rhs@, Self::limits()),
    {
        match self.base().checked_mul(rhs.base()) {
            Some(base) => match self.exponent().checked_add(rhs.exponent()) {
                Some(exp) => Ok(SciValue::wrap_with_exponent(base, exp)),
                None => Err(SciError::ExponentOverflow),
            },
            None => Err(SciError::Overflow),
        }
    }

    /// The quotient of two values, rounded toward zero after the dividend has
    /// been given as many further digits as help and fit.
    ///
    /// While the divisor's base does not divide the dividend's base, and the
    /// dividend's base is below a tenth of the base type's greatest value, the
    /// dividend's base is multiplied by ten and its exponent lowered by one.
    /// The bases are then divided, and the exponents subtracted.
    ///
    /// Fails with [`SciError::DivisionByZero`] when the divisor's base is
    /// zero, with [`SciError::Overflow`] when a base leaves the base type
    /// (a negative dividend that no power of ten makes divisible, or the
    /// least value divided by minus one), and with
    /// [`SciError::ExponentOverflow`] when an exponent leaves its type.
    pub fn checked_div(self, rhs: Self) -> (r: Result<Self, SciError>)
        ensures
            viewed(r) == quotient(self@, rhs@, Self::limits()),
    {
        let zero = B::from_digit(0);
        let ten = B::from_digit(10);
        let one = E::from_digit(1);
        let divisor = rhs.base();
        if divisor.equals(zero) {
            return Err(SciError::DivisionByZero);
        }
        proof {
            B::lemma_limits();
        }
        let room = B::max_value().checked_div(ten).unwrap();
        let mut base = self.base();
        let mut exp = self.exponent();
        loop
            invariant
                zero.as_int() == 0,
                ten.as_int() == 10,
                one.as_int() == 1,
                divisor.as_int() == rhs@.base,
                divisor.as_int() != 0,
                room.as_int() == B::max_int() / 10,
                widened(
                    SciNum { base: base.as_int(), exponent: exp.as_int() },
                    divisor.as_int(),
                    Self::limits(),
                ) == widened(self@, divisor.as_int(), Self::limits()),
            decreases
                    (if base.as_int() > 0 {
                        B::max_int() - base.as_int()
                    } else {
                        base.as_int() - B::min_int()
                    }),
        {
            proof {
                lemma_trunc_rem_zero(base.as_int(), divisor.as_int());
            }
            let rem = base.checked_rem(divisor).unwrap();
            if rem.equals(zero) || !base.less_than(room) {
                return match base.checked_div(divisor) {
                    Some(quot) => match exp.checked_sub(rhs.exponent()) {
                        Some(exp) => Ok(SciValue::wrap_with_exponent(quot, exp)),
                        None => Err(SciError::ExponentOverflow),
                    },
                    None => Err(SciError::Overflow),
                };
            }
            match base.checked_mul(ten) {
                Some(wider) => match exp.checked_sub(one) {
                    Some(lower) => {
                        base = wider;
                        exp = lower;
                    },
                    None => {
                        return Err(SciError::ExponentOverflow);
                    },
                },
                None => {
                    return Err(SciError::Overflow);
                },
            }
        }
    }

    /// The value raised to the power `n`: the base multiplied up `n` times
    /// starting from one, the exponent multiplied by `n`. The zeroth power of
    /// every value is `1 * 10^0`. The work grows with `n`.
    ///
    /// Fails with [`SciError::NegativePower`] when `n` is negative, with
    /// [`SciError::Overflow`] when one of the powers of the base up to the
    /// `n`th is beyond the base type, else with
    /// [`SciError::ExponentOverflow`] when the multiplied exponent is beyond
    /// the exponent type.
    pub fn pow(self, n: E) -> (r: Result<Self, SciError>)
        ensures
            viewed(r) == power(self@, n.as_int(), Self::limits()),
    {
        let zero = E::from_digit(0);
        let one = E::from_digit(1);
        if n.less_than(zero) {
            return Err(SciError::NegativePower);
        }
        let factor = self.base();
        let mut acc = B::from_digit(1);
        let mut done = zero;
        proof {
            lemma_pow0(factor.as_int());
            acc.lemma_in_range();
        }
        while done.less_than(n)
            invariant
                one.as_int() == 1,
                factor.as_int() == self@.base,
                0 <= done.as_int() <= n.as_int(),
                acc.as_int() == pow(factor.as_int(), done.as_int() as nat),
                powers_fit(factor.as_int(), done.as_int() as nat, Self::limits()),
            decreases n.as_int() - done.as_int(),
        {
            let ghost count = done.as_int() as nat;
            proof {
                lemma_pow_adds(factor.as_int(), count, 1);
                lemma_pow1(factor.as_int());
                done.lemma_in_range();
                n.lemma_in_range();
            }
            match acc.checked_mul(factor) {
                Some(next) => {
                    acc = next;
                    done = done.checked_add(one).unwrap();
                },
                None => {
                    return Err(SciError::Overflow);
                },
            }
        }
        match self.exponent().checked_mul(n) {
            Some(exp) => Ok(SciValue::wrap_with_exponent(acc, exp)),
            None => Err(SciError::ExponentOverflow),
        }
    }
}

} // verus!
