//! The value type, its construction and its canonical form.

use crate::error::SciError;
use crate::integral::{Integral, SignedIntegral};
use crate::lemmas::lemma_reduced_is_same_number;
use crate::model::{is_canonical, magnitude, pow10, reduced, Limits, SciNum};
use vstd::prelude::*;

verus! {

/// A number in scientific notation: `base * 10^exponent`.
///
/// Any pair is a value; nothing keeps the base free of trailing zeros. Two
/// values are equal when both parts are, so `(20, 0)` and `(2, 1)` differ
/// until both are brought to canonical form with [`SciValue::reduce`].
#[derive(Copy, Debug, Ord)]
pub struct SciValue<B: Integral, E: SignedIntegral> {
    e_exp: E,
    base: B,
}

impl<B: Integral, E: SignedIntegral> View for SciValue<B, E> {
    type V = SciNum;

    closed spec fn view(&self) -> SciNum {
        SciNum { base: self.base.as_int(), exponent: self.e_exp.as_int() }
    }
}

impl<B: Integral, E: SignedIntegral> Clone for SciValue<B, E> {
    fn clone(&self) -> (r: Self)
        ensures
            r == *self,
    {
        *self
    }
}

/// What a fallible operation returned, with the value seen as a number.
pub open spec fn viewed<B: Integral, E: SignedIntegral>(
    r: Result<SciValue<B, E>, SciError>,
) -> Result<SciNum, SciError> {
    match r {
        Ok(v) => Ok(v@),
        Err(e) => Err(e),
    }
}

impl<B: Integral, E: SignedIntegral> SciValue<B, E> {
    /// The ranges of the two types that make up this value type.
    pub open spec fn limits() -> Limits {
        Limits {
            base_min: B::min_int(),
            base_max: B::max_int(),
            exp_min: E::min_int(),
            exp_max: E::max_int(),
        }
    }

    /// The limits are well formed, and every value lies within them.
    pub proof fn lemma_within_limits(self)
        ensures
            Self::limits().wf(),
            Self::limits().holds(self@),
    {
        B::lemma_limits();
        E::lemma_limits();
        E::lemma_signed();
        self.base.lemma_in_range();
        self.e_exp.lemma_in_range();
    }

    /// Values that stand for the same pair of integers are the same value.
    pub proof fn lemma_view_injective(self, other: Self)
        requires
            self@ == other@,
        ensures
            self == other,
    {
        self.base.lemma_as_int_injective(other.base);
        self.e_exp.lemma_as_int_injective(other.e_exp);
    }

    /// The value that stands for the number `n`, for `n` within the limits.
    pub closed spec fn of(n: SciNum) -> Self {
        choose|v: Self| v@ == n
    }

    /// A value is the value that stands for its number.
    pub proof fn lemma_of_view(self)
        ensures
            Self::of(self@) == self,
    {
        Self::of(self@).lemma_view_injective(self);
    }

    /// The value `val * 10^0`.
    pub fn wrap(val: B) -> (r: Self)
        ensures
            r@ == (SciNum { base: val.as_int(), exponent: 0 }),
    {
        SciValue { e_exp: E::from_digit(0), base: val }
    }

    /// The value `val * 10^exp`, taken as given.
    pub fn wrap_with_exponent(val: B, exp: E) -> (r: Self)
        ensures
            r@ == (SciNum { base: val.as_int(), exponent: exp.as_int() }),
    {
        SciValue { e_exp: exp, base: val }
    }

    /// The significant digits.
    pub fn base(&self) -> (r: B)
        ensures
            r.as_int() == self@.base,
    {
        self.base
    }

    /// The power of ten that scales the base.
    pub fn exponent(&self) -> (r: E)
        ensures
            r.as_int() == self@.exponent,
    {
        self.e_exp
    }

    /// The same number in canonical form: zero digits at the end of the base
    /// move into the exponent, one step of exponent for each. A zero base is
    /// left alone, and so is a base that ends in another digit.
    ///
    /// Fails with [`SciError::ExponentOverflow`] when the exponent type cannot
    /// count all the digits that have to move.
    pub fn reduce(&self) -> (r: Result<Self, SciError>)
        ensures
            viewed(r) == reduced(self@, Self::limits()),
            match r {
                Ok(v) => {
                    &&& is_canonical(v@)
                    &&& v@.exponent >= self@.exponent
                    &&& v@.base * pow10((v@.exponent - self@.exponent) as nat) == self@.base
                },
                Err(e) => e == SciError::ExponentOverflow,
            },
    {
        let zero = B::from_digit(0);
        let ten = B::from_digit(10);
        let one = E::from_digit(1);
        let mut base = self.base;
        let mut exp = self.e_exp;
        loop
            invariant
                zero.as_int() == 0,
                ten.as_int() == 10,
                one.as_int() == 1,
                reduced(
                    SciNum { base: base.as_int(), exponent: exp.as_int() },
                    Self::limits(),
                ) == reduced(self@, Self::limits()),
            decreases magnitude(base.as_int()),
        {
            proof {
                lemma_reduced_is_same_number(self@, Self::limits());
                base.lemma_in_range();
                B::lemma_limits();
            }
            if base.equals(zero) {
                return Ok(SciValue { e_exp: exp, base });
            }
            let rem = base.checked_rem(ten).unwrap();
            if !rem.equals(zero) {
                return Ok(SciValue { e_exp: exp, base });
            }
            let tenth = base.checked_div(ten).unwrap();
            match exp.checked_add(one) {
                Some(next) => {
                    base = tenth;
                    exp = next;
                },
                None => {
                    return Err(SciError::ExponentOverflow);
                },
            }
        }
    }
}

} // verus!
