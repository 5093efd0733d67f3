//! The integer capabilities that a base or an exponent type must offer.

use vstd::prelude::*;

verus! {

/// The quotient of `a` by `b` rounded toward zero, as machine integers divide.
pub open spec fn trunc_div(a: int, b: int) -> int
    recommends
        b != 0,
{
    if a >= 0 && b > 0 {
        a / b
    } else if a < 0 && b < 0 {
        (-a) / (-b)
    } else if a < 0 {
        -((-a) / b)
    } else {
        -(a / (-b))
    }
}

/// The remainder that goes with [`trunc_div`]; it has the sign of `a`.
pub open spec fn trunc_rem(a: int, b: int) -> int
    recommends
        b != 0,
{
    a - b * trunc_div(a, b)
}

/// A bounded integer type: every value stands for one mathematical integer
/// in a closed range that holds at least `0..=10`.
pub trait Integral: Copy {
    /// The integer this value stands for.
    spec fn as_int(self) -> int;

    /// The least integer the type can hold.
    spec fn min_int() -> int;

    /// The greatest integer the type can hold.
    spec fn max_int() -> int;

    /// Every value lies within the type's range.
    proof fn lemma_in_range(self)
        ensures
            Self::min_int() <= self.as_int() <= Self::max_int(),
    ;

    /// The range reaches from zero or below up to ten or above.
    proof fn lemma_limits()
        ensures
            Self::min_int() <= 0,
            Self::max_int() >= 10,
    ;

    /// Two values that stand for the same integer are the same value.
    proof fn lemma_as_int_injective(self, other: Self)
        requires
            self.as_int() == other.as_int(),
        ensures
            self == other,
    ;

    /// The value that stands for the small number `d`.
    fn from_digit(d: u8) -> (r: Self)
        requires
            d <= 10,
        ensures
            r.as_int() == d,
    ;

    /// The greatest value of the type.
    fn max_value() -> (r: Self)
        ensures
            r.as_int() == Self::max_int(),
    ;

    /// The sum, or `None` where it leaves the type's range.
    fn checked_add(self, rhs: Self) -> (r: Option<Self>)
        ensures
            match r {
                Some(v) => v.as_int() == self.as_int() + rhs.as_int() && Self::min_int()
                    <= v.as_int() <= Self::max_int(),
                None => !(Self::min_int() <= self.as_int() + rhs.as_int() <= Self::max_int()),
            },
    ;

    /// The difference, or `None` where it leaves the type's range.
    fn checked_sub(self, rhs: Self) -> (r: Option<Self>)
        ensures
            match r {
                Some(v) => v.as_int() == self.as_int() - rhs.as_int() && Self::min_int()
                    <= v.as_int() <= Self::max_int(),
                None => !(Self::min_int() <= self.as_int() - rhs.as_int() <= Self::max_int()),
            },
    ;

    /// The product, or `None` where it leaves the type's range.
    fn checked_mul(self, rhs: Self) -> (r: Option<Self>)
        ensures
            match r {
                Some(v) => v.as_int() == self.as_int() * rhs.as_int() && Self::min_int()
                    <= v.as_int() <= Self::max_int(),
                None => !(Self::min_int() <= self.as_int() * rhs.as_int() <= Self::max_int()),
            },
    ;

    /// The quotient rounded toward zero, or `None` where the divisor is zero
    /// or the quotient leaves the type's range.
    fn checked_div(self, rhs: Self) -> (r: Option<Self>)
        ensures
            match r {
                Some(v) => rhs.as_int() != 0 && v.as_int() == trunc_div(self.as_int(), rhs.as_int())
                    && Self::min_int() <= v.as_int() <= Self::max_int(),
                None => rhs.as_int() == 0 || !(Self::min_int() <= trunc_div(
                    self.as_int(),
                    rhs.as_int(),
                ) <= Self::max_int()),
            },
    ;

    /// The remainder of the division rounded toward zero, or `None` where
    /// the divisor is zero.
    fn checked_rem(self, rhs: Self) -> (r: Option<Self>)
        ensures
            match r {
                Some(v) => rhs.as_int() != 0 && v.as_int() == trunc_rem(self.as_int(), rhs.as_int()),
                None => rhs.as_int() == 0,
            },
    ;

    /// Whether `self` is the smaller integer.
    fn less_than(self, rhs: Self) -> (r: bool)
        ensures
            r == (self.as_int() < rhs.as_int()),
    ;

    /// Whether both stand for the same integer.
    fn equals(self, rhs: Self) -> (r: bool)
        ensures
            r == (self.as_int() == rhs.as_int()),
    ;
}

/// Whether `v` lies within the range of `T`.
pub open spec fn fits<T: Integral>(v: int) -> bool {
    T::min_int() <= v <= T::max_int()
}

/// An [`Integral`] type that can hold negative numbers.
pub trait SignedIntegral: Integral {
    /// The range reaches below zero.
    proof fn lemma_signed()
        ensures
            Self::min_int() < 0,
    ;
}

/// Quotient and remainder of the division rounded toward zero make up the
/// dividend. The remainder has the sign of the dividend, and its magnitude is
/// the remainder of the two magnitudes.
pub proof fn lemma_trunc_div_rem(a: int, b: int)
    requires
        b != 0,
    ensures
        a == b * trunc_div(a, b) + trunc_rem(a, b),
        a >= 0 ==> 0 <= trunc_rem(a, b),
        a <= 0 ==> trunc_rem(a, b) <= 0,
        a >= 0 && b > 0 ==> trunc_rem(a, b) == a % b,
        a >= 0 && b < 0 ==> trunc_rem(a, b) == a % (-b),
        a < 0 && b > 0 ==> trunc_rem(a, b) == -((-a) % b),
        a < 0 && b < 0 ==> trunc_rem(a, b) == -((-a) % (-b)),
{
    let pa = if a >= 0 { a } else { -a };
    let pb = if b > 0 { b } else { -b };
    vstd::arithmetic::div_mod::lemma_fundamental_div_mod(pa, pb);
    let q = pa / pb;
    assert(b * (-q) == -(b * q)) by (nonlinear_arith);
    assert((-b) * q == -(b * q)) by (nonlinear_arith);
}

/// The remainder of the division rounded toward zero vanishes exactly when
/// `b` divides `a`.
pub proof fn lemma_trunc_rem_zero(a: int, b: int)
    requires
        b != 0,
    ensures
        (trunc_rem(a, b) == 0) == (a % b == 0),
{
    lemma_trunc_div_rem(a, b);
    lemma_divides_any_sign(a, b);
}

/// Whether `b` divides `a` does not depend on the sign of either.
pub proof fn lemma_divides_any_sign(a: int, b: int)
    requires
        b != 0,
    ensures
        (a % b == 0) == ((-a) % b == 0),
        (a % b == 0) == (a % (-b) == 0),
        (a % b == 0) == ((-a) % (-b) == 0),
{
    lemma_mod_negated_divisor(a, b);
    lemma_mod_negated_divisor(-a, b);
    let m = if b > 0 { b } else { -b };
    assert((a % m == 0) == ((-a) % m == 0)) by {
        vstd::arithmetic::div_mod::lemma_fundamental_div_mod(a, m);
        vstd::arithmetic::div_mod::lemma_fundamental_div_mod(-a, m);
        let q = a / m;
        let p = (-a) / m;
        assert(m * (-q) == -(m * q)) by (nonlinear_arith);
        assert(m * (-p) == -(m * p)) by (nonlinear_arith);
        if a % m == 0 {
            vstd::arithmetic::div_mod::lemma_fundamental_div_mod_converse(-a, m, -q, 0);
        }
        if (-a) % m == 0 {
            vstd::arithmetic::div_mod::lemma_fundamental_div_mod_converse(a, m, -p, 0);
        }
    }
}

/// The remainder is the same for a divisor and its negation.
pub proof fn lemma_mod_negated_divisor(a: int, b: int)
    requires
        b != 0,
    ensures
        a % (-b) == a % b,
{
    assert(a % (-b) == a % b) by (nonlinear_arith)
        requires
            b != 0,
    ;
}

} // verus!
