//! The operators `+ - * /` on scientific values.
//!
//! An operator yields what the checked method of the same name yields, and
//! may be used where that method succeeds: that is its precondition. Code
//! that is not verified and breaks it gets a panic, never a wrapped result.

use crate::error::SciError;
use crate::integral::{Integral, SignedIntegral};
use crate::model::{difference, product, quotient, sum};
use crate::value::SciValue;
use vstd::prelude::*;

verus! {

impl<B: Integral, E: SignedIntegral> vstd::std_specs::ops::AddSpecImpl for SciValue<B, E> {
    open spec fn obeys_add_spec() -> bool {
        true
    }

    open spec fn add_req(self, rhs: Self) -> bool {
        sum(self@, rhs@, Self::limits()) is Ok
    }

    open spec fn add_spec(self, rhs: Self) -> Self {
        Self::of(sum(self@, rhs@, Self::limits()).unwrap())
    }
}

impl<B: Integral, E: SignedIntegral> core::ops::Add for SciValue<B, E> {
    type Output = SciValue<B, E>;

    /// The sum, as [`SciValue::checked_add`] gives it.
    fn add(self, rhs: Self) -> (r: Self)
        ensures
            Ok::<_, SciError>(r@) == sum(self@, rhs@, Self::limits()),
    {
        let r = self.checked_add(rhs).unwrap();
        proof {
            r.lemma_of_view();
        }
        r
    }
}

impl<B: Integral, E: SignedIntegral> vstd::std_specs::ops::SubSpecImpl for SciValue<B, E> {
    open spec fn obeys_sub_spec() -> bool {
        true
    }

    open spec fn sub_req(self, rhs: Self) -> bool {
        difference(self@, rhs@, Self::limits()) is Ok
    }

    open spec fn sub_spec(self, rhs: Self) -> Self {
        Self::of(difference(self@, rhs@, Self::limits()).unwrap())
    }
}

impl<B: Integral, E: SignedIntegral> core::ops::Sub for SciValue<B, E> {
    type Output = SciValue<B, E>;

    /// The difference, as [`SciValue::checked_sub`] gives it.
    fn sub(self, rhs: Self) -> (r: Self)
        ensures
            Ok::<_, SciError>(r@) == difference(self@, rhs@, Self::limits()),
    {
        let r = self.checked_sub(rhs).unwrap();
        proof {
            r.lemma_of_view();
        }
        r
    }
}

impl<B: Integral, E: SignedIntegral> vstd::std_specs::ops::MulSpecImpl for SciValue<B, E> {
    open spec fn obeys_mul_spec() -> bool {
        true
    }

    open spec fn mul_req(self, rhs: Self) -> bool {
        product(self@, rhs@, Self::limits()) is Ok
    }

    open spec fn mul_spec(self, rhs: Self) -> Self {
        Self::of(product(self@, rhs@, Self::limits()).unwrap())
    }
}

impl<B: Integral, E: SignedIntegral> core::ops::Mul for SciValue<B, E> {
    type Output = SciValue<B, E>;

    /// The product, as [`SciValue::checked_mul`] gives it.
    fn mul(self, rhs: Self) -> (r: Self)
        ensures
            Ok::<_, SciError>(r@) == product(self@, rhs@, Self::limits()),
    {
        let r = self.checked_mul(rhs).unwrap();
        proof {
            r.lemma_of_view();
        }
        r
    }
}

impl<B: Integral, E: SignedIntegral> vstd::std_specs::ops::DivSpecImpl for SciValue<B, E> {
    open spec fn obeys_div_spec() -> bool {
        true
    }

    open spec fn div_req(self, rhs: Self) -> bool {
        quotient(self@, rhs@, Self::limits()) is Ok
    }

    open spec fn div_spec(self, rhs: Self) -> Self {
        Self::of(quotient(self@, rhs@, Self::limits()).unwrap())
    }
}

impl<B: Integral, E: SignedIntegral> core::ops::Div for SciValue<B, E> {
    type Output = SciValue<B, E>;

    /// The quotient, as [`SciValue::checked_div`] gives it.
    fn div(self, rhs: Self) -> (r: Self)
        ensures
            Ok::<_, SciError>(r@) == quotient(self@, rhs@, Self::limits()),
    {
        let r = self.checked_div(rhs).unwrap();
        proof {
            r.lemma_of_view();
        }
        r
    }
}

} // verus!
