//! Equality and ordering of scientific values.
//!
//! Both go by the pair as written, not by the number it stands for: values
//! are equal when base and exponent are, and are ordered by exponent first,
//! then by base.

use crate::integral::{Integral, SignedIntegral};
use crate::value::SciValue;
use core::cmp::Ordering;
use vstd::prelude::*;
use vstd::std_specs::cmp::{PartialEqSpec, PartialOrdSpec};

verus! {

impl<B: Integral, E: SignedIntegral> vstd::std_specs::cmp::PartialEqSpecImpl for SciValue<B, E> {
    open spec fn obeys_eq_spec() -> bool {
        true
    }

    open spec fn eq_spec(&self, other: &Self) -> bool {
        self@ == other@
    }
}

impl<B: Integral, E: SignedIntegral> PartialEq for SciValue<B, E> {
    fn eq(&self, other: &Self) -> (r: bool) {
        self.base().equals(other.base()) && self.exponent().equals(other.exponent())
    }
}

impl<B: Integral, E: SignedIntegral> Eq for SciValue<B, E> {

}

impl<B: Integral, E: SignedIntegral> vstd::std_specs::cmp::PartialOrdSpecImpl for SciValue<B, E> {
    open spec fn obeys_partial_cmp_spec() -> bool {
        true
    }

    open spec fn partial_cmp_spec(&self, other: &Self) -> Option<Ordering> {
        if self@.exponent < other@.exponent {
            Some(Ordering::Less)
        } else if self@.exponent > other@.exponent {
            Some(Ordering::Greater)
        } else if self@.base < other@.base {
            Some(Ordering::Less)
        } else if self@.base > other@.base {
            Some(Ordering::Greater)
        } else {
            Some(Ordering::Equal)
        }
    }
}

impl<B: Integral, E: SignedIntegral> PartialOrd for SciValue<B, E> {
    fn partial_cmp(&self, other: &Self) -> (r: Option<Ordering>) {
        if self.exponent().less_than(other.exponent()) {
            Some(Ordering::Less)
        } else if other.exponent().less_than(self.exponent()) {
            Some(Ordering::Greater)
        } else if self.base().less_than(other.base()) {
            Some(Ordering::Less)
        } else if other.base().less_than(self.base()) {
            Some(Ordering::Greater)
        } else {
            Some(Ordering::Equal)
        }
    }
}

/// Equality is reflexive and goes by the two parts: values are equal exactly
/// when their bases are and their exponents are, which is when they are the
/// same value. Values that stand for one number under different exponents
/// are not equal.
pub proof fn lemma_equality_is_structural<B: Integral, E: SignedIntegral>(
    x: SciValue<B, E>,
    y: SciValue<B, E>,
)
    ensures
        x.eq_spec(&x),
        x.eq_spec(&y) == (x@.base == y@.base && x@.exponent == y@.exponent),
        x.eq_spec(&y) == (x == y),
        x.eq_spec(&y) == (x.partial_cmp_spec(&y) == Some(Ordering::Equal)),
{
    if x@ == y@ {
        x.lemma_view_injective(y);
    }
}

/// The ordering is total: any two values compare, in one way read from
/// either side, and smaller-than carries over a value in the middle.
pub proof fn lemma_ordering_is_total<B: Integral, E: SignedIntegral>(
    x: SciValue<B, E>,
    y: SciValue<B, E>,
    z: SciValue<B, E>,
)
    ensures
        x.partial_cmp_spec(&y) is Some,
        (x.partial_cmp_spec(&y) == Some(Ordering::Less)) == (y.partial_cmp_spec(&x) == Some(
            Ordering::Greater,
        )),
        x.partial_cmp_spec(&y) == Some(Ordering::Less) && y.partial_cmp_spec(&z) == Some(
            Ordering::Less,
        ) ==> x.partial_cmp_spec(&z) == Some(Ordering::Less),
{
}

} // verus!
