//! The ways in which an operation on scientific values can fail.

use vstd::prelude::*;

verus! {

/// Why an operation could not produce a value.
#[derive(Clone, Copy, Debug, PartialEq, Eq, Structural)]
pub enum SciError {
    /// A base left the range of the base type.
    Overflow,
    /// An exponent left the range of the exponent type.
    ExponentOverflow,
    /// Two exponents lie so far apart that the power of ten between them is
    /// itself beyond the base type.
    ScaleTooLarge,
    /// The divisor's base is zero.
    DivisionByZero,
    /// A value was to be raised to a negative power.
    NegativePower,
}

} // verus!
