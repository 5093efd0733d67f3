//! Fixed-precision scientific notation: a value is `base * 10^exponent`, with
//! both parts held in machine integers of the caller's choice.
//!
//! [`SciValue`] is the value type. Its arithmetic comes twice: as methods
//! (`checked_add`, `checked_sub`, `checked_mul`, `checked_div`, `pow`,
//! `reduce`) that return a [`SciError`] where a base or an exponent would
//! leave its type, and as the operators `+ - * /`, which carry the success of
//! the method as their precondition. Nothing wraps around.
//!
//! Every contract is stated over the unbounded numbers of [`model`]; [`laws`]
//! holds what follows for all values.

pub mod align;
pub mod arith;
pub mod error;
pub mod integral;
pub mod laws;
pub mod lemmas;
pub mod model;
pub mod ops;
pub mod order;
pub mod signed;
pub mod unsigned;
pub mod value;

pub use align::{match_exponents, match_exponents_rhs_greater};
pub use error::SciError;
pub use integral::{Integral, SignedIntegral};
pub use value::SciValue;
