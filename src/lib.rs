//! A verified arithmetic accumulator for a four-function calculator.
//!
//! Numbers are held exactly: a finite value is a fraction `num / den`, and the
//! non-finite results of a division by zero are kept as `+inf`, `-inf` and `NaN`.
//! Digits are entered one at a time, an operator is chosen, and `=` folds the
//! right operand into the left one.
use vstd::prelude::*;

pub mod number;
pub mod calc;
pub mod key;
pub mod laws;

verus! {

} // verus!
