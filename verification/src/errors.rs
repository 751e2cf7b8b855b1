//! Failure taxonomy of the accounting core.
//!
//! Every failure aborts the whole operation with no partial state change;
//! the caller sees exactly one of these reasons.

use vstd::prelude::*;

verus! {

/// Why an accounting operation refused to run.
#[derive(Clone, Copy, Debug, PartialEq, Eq, Structural)]
pub enum ErrorCode {
    /// A purchase asked for more shares than remain unsold.
    InsufficientTokens,
    /// A deposit (or a share supply at creation) was not positive.
    InvalidAmount,
    /// Nothing is newly claimable for this holder; expected, not exceptional.
    NoYield,
    /// A checked multiply or accumulate in the cost or yield math overflowed.
    ArithmeticOverflow,
    /// The total share supply was zero at deposit time; an internal
    /// consistency fault, impossible while the creation invariant holds.
    DivisionByZero,
}

} // verus!
