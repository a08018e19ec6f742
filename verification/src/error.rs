use vstd::prelude::*;

verus! {

/// Failure kinds of the pool's operations and of the checked math
/// utilities.  Every failure is returned synchronously and aborts the whole
/// operation: a call that fails leaves the pool record unchanged.
#[derive(Clone, Copy, Debug, PartialEq, Eq, Structural)]
pub enum ErrorCode {
    /// A caller-supplied amount is zero.
    InvalidAmount,
    /// Pool creation was asked for with two identical asset identifiers.
    DuplicateAssets,
    /// The operation would leave the pool in a degenerate zero-reserve or
    /// zero-share state, or the first deposit's geometric mean rounds to 0.
    InsufficientLiquidity,
    /// A computed result violates the caller's stated minimum.
    SlippageExceeded,
    /// A checked addition or multiplication would exceed its integer range.
    ArithmeticOverflow,
    /// A checked subtraction would fall below zero.
    ArithmeticUnderflow,
    /// A checked division has a zero divisor.
    DivisionByZero,
}

} // verus!
