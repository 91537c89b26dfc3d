//! Failures reported by pool operations.
use vstd::prelude::*;

verus! {

/// Why a pool operation was refused. A refused operation changes nothing.
#[derive(Debug, Clone, Copy, PartialEq, Eq, Structural)]
pub enum PoolError {
    /// The operation is not offered by this pool kind.
    Unsupported,
    /// A token is not one of the pool's tokens.
    UnknownToken,
    /// The input and output tokens of a swap are the same.
    SameToken,
    /// An amount vector does not have one entry per token, or is not usable.
    BadAmounts,
    /// The result is worse than the caller's bound.
    SlippageExceeded,
    /// A holder has fewer shares than asked for.
    InsufficientShares,
    /// Shares were sent to a holder that is not registered.
    UnregisteredHolder,
    /// The pool does not hold enough of a token.
    InsufficientLiquidity,
    /// An intermediate amount does not fit in 128 bits.
    Overflow,
    /// A rate refresh is already in flight.
    RefreshInProgress,
}

} // verus!
