use vstd::prelude::*;

verus! {

/// Everything that can go wrong in a market operation.
///
/// Authorization and phase-gating errors abort an operation before any
/// mutation; `NegativePayout` and `ArithmeticOverflow` are also reported per
/// participant during settlement without aborting the rest of the close.
#[derive(Clone, Copy, Debug, PartialEq, Eq, Structural)]
pub enum MarketError {
    /// Caller is not the market owner on an owner-only operation.
    Unauthorized,
    /// `initialize` was called on a market that is already open or closed.
    AlreadyInitialized,
    /// The operation is not legal in the market's current phase
    /// (for a trade: the market is not open, or the deadline has passed).
    InvalidLifecycleTransition,
    /// A missing or malformed parameter (unknown trade side, unparsable
    /// amount or deadline string).
    InvalidParameter,
    /// A negative volume or currency amount.
    InvalidAmount,
    /// A requester attached less currency than the computed price of the
    /// energy they claimed.
    NegativePayout,
    /// A payout or volume computation overflowed the machine integer range.
    ArithmeticOverflow,
    /// Closure was attempted with an empty ledger; the market still closes.
    NoTrades,
    /// Closure was attempted a second time; nothing is paid again.
    AlreadyClosed,
    /// Closure was attempted while trading is still open for submissions.
    NotYetClosable,
}

} // verus!
