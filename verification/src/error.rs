//! The errors of the betting library.
use vstd::prelude::*;

verus! {

/// Why a betting operation was refused.
#[derive(Clone, Copy, Debug, PartialEq, Eq, Structural)]
pub enum Error {
    /// The caller is not the admin.
    Unauthorized,
    /// No admin is configured.
    AdminNotSet,
    /// The market does not exist.
    MarketNotFound,
    /// The market is not active or its deadline has passed.
    MarketClosed,
    /// The market already has a result.
    MarketResolved,
    /// The market has no result yet.
    MarketNotResolved,
    /// The outcome is not one of the market's outcomes.
    InvalidOutcome,
    /// The user already has a bet on the market.
    AlreadyBet,
    /// The amount is below the least that may be bet.
    InsufficientStake,
    /// The payer does not hold enough of the token.
    InsufficientBalance,
    /// There is no bet to act on.
    NothingToClaim,
    /// An argument lies outside what the operation takes.
    InvalidInput,
    /// The state does not admit the operation.
    InvalidState,
    /// A sum does not fit.
    Overflow,
    /// The platform fee is above what the caller accepts.
    FeeExceedsMax,
    /// The amount is above the cap of the market.
    BetExceedsCap,
    /// The stake of the user would pass the cap on stakes.
    MaxBetCapExceeded,
    /// A cap is not positive.
    InvalidCap,
    /// A batch holds no bets.
    BatchEmpty,
    /// A batch holds too many bets.
    BatchSizeExceeded,
    /// A batch with this idempotency key was placed before.
    IdempotentBatchAlreadyApplied,
    /// The circuit breaker holds the operation back.
    CircuitBreakerOpen,
    /// No more bets are taken in this ledger.
    RateLimitExceeded,
}

} // verus!
