//! Error taxonomy of the settlement engine.

use vstd::prelude::*;

verus! {

/// Failure conditions surfaced by the engine.
///
/// Configuration and input-validation errors are rejected before any state
/// change; arithmetic errors abort a whole call; consistency errors signal a
/// bookkeeping defect rather than bad input; policy errors are expected and
/// retryable by the caller.
#[derive(Clone, Copy, Debug, PartialEq, Eq, Structural)]
pub enum TwammError {
    /// Invalid token pair config.
    InvalidTokenPairConfig,
    /// Invalid token amount.
    InvalidTokenAmount,
    /// Invalid token pair price.
    InvalidTokenPairPrice,
    /// Deposits are not allowed at this time.
    DepositsNotAllowed,
    /// Withdrawals are not allowed at this time.
    WithdrawalsNotAllowed,
    /// Cranks are not allowed at this time.
    CranksNotAllowed,
    /// Settlements are not allowed at this time.
    SettlementsNotAllowed,
    /// Order side mismatch.
    OrderSideMismatch,
    /// Time in force mismatch.
    TimeInForceMismatch,
    /// Invalid time in force.
    InvalidTimeInForce,
    /// Invalid pool address.
    InvalidPoolAddress,
    /// Pool doesn't accept new orders.
    LockedPool,
    /// Pool has been expired.
    ExpiredPool,
    /// Invalid pool state.
    InvalidPoolState,
    /// Overflow in arithmetic operation.
    MathOverflow,
    /// Max slippage exceeded.
    MaxSlippage,
    /// Nothing to settle at this time.
    NothingToSettle,
    /// Invalid settlement side.
    InvalidSettlementSide,
    /// Amount to settle is too small.
    SettlementAmountTooSmall,
    /// Amount to settle is too large.
    SettlementAmountTooLarge,
    /// Unexpected settlement error.
    SettlementError,
    /// Not enough collected fees to withdraw from.
    InsufficientFunds,
    /// A withdrawal on someone else's order before the pool is complete.
    IllegalOwner,
}

} // verus!
