//! A participant's position in one pool.

use vstd::prelude::*;

use crate::decay;
use crate::error::TwammError;

verus! {

/// Which token a participant deposits.
#[derive(Clone, Copy, Debug, PartialEq, Eq, Structural)]
pub enum OrderSide {
    Buy,
    Sell,
}

/// Per-participant position accounting for one pool.
#[derive(Clone, Copy, Debug, PartialEq, Eq, Structural)]
pub struct Order {
    /// Time the order was created.
    pub time: i64,
    pub side: OrderSide,
    /// Shares held against the pool side's `lp_supply`.
    pub lp_balance: u64,
    /// This order's share of the side's `token_debt_total`.
    pub token_debt: u64,
    /// This order's share of principal not yet matched.
    pub unsettled_balance: u64,
    /// Cached decayed value for this order.
    pub settlement_debt: u64,
    /// Time of the last balance change.
    pub last_balance_change_time: i64,
}

impl Order {
    /// Basic well-formedness: times are non-negative.
    pub open spec fn wf(self) -> bool {
        0 <= self.last_balance_change_time
    }

    /// Amount of this order's principal eligible to be matched at `now`.
    pub open spec fn spec_unsettled(self, expiration: int, now: int) -> int {
        decay::unsettled_value(
            self.unsettled_balance,
            self.settlement_debt,
            self.last_balance_change_time as int,
            expiration,
            now,
        )
    }

    /// Whether the eligible amount fits back into 64 bits.
    pub open spec fn spec_unsettled_ok(self, expiration: int, now: int) -> bool {
        decay::unsettled_ok(
            self.unsettled_balance,
            self.settlement_debt,
            self.last_balance_change_time as int,
            expiration,
            now,
        )
    }

    /// Returns the unsettled amount of tokens at the given time.
    pub fn get_unsettled_amount(&self, expiration_time: i64, current_time: i64) -> (r: Result<
        u64,
        TwammError,
    >)
        requires
            self.wf(),
            0 <= expiration_time,
            0 <= current_time,
        ensures
            self.spec_unsettled_ok(expiration_time as int, current_time as int) ==> r == Ok::<
                u64,
                TwammError,
            >(self.spec_unsettled(expiration_time as int, current_time as int) as u64),
            !self.spec_unsettled_ok(expiration_time as int, current_time as int) ==> r == Err::<
                u64,
                TwammError,
            >(TwammError::MathOverflow),
    {
        decay::unsettled_amount(
            self.unsettled_balance,
            self.settlement_debt,
            self.last_balance_change_time,
            expiration_time,
            current_time,
        )
    }
}

} // verus!
