//! A tenor-bucketed liquidity pool and its lifecycle.
//!
//! A pool holds two sides, one per token: `source_balance` is principal still
//! to be matched, `target_balance` the proceeds owed to depositors.  The
//! lifecycle runs `Active -> Locked -> Expired`; a pool is complete once it is
//! expired and either drained or past a grace window.

use vstd::prelude::*;

use crate::decay;
use crate::error::TwammError;
use crate::math::Fraction;

verus! {

/// Lifecycle state of a pool.
#[derive(Clone, Copy, Debug, PartialEq, Eq, Structural)]
pub enum PoolStatus {
    Active,
    Locked,
    Expired,
}

/// Per-token balances and statistics of one side of a pool.
#[derive(Clone, Copy, Debug, PartialEq, Eq, Structural)]
pub struct PoolSide {
    /// Principal still to be matched.
    pub source_balance: u64,
    /// Proceeds accumulated from matching, owed to depositors.
    pub target_balance: u64,
    /// Total shares outstanding.
    pub lp_supply: u64,
    /// Proceeds owed but not yet reflected in `target_balance`.
    pub token_debt_total: u64,
    /// Cumulative volume filled through matching.
    pub fills_volume: u64,
    /// Number of live orders on this side.
    pub num_traders: u64,
    /// Cached decayed-outstanding value, refreshed on every balance change.
    pub settlement_debt_total: u64,
    /// Time of the last balance change.
    pub last_balance_change_time: i64,
}

impl PoolSide {
    /// Basic well-formedness: times are non-negative.
    pub open spec fn wf(self) -> bool {
        0 <= self.last_balance_change_time
    }

    /// Amount of this side's principal eligible to be matched at `now`.
    pub open spec fn spec_unsettled(self, expiration: int, now: int) -> int {
        decay::unsettled_value(
            self.source_balance,
            self.settlement_debt_total,
            self.last_balance_change_time as int,
            expiration,
            now,
        )
    }

    /// Whether the eligible amount fits back into 64 bits.
    pub open spec fn spec_unsettled_ok(self, expiration: int, now: int) -> bool {
        decay::unsettled_ok(
            self.source_balance,
            self.settlement_debt_total,
            self.last_balance_change_time as int,
            expiration,
            now,
        )
    }

    /// Returns the unsettled amount of tokens at the given time.
    pub fn get_unsettled_amount(&self, expiration_time: i64, current_time: i64) -> (r: Result<
        u64,
        TwammError,
    >)
        requires
            self.wf(),
            0 <= expiration_time,
            0 <= current_time,
        ensures
            self.spec_unsettled_ok(expiration_time as int, current_time as int) ==> r == Ok::<
                u64,
                TwammError,
            >(self.spec_unsettled(expiration_time as int, current_time as int) as u64),
            !self.spec_unsettled_ok(expiration_time as int, current_time as int) ==> r == Err::<
                u64,
                TwammError,
            >(TwammError::MathOverflow),
    {
        decay::unsettled_amount(
            self.source_balance,
            self.settlement_debt_total,
            self.last_balance_change_time,
            expiration_time,
            current_time,
        )
    }
}

/// One pool instance for a `(tenor, rotation counter)` pair.
#[derive(Clone, Copy, Debug, PartialEq, Eq, Structural)]
pub struct Pool {
    pub status: PoolStatus,
    /// Configured duration the pool streams execution over.
    pub time_in_force: u32,
    pub expiration_time: i64,
    pub buy_side: PoolSide,
    pub sell_side: PoolSide,
    /// Rotation counter distinguishing successive pools for the same tenor.
    pub counter: u64,
}

impl Pool {
    /// Basic well-formedness: times are non-negative.
    pub open spec fn wf(self) -> bool {
        0 <= self.expiration_time && self.buy_side.wf() && self.sell_side.wf()
    }

    pub open spec fn spec_is_empty(self) -> bool {
        self.buy_side.source_balance == 0 && self.buy_side.target_balance == 0
            && self.sell_side.source_balance == 0 && self.sell_side.target_balance == 0
    }

    pub open spec fn spec_is_expired(self, now: int) -> bool {
        self.status == PoolStatus::Expired || now >= self.expiration_time
    }

    /// A pool locks once the remaining share of its lifetime drops to the
    /// configured fraction.
    pub open spec fn spec_is_locked(self, min_time_till_expiration: Fraction, now: int) -> bool {
        self.status == PoolStatus::Locked || self.spec_is_expired(now) || (self.expiration_time
            - now) * min_time_till_expiration.den <= min_time_till_expiration.num
            * self.time_in_force
    }

    /// Grace window past expiration before the pool is forced closed.
    pub open spec fn spec_grace(self) -> int {
        let g = self.time_in_force as int / 100;
        if g < 60 {
            60
        } else if g > 600 {
            600
        } else {
            g
        }
    }

    /// Expired, and either fully drained or past the grace window.
    pub open spec fn spec_is_complete(self, now: int) -> bool {
        self.spec_is_expired(now) && ((self.buy_side.source_balance == 0
            && self.sell_side.source_balance == 0) || now > self.expiration_time + self.spec_grace())
    }

    /// Checks if the pool is empty.
    pub fn is_empty(&self) -> (r: bool)
        ensures
            r == self.spec_is_empty(),
    {
        self.buy_side.source_balance == 0 && self.buy_side.target_balance == 0
            && self.sell_side.source_balance == 0 && self.sell_side.target_balance == 0
    }

    /// Checks if the pool is expired.
    pub fn is_expired(&self, current_time: i64) -> (r: bool)
        ensures
            r == self.spec_is_expired(current_time as int),
    {
        self.status == PoolStatus::Expired || current_time >= self.expiration_time
    }

    /// Checks if the pool is locked and no longer accepts new orders.
    pub fn is_locked(&self, min_time_till_expiration: &Fraction, current_time: i64) -> (r: bool)
        requires
            self.wf(),
            self.time_in_force > 0,
            min_time_till_expiration.wf(),
            0 <= current_time,
        ensures
            r == self.spec_is_locked(*min_time_till_expiration, current_time as int),
    {
        if self.status == PoolStatus::Locked || self.is_expired(current_time) {
            return true;
        }
        let tte = self.expiration_time - current_time;
        min_time_till_expiration.ratio_le(tte as u64, self.time_in_force as u64)
    }

    /// Checks if the pool is complete, i.e., expired and either drained or
    /// past the grace window.
    pub fn is_complete(&self, current_time: i64) -> (r: Result<bool, TwammError>)
        requires
            self.wf(),
            0 <= current_time,
        ensures
            !self.spec_is_expired(current_time as int) ==> r == Ok::<bool, TwammError>(false),
            self.spec_is_expired(current_time as int) && self.buy_side.source_balance == 0
                && self.sell_side.source_balance == 0 ==> r == Ok::<bool, TwammError>(true),
            self.spec_is_expired(current_time as int) && !(self.buy_side.source_balance == 0
                && self.sell_side.source_balance == 0) ==> if self.expiration_time
                + self.spec_grace() <= i64::MAX {
                r == Ok::<bool, TwammError>(self.spec_is_complete(current_time as int))
            } else {
                r == Err::<bool, TwammError>(TwammError::MathOverflow)
            },
    {
        if !self.is_expired(current_time) {
            return Ok(false);
        }
        if self.buy_side.source_balance == 0 && self.sell_side.source_balance == 0 {
            return Ok(true);
        }
        let g100 = self.time_in_force / 100;
        let grace: i64 = if g100 < 60 {
            60
        } else if g100 > 600 {
            600
        } else {
            g100 as i64
        };
        let deadline = crate::math::checked_add_i64(self.expiration_time, grace)?;
        Ok(current_time > deadline)
    }

    /// Updates the pool state from the clock and returns the updated value.
    pub fn update_state(&mut self, min_time_till_expiration: &Fraction, current_time: i64) -> (r:
        PoolStatus)
        requires
            old(self).wf(),
            old(self).time_in_force > 0,
            min_time_till_expiration.wf(),
            0 <= current_time,
        ensures
            final(self).status == (if old(self).spec_is_locked(
                *min_time_till_expiration,
                current_time as int,
            ) {
                if old(self).spec_is_expired(current_time as int) {
                    PoolStatus::Expired
                } else {
                    PoolStatus::Locked
                }
            } else {
                old(self).status
            }),
            r == final(self).status,
            *final(self) == (Pool { status: final(self).status, ..*old(self) }),
    {
        if self.is_locked(min_time_till_expiration, current_time) {
            if self.is_expired(current_time) {
                self.status = PoolStatus::Expired;
            } else {
                self.status = PoolStatus::Locked;
            }
        }
        self.status
    }
}

} // verus!
