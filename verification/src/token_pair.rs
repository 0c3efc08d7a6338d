//! Configuration and bookkeeping for one trading pair.

use vstd::prelude::*;

use crate::error::TwammError;
use crate::math;
use crate::math::Fraction;
use crate::oracle::{OraclePrice, OracleType};
use crate::pool::Pool;

verus! {

/// Number of tenor slots a pair supports.
pub const MAX_POOLS: usize = 10;

/// Per-token configuration of a pair.
#[derive(Clone, Copy, Debug, PartialEq, Eq, Structural)]
pub struct TokenConfig {
    /// Reward paid out of collected fees for turning the crank.
    pub crank_reward: u64,
    /// Minimum tradable amount.
    pub min_swap_amount: u64,
    /// Largest acceptable relative oracle price error.
    pub max_oracle_price_error: Fraction,
    /// Largest acceptable oracle price age.
    pub max_oracle_price_age_sec: u32,
    pub oracle_type: OracleType,
    /// Identifier of the oracle reference; zero when absent.
    pub oracle_account: u64,
    /// Number of decimals of the token mint.
    pub decimals: u8,
}

/// Per-token statistics of a pair.
#[derive(Clone, Copy, Debug, PartialEq, Eq, Structural)]
pub struct TokenStats {
    pub pending_withdrawals: u64,
    pub fees_collected: u64,
    pub order_volume_usd: u64,
    pub routed_volume_usd: u64,
    pub settled_volume_usd: u64,
}

/// Which side of the pair has residual demand after internal matching.
#[derive(Clone, Copy, Debug, PartialEq, Eq, Structural)]
pub enum MatchingSide {
    Buy,
    Sell,
    Internal,
}

/// Whether a settlement was driven by a crank or by an external supplier.
#[derive(Clone, Copy, Debug, PartialEq, Eq, Structural)]
pub enum SettlementType {
    Crank,
    Settlement,
}

/// Result of settling a set of pools.
#[derive(Clone, Copy, Debug, PartialEq, Eq, Structural)]
pub struct Settlement {
    /// Amount of external liquidity actually accepted by the pools.
    pub net_amount_settled: u64,
    /// Residual one-sided demand before the external fill.
    pub net_amount_required: u64,
    /// Amount received from the external supplier in return.
    pub source_amount_received: u64,
    /// Token-A volume cleared, internally and externally.
    pub total_amount_settled_a: u64,
    /// Token-B volume cleared, internally and externally.
    pub total_amount_settled_b: u64,
    pub settlement_side: MatchingSide,
}

/// Long-lived, admin-owned configuration and statistics of a trading pair.
#[derive(Clone, Debug)]
pub struct TokenPair {
    pub allow_deposits: bool,
    pub allow_withdrawals: bool,
    pub allow_cranks: bool,
    pub allow_settlements: bool,
    /// Withdrawal fee, taken from the target side only.
    pub fee_numerator: u64,
    pub fee_denominator: u64,
    /// Settlement fee, taken from the target side only.
    pub settle_fee_numerator: u64,
    pub settle_fee_denominator: u64,
    /// Maximum trade price difference versus the oracle price.
    pub max_swap_price_diff: Fraction,
    /// Maximum settle amount difference with a value calculated off-line.
    pub max_unsettled_amount: Fraction,
    /// Share of the pool lifetime during which new orders are rejected.
    pub min_time_till_expiration: Fraction,
    /// Identifier of the authority allowed to crank; zero for anyone.
    pub crank_authority: u64,
    pub config_a: TokenConfig,
    pub config_b: TokenConfig,
    pub stats_a: TokenStats,
    pub stats_b: TokenStats,
    /// Supported time-in-force intervals, one per slot.
    pub tifs: Vec<u32>,
    /// Rotation counters, one per slot.
    pub pool_counters: Vec<u64>,
    /// Whether a current pool exists, one per slot.
    pub current_pool_present: Vec<bool>,
    /// Whether a staged next pool exists, one per slot.
    pub future_pool_present: Vec<bool>,
    /// Time of inception, also used as the wall clock for testing.
    pub inception_time: i64,
}

/// Index of the first occurrence of `v` in `s`, or `-1`.
pub open spec fn first_index_of(s: Seq<u32>, v: u32) -> int
    decreases s.len(),
{
    if s.len() == 0 {
        -1
    } else if s[0] == v {
        0
    } else {
        let r = first_index_of(s.drop_first(), v);
        if r < 0 {
            -1
        } else {
            r + 1
        }
    }
}

/// The first occurrence really is the first: it holds `v`, nothing before it
/// does, and a negative result means `v` does not occur at all.
pub proof fn lemma_first_index_of(s: Seq<u32>, v: u32)
    ensures
        first_index_of(s, v) >= 0 ==> first_index_of(s, v) < s.len() && s[first_index_of(s, v)] == v
            && forall|j: int| 0 <= j < first_index_of(s, v) ==> s[j] != v,
        first_index_of(s, v) < 0 ==> forall|j: int| 0 <= j < s.len() ==> s[j] != v,
    decreases s.len(),
{
    if s.len() > 0 && s[0] != v {
        lemma_first_index_of(s.drop_first(), v);
        let r = first_index_of(s.drop_first(), v);
        if r >= 0 {
            assert(forall|j: int| 1 <= j < r + 1 ==> s[j] == s.drop_first()[j - 1]);
        } else {
            assert(forall|j: int| 1 <= j < s.len() ==> s[j] == s.drop_first()[j - 1]);
        }
    }
}

/// Supported tenors are pairwise distinct when non-zero.
pub open spec fn spec_tifs_distinct(tifs: Seq<u32>) -> bool {
    forall|i: int, j: int| 0 <= i < j < tifs.len() ==> (tifs[i] == 0 || tifs[i] != tifs[j])
}

impl TokenPair {
    /// The per-slot vectors hold exactly one entry per tenor slot.
    pub open spec fn wf(self) -> bool {
        self.tifs.len() == MAX_POOLS && self.pool_counters.len() == MAX_POOLS
            && self.current_pool_present.len() == MAX_POOLS && self.future_pool_present.len()
            == MAX_POOLS
    }

    /// Index of the given time-in-force value in the tenor table, when the
    /// value is non-zero and present.
    pub open spec fn spec_tif_index(self, time_in_force: u32) -> int {
        first_index_of(self.tifs@, time_in_force)
    }

    /// The scalar part of the configuration invariant: fee fractions proper,
    /// limits in range, an oracle present whenever settlement is enabled.
    pub open spec fn spec_validate_scalars(self) -> bool {
        &&& self.fee_numerator < self.fee_denominator
        &&& self.settle_fee_numerator < self.settle_fee_denominator
        &&& self.max_swap_price_diff.in_unit()
        &&& self.max_unsettled_amount.in_unit()
        &&& self.min_time_till_expiration.in_unit()
        &&& (!self.allow_settlements || (self.config_a.oracle_type != OracleType::NoOracle
            && self.config_b.oracle_type != OracleType::NoOracle))
        &&& (self.config_a.oracle_type == OracleType::NoOracle || (self.config_a.oracle_account
            != 0 && self.config_a.max_oracle_price_error.wf()))
        &&& (self.config_b.oracle_type == OracleType::NoOracle || (self.config_b.oracle_account
            != 0 && self.config_b.max_oracle_price_error.wf()))
    }

    /// Configuration invariant: the scalar part, and supported tenors
    /// pairwise distinct when non-zero.
    pub open spec fn spec_validate(self) -> bool {
        self.spec_validate_scalars() && spec_tifs_distinct(self.tifs@)
    }

    /// Returns the index of the given time in force value in the tenor table.
    pub fn get_tif_index(&self, time_in_force: u32) -> (r: Result<usize, TwammError>)
        requires
            self.wf(),
        ensures
            time_in_force != 0 && self.spec_tif_index(time_in_force) >= 0 ==> r == Ok::<
                usize,
                TwammError,
            >(self.spec_tif_index(time_in_force) as usize),
            r matches Ok(i) ==> time_in_force != 0 && 0 <= i < MAX_POOLS && self.tifs@[i as int]
                == time_in_force && i == self.spec_tif_index(time_in_force),
            time_in_force == 0 || self.spec_tif_index(time_in_force) < 0 ==> r == Err::<
                usize,
                TwammError,
            >(TwammError::InvalidTimeInForce),
    {
        proof {
            lemma_first_index_of(self.tifs@, time_in_force);
        }
        if time_in_force == 0 {
            return Err(TwammError::InvalidTimeInForce);
        }
        let mut i: usize = 0;
        while i < self.tifs.len()
            invariant
                self.wf(),
                time_in_force != 0,
                i <= self.tifs.len(),
                forall|j: int| 0 <= j < i ==> self.tifs@[j] != time_in_force,
                first_index_of(self.tifs@, time_in_force) >= 0 ==> first_index_of(
                    self.tifs@,
                    time_in_force,
                ) < self.tifs@.len() && self.tifs@[first_index_of(self.tifs@, time_in_force)]
                    == time_in_force && forall|j: int|
                    0 <= j < first_index_of(self.tifs@, time_in_force) ==> self.tifs@[j]
                        != time_in_force,
                first_index_of(self.tifs@, time_in_force) < 0 ==> forall|j: int|
                    0 <= j < self.tifs@.len() ==> self.tifs@[j] != time_in_force,
            decreases self.tifs.len() - i,
        {
            if self.tifs[i] == time_in_force {
                proof {
                    lemma_first_index_of(self.tifs@, time_in_force);
                    let r = first_index_of(self.tifs@, time_in_force);
                    if r < 0 {
                        assert(self.tifs@[i as int] != time_in_force);
                    } else if r < i {
                        assert(self.tifs@[r] != time_in_force);
                    } else if r > i {
                        assert(self.tifs@[i as int] != time_in_force);
                    }
                }
                return Ok(i);
            }
            i = i + 1;
        }
        Err(TwammError::InvalidTimeInForce)
    }

    /// Checks the configuration invariant.
    pub fn validate(&self) -> (r: bool)
        requires
            self.wf(),
        ensures
            r == self.spec_validate(),
    {
        let fees_ok = self.fee_numerator < self.fee_denominator && self.settle_fee_numerator
            < self.settle_fee_denominator;
        let limits_ok = self.max_swap_price_diff.den > 0 && self.max_swap_price_diff.num
            <= self.max_swap_price_diff.den && self.max_unsettled_amount.den > 0
            && self.max_unsettled_amount.num <= self.max_unsettled_amount.den
            && self.min_time_till_expiration.den > 0 && self.min_time_till_expiration.num
            <= self.min_time_till_expiration.den;
        let oracle_ok = (!self.allow_settlements || (!matches!(
            self.config_a.oracle_type,
            OracleType::NoOracle,
        ) && !matches!(self.config_b.oracle_type, OracleType::NoOracle))) && (matches!(
            self.config_a.oracle_type,
            OracleType::NoOracle,
        ) || (self.config_a.oracle_account != 0 && self.config_a.max_oracle_price_error.den > 0))
            && (matches!(self.config_b.oracle_type, OracleType::NoOracle) || (
        self.config_b.oracle_account != 0 && self.config_b.max_oracle_price_error.den > 0));
        if !(fees_ok && limits_ok && oracle_ok) {
            return false;
        }
        let mut i: usize = 0;
        while i < self.tifs.len()
            invariant
                self.wf(),
                i <= self.tifs.len(),
                forall|p: int, q: int|
                    0 <= p < q < self.tifs@.len() && p < i ==> (self.tifs@[p] == 0 || self.tifs@[p]
                        != self.tifs@[q]),
            decreases self.tifs.len() - i,
        {
            if self.tifs[i] != 0 {
                let mut j: usize = i + 1;
                while j < self.tifs.len()
                    invariant
                        self.wf(),
                        i < j <= self.tifs.len(),
                        self.tifs@[i as int] != 0,
                        forall|q: int| i < q < j ==> self.tifs@[i as int] != self.tifs@[q],
                    decreases self.tifs.len() - j,
                {
                    if self.tifs[j] == self.tifs[i] {
                        return false;
                    }
                    j = j + 1;
                }
            }
            i = i + 1;
        }
        true
    }

    /// Token-A amount that `token_b_amount` converts to at `rate`, rounded
    /// down.
    pub open spec fn spec_token_a_amount(self, token_b_amount: u64, rate: OraclePrice) -> int {
        math::decimal_div_val(
            token_b_amount,
            -(self.config_b.decimals as int),
            rate.price,
            rate.exponent as int,
            -(self.config_a.decimals as int),
        )
    }

    pub open spec fn spec_token_a_amount_ok(self, token_b_amount: u64, rate: OraclePrice) -> bool {
        math::decimal_div_ok(
            token_b_amount,
            -(self.config_b.decimals as int),
            rate.price,
            rate.exponent as int,
            -(self.config_a.decimals as int),
        )
    }

    /// Token-B amount that `token_a_amount` converts to at `rate`, rounded
    /// down.
    pub open spec fn spec_token_b_amount(self, token_a_amount: u64, rate: OraclePrice) -> int {
        math::decimal_mul_val(
            token_a_amount,
            -(self.config_a.decimals as int),
            rate.price,
            rate.exponent as int,
            -(self.config_b.decimals as int),
        )
    }

    pub open spec fn spec_token_b_amount_ok(self, token_a_amount: u64, rate: OraclePrice) -> bool {
        math::decimal_mul_ok(
            token_a_amount,
            -(self.config_a.decimals as int),
            rate.price,
            rate.exponent as int,
            -(self.config_b.decimals as int),
        )
    }

    pub open spec fn spec_token_a_amount_ceil(self, token_b_amount: u64, rate: OraclePrice) -> int {
        math::decimal_div_ceil_val(
            token_b_amount,
            -(self.config_b.decimals as int),
            rate.price,
            rate.exponent as int,
            -(self.config_a.decimals as int),
        )
    }

    pub open spec fn spec_token_a_amount_ceil_ok(
        self,
        token_b_amount: u64,
        rate: OraclePrice,
    ) -> bool {
        math::decimal_div_ceil_ok(
            token_b_amount,
            -(self.config_b.decimals as int),
            rate.price,
            rate.exponent as int,
            -(self.config_a.decimals as int),
        )
    }

    pub open spec fn spec_token_b_amount_ceil(self, token_a_amount: u64, rate: OraclePrice) -> int {
        math::decimal_mul_ceil_val(
            token_a_amount,
            -(self.config_a.decimals as int),
            rate.price,
            rate.exponent as int,
            -(self.config_b.decimals as int),
        )
    }

    pub open spec fn spec_token_b_amount_ceil_ok(
        self,
        token_a_amount: u64,
        rate: OraclePrice,
    ) -> bool {
        math::decimal_mul_ceil_ok(
            token_a_amount,
            -(self.config_a.decimals as int),
            rate.price,
            rate.exponent as int,
            -(self.config_b.decimals as int),
        )
    }

    /// Converts a token-B amount to the token-A amount of equal value at the
    /// given exchange rate, rounding down.
    pub fn get_token_a_amount(&self, token_b_amount: u64, exchange_rate: OraclePrice) -> (r: Result<
        u64,
        TwammError,
    >)
        ensures
            self.spec_token_a_amount_ok(token_b_amount, exchange_rate) ==> r == Ok::<
                u64,
                TwammError,
            >(self.spec_token_a_amount(token_b_amount, exchange_rate) as u64),
            !self.spec_token_a_amount_ok(token_b_amount, exchange_rate) ==> r == Err::<
                u64,
                TwammError,
            >(TwammError::MathOverflow),
    {
        math::checked_decimal_div(
            token_b_amount,
            -(self.config_b.decimals as i32),
            exchange_rate.price,
            exchange_rate.exponent,
            -(self.config_a.decimals as i32),
        )
    }

    /// Converts a token-B amount to the token-A amount of equal value at the
    /// given exchange rate, rounding up.
    pub fn get_token_a_amount_ceil(&self, token_b_amount: u64, exchange_rate: OraclePrice) -> (r:
        Result<u64, TwammError>)
        ensures
            self.spec_token_a_amount_ceil_ok(token_b_amount, exchange_rate) ==> r == Ok::<
                u64,
                TwammError,
            >(self.spec_token_a_amount_ceil(token_b_amount, exchange_rate) as u64),
            !self.spec_token_a_amount_ceil_ok(token_b_amount, exchange_rate) ==> r == Err::<
                u64,
                TwammError,
            >(TwammError::MathOverflow),
    {
        math::checked_decimal_ceil_div(
            token_b_amount,
            -(self.config_b.decimals as i32),
            exchange_rate.price,
            exchange_rate.exponent,
            -(self.config_a.decimals as i32),
        )
    }

    /// Converts a token-A amount to the token-B amount of equal value at the
    /// given exchange rate, rounding down.
    pub fn get_token_b_amount(&self, token_a_amount: u64, exchange_rate: OraclePrice) -> (r: Result<
        u64,
        TwammError,
    >)
        ensures
            self.spec_token_b_amount_ok(token_a_amount, exchange_rate) ==> r == Ok::<
                u64,
                TwammError,
            >(self.spec_token_b_amount(token_a_amount, exchange_rate) as u64),
            !self.spec_token_b_amount_ok(token_a_amount, exchange_rate) ==> r == Err::<
                u64,
                TwammError,
            >(TwammError::MathOverflow),
    {
        math::checked_decimal_mul(
            token_a_amount,
            -(self.config_a.decimals as i32),
            exchange_rate.price,
            exchange_rate.exponent,
            -(self.config_b.decimals as i32),
        )
    }

    /// Converts a token-A amount to the token-B amount of equal value at the
    /// given exchange rate, rounding up.
    pub fn get_token_b_amount_ceil(&self, token_a_amount: u64, exchange_rate: OraclePrice) -> (r:
        Result<u64, TwammError>)
        ensures
            self.spec_token_b_amount_ceil_ok(token_a_amount, exchange_rate) ==> r == Ok::<
                u64,
                TwammError,
            >(self.spec_token_b_amount_ceil(token_a_amount, exchange_rate) as u64),
            !self.spec_token_b_amount_ceil_ok(token_a_amount, exchange_rate) ==> r == Err::<
                u64,
                TwammError,
            >(TwammError::MathOverflow),
    {
        math::checked_decimal_ceil_mul(
            token_a_amount,
            -(self.config_a.decimals as i32),
            exchange_rate.price,
            exchange_rate.exponent,
            -(self.config_b.decimals as i32),
        )
    }

    /// Cross-rate of the pair from the two tokens' oracle prices; a price of
    /// zero is rejected.
    pub fn get_token_pair_oracle_price(&self, price_a: &OraclePrice, price_b: &OraclePrice) -> (r:
        Result<OraclePrice, TwammError>)
        ensures
            price_a.checked_div_spec_ok(*price_b) && price_a.checked_div_price(*price_b) > 0 ==> r
                == Ok::<OraclePrice, TwammError>(
                OraclePrice {
                    price: price_a.checked_div_price(*price_b) as u64,
                    exponent: price_a.checked_div_exponent(*price_b) as i32,
                },
            ),
            r matches Ok(p) ==> price_a.checked_div_spec_ok(*price_b) && p.price > 0 && p
                == (OraclePrice {
                price: price_a.checked_div_price(*price_b) as u64,
                exponent: price_a.checked_div_exponent(*price_b) as i32,
            }),
            price_a.checked_div_spec_ok(*price_b) && price_a.checked_div_price(*price_b) == 0 ==> r
                == Err::<OraclePrice, TwammError>(TwammError::InvalidTokenPairPrice),
            !price_a.checked_div_spec_ok(*price_b) ==> r == Err::<OraclePrice, TwammError>(
                TwammError::MathOverflow,
            ),
    {
        let pair_price = price_a.checked_div(price_b)?;
        proof {
            if price_a.checked_div_spec_ok(*price_b) {
                math::lemma_decimal_div_nonneg(
                    price_a.price,
                    price_a.exponent as int,
                    price_b.price,
                    price_b.exponent as int,
                    price_a.checked_div_exponent(*price_b),
                );
                if price_a.price == 0 {
                    math::lemma_decimal_div_zero_c1(
                        price_a.price,
                        price_a.exponent as int,
                        price_b.price,
                        price_b.exponent as int,
                        price_a.checked_div_exponent(*price_b),
                    );
                }
            }
        }
        if pair_price.price > 0 {
            Ok(pair_price)
        } else {
            Err(TwammError::InvalidTokenPairPrice)
        }
    }
}

/// The pair's configuration fields and tenor table are untouched.
pub open spec fn same_config(a: TokenPair, b: TokenPair) -> bool {
    &&& a.allow_deposits == b.allow_deposits
    &&& a.allow_withdrawals == b.allow_withdrawals
    &&& a.allow_cranks == b.allow_cranks
    &&& a.allow_settlements == b.allow_settlements
    &&& a.fee_numerator == b.fee_numerator
    &&& a.fee_denominator == b.fee_denominator
    &&& a.settle_fee_numerator == b.settle_fee_numerator
    &&& a.settle_fee_denominator == b.settle_fee_denominator
    &&& a.max_swap_price_diff == b.max_swap_price_diff
    &&& a.max_unsettled_amount == b.max_unsettled_amount
    &&& a.min_time_till_expiration == b.min_time_till_expiration
    &&& a.crank_authority == b.crank_authority
    &&& a.config_a == b.config_a
    &&& a.config_b == b.config_b
    &&& a.inception_time == b.inception_time
}

/// The rotation slots and statistics are untouched.
pub open spec fn same_slots(a: TokenPair, b: TokenPair) -> bool {
    &&& a.pool_counters@ == b.pool_counters@
    &&& a.current_pool_present@ == b.current_pool_present@
    &&& a.future_pool_present@ == b.future_pool_present@
    &&& a.stats_a == b.stats_a
    &&& a.stats_b == b.stats_b
}

impl TokenPair {
    /// Advances the rotation for the tenor slot of a completed pool.
    ///
    /// If the pool being finalized is the staged next pool, only its staged
    /// flag is cleared.  If it is the current pool, the counter advances, the
    /// staged pool (if any) becomes current, and the pool's residual balances
    /// are pushed into the pending-withdrawal statistics.  The caller
    /// reclaims the pool's storage once the pool is empty.
    pub fn finalize_pool(&mut self, pool: &Pool) -> (r: Result<(), TwammError>)
        requires
            old(self).wf(),
        ensures
            final(self).wf(),
            same_config(*old(self), *final(self)),
            final(self).tifs@ == old(self).tifs@,
            ({
                let idx = old(self).spec_tif_index(pool.time_in_force);
                if pool.time_in_force == 0 || idx < 0 {
                    r == Err::<(), TwammError>(TwammError::InvalidTimeInForce) && same_slots(
                        *old(self),
                        *final(self),
                    )
                } else if old(self).pool_counters@[idx] == u64::MAX {
                    r == Err::<(), TwammError>(TwammError::MathOverflow) && same_slots(
                        *old(self),
                        *final(self),
                    )
                } else if pool.counter == old(self).pool_counters@[idx] + 1 {
                    r == Ok::<(), TwammError>(()) && final(self).future_pool_present@ == old(self).future_pool_present@.update(idx, false) && final(self).pool_counters@ == old(self).pool_counters@ && final(self).current_pool_present@ == old(self).current_pool_present@ && final(self).stats_a == old(self).stats_a && final(self).stats_b == old(self).stats_b
                } else if pool.counter == old(self).pool_counters@[idx] {
                    r == Ok::<(), TwammError>(()) && final(self).pool_counters@ == old(self).pool_counters@.update(idx, (old(self).pool_counters@[idx] + 1) as u64) && (if
                    old(self).future_pool_present@[idx] {
                        final(self).future_pool_present@ == old(self).future_pool_present@.update(idx, false) && final(self).current_pool_present@ == old(self).current_pool_present@.update(idx, true)
                    } else {
                        final(self).future_pool_present@ == old(self).future_pool_present@ && final(self).current_pool_present@ == old(self).current_pool_present@.update(
                            idx,
                            false,
                        )
                    }) && final(self).stats_a == (TokenStats {
                        pending_withdrawals: math::sat_add_val(
                            math::sat_add_val(
                                old(self).stats_a.pending_withdrawals,
                                pool.sell_side.source_balance,
                            ) as u64,
                            pool.buy_side.target_balance,
                        ) as u64,
                        ..old(self).stats_a
                    }) && final(self).stats_b == (TokenStats {
                        pending_withdrawals: math::sat_add_val(
                            math::sat_add_val(
                                old(self).stats_b.pending_withdrawals,
                                pool.sell_side.target_balance,
                            ) as u64,
                            pool.buy_side.source_balance,
                        ) as u64,
                        ..old(self).stats_b
                    })
                } else {
                    r == Ok::<(), TwammError>(()) && same_slots(*old(self), *final(self))
                }
            }),
    {
        let tif_idx = self.get_tif_index(pool.time_in_force)?;
        let next_counter = math::checked_add_u64(self.pool_counters[tif_idx], 1)?;
        if pool.counter == next_counter {
            self.future_pool_present[tif_idx] = false;
        } else if pool.counter == self.pool_counters[tif_idx] {
            if self.future_pool_present[tif_idx] {
                self.future_pool_present[tif_idx] = false;
                self.current_pool_present[tif_idx] = true;
            } else {
                self.current_pool_present[tif_idx] = false;
            }
            self.pool_counters[tif_idx] = next_counter;
            self.stats_a.pending_withdrawals = math::saturating_add_u64(
                self.stats_a.pending_withdrawals,
                pool.sell_side.source_balance,
            );
            self.stats_a.pending_withdrawals = math::saturating_add_u64(
                self.stats_a.pending_withdrawals,
                pool.buy_side.target_balance,
            );
            self.stats_b.pending_withdrawals = math::saturating_add_u64(
                self.stats_b.pending_withdrawals,
                pool.sell_side.target_balance,
            );
            self.stats_b.pending_withdrawals = math::saturating_add_u64(
                self.stats_b.pending_withdrawals,
                pool.buy_side.source_balance,
            );
        }
        Ok(())
    }

    /// One entry of the candidate pool list is individually acceptable: its
    /// tenor is configured and its rotation counter is the current one.
    pub open spec fn spec_pool_entry_valid(self, pool: Pool) -> bool {
        &&& pool.time_in_force != 0
        &&& self.spec_tif_index(pool.time_in_force) >= 0
        &&& pool.counter == self.pool_counters@[self.spec_tif_index(pool.time_in_force)]
    }

    /// The candidate pool list is exactly the set of current pools: every
    /// entry acceptable, tenors pairwise distinct, and one entry for every
    /// slot with a current pool.
    pub open spec fn spec_pools_valid(self, pools: Seq<Pool>) -> bool {
        &&& (forall|k: int| 0 <= k < pools.len() ==> self.spec_pool_entry_valid(#[trigger] pools[k]))
        &&& (forall|k1: int, k2: int|
            0 <= k1 < k2 < pools.len() ==> self.spec_tif_index(#[trigger] pools[k1].time_in_force)
                != self.spec_tif_index(#[trigger] pools[k2].time_in_force))
        &&& (forall|i: int|
            0 <= i < MAX_POOLS ==> (#[trigger] self.current_pool_present@[i] == exists|k: int|
                0 <= k < pools.len() && self.spec_tif_index(#[trigger] pools[k].time_in_force)
                    == i))
    }

    /// Validates a caller-supplied list of candidate pool records against the
    /// pair's recorded rotation counters: it must contain exactly the current
    /// pools, one per active tenor slot, in any order.
    pub fn load_pools(&self, pools: &Vec<Pool>) -> (r: Result<(), TwammError>)
        requires
            self.wf(),
        ensures
            r == Ok::<(), TwammError>(()) <==> self.spec_pools_valid(pools@),
            r is Err ==> r == Err::<(), TwammError>(TwammError::InvalidTimeInForce) || r == Err::<
                (),
                TwammError,
            >(TwammError::InvalidPoolAddress),
    {
        let ghost s = pools@;
        let mut pools_found: Vec<bool> = Vec::new();
        let mut z: usize = 0;
        while z < MAX_POOLS
            invariant
                pools_found@.len() == z <= MAX_POOLS,
                forall|i: int| 0 <= i < z ==> !pools_found@[i],
            decreases MAX_POOLS - z,
        {
            pools_found.push(false);
            z = z + 1;
        }
        let mut k: usize = 0;
        while k < pools.len()
            invariant
                self.wf(),
                s == pools@,
                k <= pools.len(),
                pools_found@.len() == MAX_POOLS,
                forall|j: int| 0 <= j < k ==> self.spec_pool_entry_valid(#[trigger] s[j]),
                forall|j1: int, j2: int|
                    0 <= j1 < j2 < k ==> self.spec_tif_index(#[trigger] s[j1].time_in_force)
                        != self.spec_tif_index(#[trigger] s[j2].time_in_force),
                forall|i: int|
                    0 <= i < MAX_POOLS ==> (#[trigger] pools_found@[i] == exists|j: int|
                        0 <= j < k && self.spec_tif_index(#[trigger] s[j].time_in_force) == i),
            decreases pools.len() - k,
        {
            let pool = pools[k];
            let tif_idx = match self.get_tif_index(pool.time_in_force) {
                Ok(v) => v,
                Err(e) => {
                    proof {
                        assert(!self.spec_pool_entry_valid(s[k as int]));
                    }
                    return Err(e);
                },
            };
            if pools_found[tif_idx] {
                proof {
                    let j = choose|j: int|
                        0 <= j < k && self.spec_tif_index(#[trigger] s[j].time_in_force)
                            == tif_idx;
                    assert(self.spec_tif_index(s[j].time_in_force) == self.spec_tif_index(
                        s[k as int].time_in_force,
                    ));
                }
                return Err(TwammError::InvalidPoolAddress);
            }
            if pool.counter != self.pool_counters[tif_idx] {
                proof {
                    assert(!self.spec_pool_entry_valid(s[k as int]));
                }
                return Err(TwammError::InvalidPoolAddress);
            }
            pools_found[tif_idx] = true;
            k = k + 1;
        }
        let mut i: usize = 0;
        while i < MAX_POOLS
            invariant
                self.wf(),
                s == pools@,
                pools_found@.len() == MAX_POOLS,
                i <= MAX_POOLS,
                forall|j: int| 0 <= j < s.len() ==> self.spec_pool_entry_valid(#[trigger] s[j]),
                forall|j1: int, j2: int|
                    0 <= j1 < j2 < s.len() ==> self.spec_tif_index(#[trigger] s[j1].time_in_force)
                        != self.spec_tif_index(#[trigger] s[j2].time_in_force),
                forall|q: int|
                    0 <= q < MAX_POOLS ==> (#[trigger] pools_found@[q] == exists|j: int|
                        0 <= j < s.len() && self.spec_tif_index(#[trigger] s[j].time_in_force)
                            == q),
                forall|q: int|
                    0 <= q < i ==> #[trigger] self.current_pool_present@[q] == pools_found@[q],
            decreases MAX_POOLS - i,
        {
            if pools_found[i] != self.current_pool_present[i] {
                return Err(TwammError::InvalidPoolAddress);
            }
            i = i + 1;
        }
        Ok(())
    }
}

/// Parameters of an admin permissions change.
#[derive(Clone, Copy, Debug, PartialEq, Eq, Structural)]
pub struct SetPermissionsParams {
    pub allow_deposits: bool,
    pub allow_withdrawals: bool,
    pub allow_cranks: bool,
    pub allow_settlements: bool,
}

/// Parameters of an admin fee change.
#[derive(Clone, Copy, Debug, PartialEq, Eq, Structural)]
pub struct SetFeesParams {
    pub fee_numerator: u64,
    pub fee_denominator: u64,
    pub settle_fee_numerator: u64,
    pub settle_fee_denominator: u64,
    pub crank_reward_token_a: u64,
    pub crank_reward_token_b: u64,
}

/// Parameters of an admin limits change.
#[derive(Clone, Copy, Debug, PartialEq, Eq, Structural)]
pub struct SetLimitsParams {
    pub min_swap_amount_token_a: u64,
    pub min_swap_amount_token_b: u64,
    pub max_swap_price_diff: Fraction,
    pub max_unsettled_amount: Fraction,
    pub min_time_till_expiration: Fraction,
}

/// Parameters of an admin oracle configuration change.
#[derive(Clone, Copy, Debug, PartialEq, Eq, Structural)]
pub struct SetOracleConfigParams {
    pub max_oracle_price_error_token_a: Fraction,
    pub max_oracle_price_error_token_b: Fraction,
    pub max_oracle_price_age_sec_token_a: u32,
    pub max_oracle_price_age_sec_token_b: u32,
    pub oracle_type_token_a: OracleType,
    pub oracle_type_token_b: OracleType,
    pub oracle_account_token_a: u64,
    pub oracle_account_token_b: u64,
}

/// Parameters of an admin crank authority change.
#[derive(Clone, Copy, Debug, PartialEq, Eq, Structural)]
pub struct SetCrankAuthorityParams {
    pub crank_authority: u64,
}

/// Parameters of an admin tenor change.
#[derive(Clone, Copy, Debug, PartialEq, Eq, Structural)]
pub struct SetTimeInForceParams {
    pub time_in_force_index: u8,
    pub new_time_in_force: u32,
}

/// Parameters of an admin fee withdrawal.
#[derive(Clone, Copy, Debug, PartialEq, Eq, Structural)]
pub struct WithdrawFeesParams {
    pub amount_token_a: u64,
    pub amount_token_b: u64,
}

impl TokenPair {
    /// Candidate state after a permissions change.
    pub open spec fn spec_with_permissions(self, params: SetPermissionsParams) -> TokenPair {
        TokenPair {
            allow_deposits: params.allow_deposits,
            allow_withdrawals: params.allow_withdrawals,
            allow_cranks: params.allow_cranks,
            allow_settlements: params.allow_settlements,
            ..self
        }
    }

    /// Enables or disables the four flows; the invariant is re-checked and
    /// an invalid change is rejected without effect.
    pub fn set_permissions(&mut self, params: &SetPermissionsParams) -> (r: Result<(), TwammError>)
        requires
            old(self).wf(),
        ensures
            final(self).wf(),
            old(self).spec_with_permissions(*params).spec_validate() ==> r == Ok::<(), TwammError>(
                (),
            ) && *final(self) == old(self).spec_with_permissions(*params),
            !old(self).spec_with_permissions(*params).spec_validate() ==> r == Err::<
                (),
                TwammError,
            >(TwammError::InvalidTokenPairConfig) && *final(self) == *old(self),
    {
        let saved = (self.allow_deposits, self.allow_withdrawals, self.allow_cranks, self.allow_settlements);
        self.allow_deposits = params.allow_deposits;
        self.allow_withdrawals = params.allow_withdrawals;
        self.allow_cranks = params.allow_cranks;
        self.allow_settlements = params.allow_settlements;
        if self.validate() {
            Ok(())
        } else {
            self.allow_deposits = saved.0;
            self.allow_withdrawals = saved.1;
            self.allow_cranks = saved.2;
            self.allow_settlements = saved.3;
            Err(TwammError::InvalidTokenPairConfig)
        }
    }

    /// Candidate state after a fee change.
    pub open spec fn spec_with_fees(self, params: SetFeesParams) -> TokenPair {
        TokenPair {
            fee_numerator: params.fee_numerator,
            fee_denominator: params.fee_denominator,
            settle_fee_numerator: params.settle_fee_numerator,
            settle_fee_denominator: params.settle_fee_denominator,
            config_a: TokenConfig { crank_reward: params.crank_reward_token_a, ..self.config_a },
            config_b: TokenConfig { crank_reward: params.crank_reward_token_b, ..self.config_b },
            ..self
        }
    }

    /// Updates the fee fractions and crank rewards; the invariant is
    /// re-checked and an invalid change is rejected without effect.
    pub fn set_fees(&mut self, params: &SetFeesParams) -> (r: Result<(), TwammError>)
        requires
            old(self).wf(),
        ensures
            final(self).wf(),
            old(self).spec_with_fees(*params).spec_validate() ==> r == Ok::<(), TwammError>(())
                && *final(self) == old(self).spec_with_fees(*params),
            !old(self).spec_with_fees(*params).spec_validate() ==> r == Err::<(), TwammError>(
                TwammError::InvalidTokenPairConfig,
            ) && *final(self) == *old(self),
    {
        let saved = (self.fee_numerator, self.fee_denominator, self.settle_fee_numerator, self.settle_fee_denominator);
        let saved_rewards = (self.config_a.crank_reward, self.config_b.crank_reward);
        self.fee_numerator = params.fee_numerator;
        self.fee_denominator = params.fee_denominator;
        self.settle_fee_numerator = params.settle_fee_numerator;
        self.settle_fee_denominator = params.settle_fee_denominator;
        self.config_a.crank_reward = params.crank_reward_token_a;
        self.config_b.crank_reward = params.crank_reward_token_b;
        if self.validate() {
            Ok(())
        } else {
            self.fee_numerator = saved.0;
            self.fee_denominator = saved.1;
            self.settle_fee_numerator = saved.2;
            self.settle_fee_denominator = saved.3;
            self.config_a.crank_reward = saved_rewards.0;
            self.config_b.crank_reward = saved_rewards.1;
            Err(TwammError::InvalidTokenPairConfig)
        }
    }

    /// Candidate state after a limits change.
    pub open spec fn spec_with_limits(self, params: SetLimitsParams) -> TokenPair {
        TokenPair {
            max_swap_price_diff: params.max_swap_price_diff,
            max_unsettled_amount: params.max_unsettled_amount,
            min_time_till_expiration: params.min_time_till_expiration,
            config_a: TokenConfig { min_swap_amount: params.min_swap_amount_token_a, ..self.config_a },
            config_b: TokenConfig { min_swap_amount: params.min_swap_amount_token_b, ..self.config_b },
            ..self
        }
    }

    /// Updates the policy limits; the invariant is re-checked and an invalid
    /// change is rejected without effect.
    pub fn set_limits(&mut self, params: &SetLimitsParams) -> (r: Result<(), TwammError>)
        requires
            old(self).wf(),
        ensures
            final(self).wf(),
            old(self).spec_with_limits(*params).spec_validate() ==> r == Ok::<(), TwammError>(())
                && *final(self) == old(self).spec_with_limits(*params),
            !old(self).spec_with_limits(*params).spec_validate() ==> r == Err::<(), TwammError>(
                TwammError::InvalidTokenPairConfig,
            ) && *final(self) == *old(self),
    {
        let saved = (self.max_swap_price_diff, self.max_unsettled_amount, self.min_time_till_expiration);
        let saved_min = (self.config_a.min_swap_amount, self.config_b.min_swap_amount);
        self.max_swap_price_diff = params.max_swap_price_diff;
        self.max_unsettled_amount = params.max_unsettled_amount;
        self.min_time_till_expiration = params.min_time_till_expiration;
        self.config_a.min_swap_amount = params.min_swap_amount_token_a;
        self.config_b.min_swap_amount = params.min_swap_amount_token_b;
        if self.validate() {
            Ok(())
        } else {
            self.max_swap_price_diff = saved.0;
            self.max_unsettled_amount = saved.1;
            self.min_time_till_expiration = saved.2;
            self.config_a.min_swap_amount = saved_min.0;
            self.config_b.min_swap_amount = saved_min.1;
            Err(TwammError::InvalidTokenPairConfig)
        }
    }

    /// Candidate state after an oracle configuration change.
    pub open spec fn spec_with_oracle_config(self, params: SetOracleConfigParams) -> TokenPair {
        TokenPair {
            config_a: TokenConfig {
                max_oracle_price_error: params.max_oracle_price_error_token_a,
                max_oracle_price_age_sec: params.max_oracle_price_age_sec_token_a,
                oracle_type: params.oracle_type_token_a,
                oracle_account: params.oracle_account_token_a,
                ..self.config_a
            },
            config_b: TokenConfig {
                max_oracle_price_error: params.max_oracle_price_error_token_b,
                max_oracle_price_age_sec: params.max_oracle_price_age_sec_token_b,
                oracle_type: params.oracle_type_token_b,
                oracle_account: params.oracle_account_token_b,
                ..self.config_b
            },
            ..self
        }
    }

    /// Updates the oracle references; the invariant is re-checked and an
    /// invalid change is rejected without effect.
    pub fn set_oracle_config(&mut self, params: &SetOracleConfigParams) -> (r: Result<
        (),
        TwammError,
    >)
        requires
            old(self).wf(),
        ensures
            final(self).wf(),
            old(self).spec_with_oracle_config(*params).spec_validate() ==> r == Ok::<
                (),
                TwammError,
            >(()) && *final(self) == old(self).spec_with_oracle_config(*params),
            !old(self).spec_with_oracle_config(*params).spec_validate() ==> r == Err::<
                (),
                TwammError,
            >(TwammError::InvalidTokenPairConfig) && *final(self) == *old(self),
    {
        let saved_a = self.config_a;
        let saved_b = self.config_b;
        self.config_a.max_oracle_price_error = params.max_oracle_price_error_token_a;
        self.config_a.max_oracle_price_age_sec = params.max_oracle_price_age_sec_token_a;
        self.config_a.oracle_type = params.oracle_type_token_a;
        self.config_a.oracle_account = params.oracle_account_token_a;
        self.config_b.max_oracle_price_error = params.max_oracle_price_error_token_b;
        self.config_b.max_oracle_price_age_sec = params.max_oracle_price_age_sec_token_b;
        self.config_b.oracle_type = params.oracle_type_token_b;
        self.config_b.oracle_account = params.oracle_account_token_b;
        if self.validate() {
            Ok(())
        } else {
            self.config_a = saved_a;
            self.config_b = saved_b;
            Err(TwammError::InvalidTokenPairConfig)
        }
    }

    /// Sets the authority allowed to crank; zero allows anyone.
    pub fn set_crank_authority(&mut self, params: &SetCrankAuthorityParams) -> (r: Result<
        (),
        TwammError,
    >)
        ensures
            r == Ok::<(), TwammError>(()),
            *final(self) == (TokenPair { crank_authority: params.crank_authority, ..*old(self) }),
    {
        self.crank_authority = params.crank_authority;
        Ok(())
    }

    /// Replaces one supported tenor; rejected while pools for the slot exist,
    /// and the invariant is re-checked.
    pub fn set_time_in_force(&mut self, params: &SetTimeInForceParams) -> (r: Result<
        (),
        TwammError,
    >)
        requires
            old(self).wf(),
        ensures
            final(self).wf(),
            ({
                let idx = params.time_in_force_index as int;
                if idx >= MAX_POOLS {
                    r == Err::<(), TwammError>(TwammError::InvalidTimeInForce) && *final(self)
                        == *old(self)
                } else if params.new_time_in_force == old(self).tifs@[idx] {
                    r == Ok::<(), TwammError>(()) && *final(self) == *old(self)
                } else if old(self).current_pool_present@[idx] || old(self).future_pool_present@[idx] {
                    r == Err::<(), TwammError>(TwammError::InvalidPoolState) && *final(self)
                        == *old(self)
                } else {
                    let cand_tifs = old(self).tifs@.update(idx, params.new_time_in_force);
                    if old(self).spec_validate_scalars() && spec_tifs_distinct(cand_tifs) {
                        r == Ok::<(), TwammError>(()) && final(self).tifs@ == cand_tifs
                            && same_config(*old(self), *final(self)) && same_slots(
                            *old(self),
                            *final(self),
                        )
                    } else {
                        r == Err::<(), TwammError>(TwammError::InvalidTokenPairConfig) && final(self).tifs@ == old(self).tifs@ && same_config(*old(self), *final(self))
                            && same_slots(*old(self), *final(self))
                    }
                }
            }),
    {
        let index = params.time_in_force_index as usize;
        if index >= MAX_POOLS {
            return Err(TwammError::InvalidTimeInForce);
        }
        if params.new_time_in_force == self.tifs[index] {
            return Ok(());
        }
        if self.current_pool_present[index] || self.future_pool_present[index] {
            return Err(TwammError::InvalidPoolState);
        }
        let saved = self.tifs[index];
        self.tifs[index] = params.new_time_in_force;
        if self.validate() {
            Ok(())
        } else {
            self.tifs[index] = saved;
            proof {
                assert(self.tifs@ =~= old(self).tifs@);
            }
            Err(TwammError::InvalidTokenPairConfig)
        }
    }

    /// Removes withdrawn fee amounts from the collected-fee statistics,
    /// failing without effect when more is requested than was collected.
    pub fn withdraw_fees(&mut self, params: &WithdrawFeesParams) -> (r: Result<(), TwammError>)
        ensures
            old(self).stats_a.fees_collected >= params.amount_token_a && old(self).stats_b.fees_collected >= params.amount_token_b ==> r == Ok::<(), TwammError>(())
                && *final(self) == (TokenPair {
                stats_a: TokenStats {
                    fees_collected: (old(self).stats_a.fees_collected - params.amount_token_a) as u64,
                    ..old(self).stats_a
                },
                stats_b: TokenStats {
                    fees_collected: (old(self).stats_b.fees_collected - params.amount_token_b) as u64,
                    ..old(self).stats_b
                },
                ..*old(self)
            }),
            old(self).stats_a.fees_collected < params.amount_token_a || old(self).stats_b.fees_collected < params.amount_token_b ==> r == Err::<(), TwammError>(
                TwammError::InsufficientFunds,
            ) && *final(self) == *old(self),
    {
        if self.stats_a.fees_collected < params.amount_token_a || self.stats_b.fees_collected
            < params.amount_token_b {
            return Err(TwammError::InsufficientFunds);
        }
        self.stats_a.fees_collected = self.stats_a.fees_collected - params.amount_token_a;
        self.stats_b.fees_collected = self.stats_b.fees_collected - params.amount_token_b;
        Ok(())
    }
}

impl TokenPair {
    /// The four USD conversions of a trade-statistics update stay within
    /// the machine widths.
    pub open spec fn spec_trade_stats_ok(self, s: Settlement, price_a: OraclePrice, price_b: OraclePrice) -> bool {
        &&& (s.settlement_side == MatchingSide::Sell
            ==> crate::oracle::spec_asset_amount_usd_ok(
            s.net_amount_settled,
            self.config_a.decimals,
            price_a,
        ))
        &&& (s.settlement_side == MatchingSide::Buy ==> crate::oracle::spec_asset_amount_usd_ok(
            s.net_amount_settled,
            self.config_b.decimals,
            price_b,
        ))
        &&& crate::oracle::spec_asset_amount_usd_ok(
            s.total_amount_settled_a,
            self.config_a.decimals,
            price_a,
        )
        &&& crate::oracle::spec_asset_amount_usd_ok(
            s.total_amount_settled_b,
            self.config_b.decimals,
            price_b,
        )
    }

    /// The statistics after a trade-statistics update: the settled side's
    /// routed or settled USD volume and both order USD volumes grow by the
    /// settlement's USD value, wrapping on overflow as running totals.
    pub open spec fn spec_with_trade_stats(self, s: Settlement, t: SettlementType, price_a: OraclePrice, price_b: OraclePrice) -> TokenPair {
        let usd_net_a = crate::oracle::spec_asset_amount_usd(
            s.net_amount_settled,
            self.config_a.decimals,
            price_a,
        ) as u64;
        let usd_net_b = crate::oracle::spec_asset_amount_usd(
            s.net_amount_settled,
            self.config_b.decimals,
            price_b,
        ) as u64;
        let usd_tot_a = crate::oracle::spec_asset_amount_usd(
            s.total_amount_settled_a,
            self.config_a.decimals,
            price_a,
        ) as u64;
        let usd_tot_b = crate::oracle::spec_asset_amount_usd(
            s.total_amount_settled_b,
            self.config_b.decimals,
            price_b,
        ) as u64;
        TokenPair {
            stats_a: TokenStats {
                routed_volume_usd: if s.settlement_side == MatchingSide::Sell && t
                    == SettlementType::Crank {
                    math::wrap_add_val(self.stats_a.routed_volume_usd, usd_net_a) as u64
                } else {
                    self.stats_a.routed_volume_usd
                },
                settled_volume_usd: if s.settlement_side == MatchingSide::Sell && t
                    == SettlementType::Settlement {
                    math::wrap_add_val(self.stats_a.settled_volume_usd, usd_net_a) as u64
                } else {
                    self.stats_a.settled_volume_usd
                },
                order_volume_usd: math::wrap_add_val(
                    self.stats_a.order_volume_usd,
                    usd_tot_a,
                ) as u64,
                ..self.stats_a
            },
            stats_b: TokenStats {
                routed_volume_usd: if s.settlement_side == MatchingSide::Buy && t
                    == SettlementType::Crank {
                    math::wrap_add_val(self.stats_b.routed_volume_usd, usd_net_b) as u64
                } else {
                    self.stats_b.routed_volume_usd
                },
                settled_volume_usd: if s.settlement_side == MatchingSide::Buy && t
                    == SettlementType::Settlement {
                    math::wrap_add_val(self.stats_b.settled_volume_usd, usd_net_b) as u64
                } else {
                    self.stats_b.settled_volume_usd
                },
                order_volume_usd: math::wrap_add_val(
                    self.stats_b.order_volume_usd,
                    usd_tot_b,
                ) as u64,
                ..self.stats_b
            },
            ..self
        }
    }

    /// Adds a settlement's USD values to the pair's volume statistics,
    /// valued at the two tokens' oracle prices: the settled side's routed
    /// (crank) or settled (external) volume, and both sides' order volume.
    /// On any conversion overflow nothing is changed.
    pub fn update_trade_stats(
        &mut self,
        settlement: &Settlement,
        settlement_type: SettlementType,
        price_a: OraclePrice,
        price_b: OraclePrice,
    ) -> (r: Result<(), TwammError>)
        ensures
            old(self).spec_trade_stats_ok(*settlement, price_a, price_b) ==> r == Ok::<
                (),
                TwammError,
            >(()) && *final(self) == old(self).spec_with_trade_stats(
                *settlement,
                settlement_type,
                price_a,
                price_b,
            ),
            !old(self).spec_trade_stats_ok(*settlement, price_a, price_b) ==> r == Err::<
                (),
                TwammError,
            >(TwammError::MathOverflow) && *final(self) == *old(self),
    {
        let usd_net: u64 = if settlement.settlement_side == MatchingSide::Sell {
            crate::oracle::get_asset_amount_usd(
                settlement.net_amount_settled,
                self.config_a.decimals,
                price_a,
            )?
        } else if settlement.settlement_side == MatchingSide::Buy {
            crate::oracle::get_asset_amount_usd(
                settlement.net_amount_settled,
                self.config_b.decimals,
                price_b,
            )?
        } else {
            0
        };
        let usd_tot_a = crate::oracle::get_asset_amount_usd(
            settlement.total_amount_settled_a,
            self.config_a.decimals,
            price_a,
        )?;
        let usd_tot_b = crate::oracle::get_asset_amount_usd(
            settlement.total_amount_settled_b,
            self.config_b.decimals,
            price_b,
        )?;
        if settlement.settlement_side == MatchingSide::Sell {
            if settlement_type == SettlementType::Crank {
                self.stats_a.routed_volume_usd = math::wrapping_add_u64(
                    self.stats_a.routed_volume_usd,
                    usd_net,
                );
            } else {
                self.stats_a.settled_volume_usd = math::wrapping_add_u64(
                    self.stats_a.settled_volume_usd,
                    usd_net,
                );
            }
        } else if settlement.settlement_side == MatchingSide::Buy {
            if settlement_type == SettlementType::Crank {
                self.stats_b.routed_volume_usd = math::wrapping_add_u64(
                    self.stats_b.routed_volume_usd,
                    usd_net,
                );
            } else {
                self.stats_b.settled_volume_usd = math::wrapping_add_u64(
                    self.stats_b.settled_volume_usd,
                    usd_net,
                );
            }
        }
        self.stats_a.order_volume_usd = math::wrapping_add_u64(
            self.stats_a.order_volume_usd,
            usd_tot_a,
        );
        self.stats_b.order_volume_usd = math::wrapping_add_u64(
            self.stats_b.order_volume_usd,
            usd_tot_b,
        );
        Ok(())
    }
}

} // verus!
