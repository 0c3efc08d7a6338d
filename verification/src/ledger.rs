//! Per-participant position accounting: deposits into and withdrawals from a
//! pool side, with share minting, burning and debt tracking.

use vstd::prelude::*;

use crate::error::TwammError;
use crate::math;
use crate::math::ceil_div_val;
use crate::order::{Order, OrderSide};
use crate::pool::{Pool, PoolSide, PoolStatus};
use crate::token_pair::{TokenPair, TokenStats};

verus! {

/// Parameters of a deposit.
#[derive(Clone, Copy, Debug, PartialEq, Eq, Structural)]
pub struct PlaceOrderParams {
    pub side: OrderSide,
    pub time_in_force: u32,
    pub amount: u64,
}

/// Parameters of a withdrawal.
#[derive(Clone, Copy, Debug, PartialEq, Eq, Structural)]
pub struct CancelOrderParams {
    pub lp_amount: u64,
}

/// A pool side with no balances, as a pool is first created.
pub open spec fn empty_side() -> PoolSide {
    PoolSide {
        source_balance: 0,
        target_balance: 0,
        lp_supply: 0,
        token_debt_total: 0,
        fills_volume: 0,
        num_traders: 0,
        settlement_debt_total: 0,
        last_balance_change_time: 0,
    }
}

/// Shares minted for a deposit of `amount`: pro-rata against the source
/// balance, or one share per unit into an empty side.
pub open spec fn spec_deposit_lp(side: PoolSide, amount: u64) -> int {
    if side.source_balance == 0 {
        amount as int
    } else {
        amount * side.lp_supply / side.source_balance as int
    }
}

/// Debt charged for a deposit of `amount`: the deposit's share of proceeds
/// already owed, rounded up so existing depositors are never diluted.
pub open spec fn spec_deposit_debt(side: PoolSide, amount: u64) -> int {
    if side.source_balance == 0 {
        0
    } else {
        ceil_div_val(amount * (side.target_balance + side.token_debt_total), side.source_balance as int)
    }
}

/// A deposit is rejected into a side that has fully matched and awaits
/// finalization.
pub open spec fn spec_deposit_rejected(side: PoolSide) -> bool {
    side.source_balance == 0 && side.target_balance != 0 && side.num_traders != 0
}

/// All intermediate products of a deposit fit the 128-bit width and all
/// narrowing steps stay within 64 bits.
pub open spec fn spec_deposit_ok(side: PoolSide, order: Order, amount: u64, expiration: int, now: int) -> bool {
    &&& spec_deposit_lp(side, amount) <= u64::MAX
    &&& (side.source_balance != 0 ==> amount * (side.target_balance + side.token_debt_total)
        <= u128::MAX)
    &&& spec_deposit_debt(side, amount) <= u64::MAX
    &&& side.spec_unsettled_ok(expiration, now)
    &&& side.source_balance + amount <= u64::MAX
    &&& side.lp_supply + spec_deposit_lp(side, amount) <= u64::MAX
    &&& side.token_debt_total + spec_deposit_debt(side, amount) <= u64::MAX
    &&& (order.lp_balance == 0 ==> side.num_traders + 1 <= u64::MAX)
    &&& (order.lp_balance != 0 ==> order.spec_unsettled_ok(expiration, now))
    &&& (order.lp_balance != 0 ==> order.lp_balance + spec_deposit_lp(side, amount) <= u64::MAX)
    &&& (order.lp_balance != 0 ==> order.token_debt + spec_deposit_debt(side, amount) <= u64::MAX)
    &&& (order.lp_balance != 0 ==> order.unsettled_balance + amount <= u64::MAX)
}

/// The pool side after a deposit: decay cache refreshed from the state
/// before the deposit, then the balance, share and debt totals increased.
pub open spec fn spec_deposit_side(side: PoolSide, order: Order, amount: u64, expiration: int, now: int) -> PoolSide {
    PoolSide {
        source_balance: (side.source_balance + amount) as u64,
        lp_supply: (side.lp_supply + spec_deposit_lp(side, amount)) as u64,
        token_debt_total: (side.token_debt_total + spec_deposit_debt(side, amount)) as u64,
        num_traders: if order.lp_balance == 0 {
            (side.num_traders + 1) as u64
        } else {
            side.num_traders
        },
        settlement_debt_total: side.spec_unsettled(expiration, now) as u64,
        last_balance_change_time: now as i64,
        ..side
    }
}

/// The order after a deposit; a fresh order takes the deposit's side and the
/// current time as its creation time.
pub open spec fn spec_deposit_order(side: PoolSide, order: Order, params: PlaceOrderParams, expiration: int, now: int) -> Order {
    let base = if order.lp_balance == 0 {
        Order {
            time: now as i64,
            side: params.side,
            lp_balance: 0,
            token_debt: 0,
            unsettled_balance: 0,
            settlement_debt: 0,
            last_balance_change_time: now as i64,
        }
    } else {
        order
    };
    Order {
        lp_balance: (base.lp_balance + spec_deposit_lp(side, params.amount)) as u64,
        token_debt: (base.token_debt + spec_deposit_debt(side, params.amount)) as u64,
        settlement_debt: base.spec_unsettled(expiration, now) as u64,
        unsettled_balance: (base.unsettled_balance + params.amount) as u64,
        last_balance_change_time: now as i64,
        ..base
    }
}

/// A freshly created pool for a slot: active, with the given tenor,
/// expiration and rotation counter, and empty sides.
pub open spec fn fresh_pool(time_in_force: u32, expiration: int, counter: u64) -> Pool {
    Pool {
        status: PoolStatus::Active,
        time_in_force,
        expiration_time: expiration as i64,
        buy_side: empty_side(),
        sell_side: empty_side(),
        counter,
    }
}

/// The side of a pool a deposit goes to.
pub open spec fn side_of(pool: Pool, side: OrderSide) -> PoolSide {
    if side == OrderSide::Buy {
        pool.buy_side
    } else {
        pool.sell_side
    }
}

/// `pool` with the side for `side` replaced by `ps`.
pub open spec fn with_side(pool: Pool, side: OrderSide, ps: PoolSide) -> Pool {
    if side == OrderSide::Buy {
        Pool { buy_side: ps, ..pool }
    } else {
        Pool { sell_side: ps, ..pool }
    }
}

/// Creating or staging the target pool stays within the machine widths.
pub open spec fn spec_target_pool_ok(
    token_pair: TokenPair,
    pool: Pool,
    params: PlaceOrderParams,
    is_future_pool: bool,
    current_pool_expiration: int,
    now: int,
) -> bool {
    let idx = token_pair.spec_tif_index(params.time_in_force);
    if !is_future_pool {
        !token_pair.current_pool_present@[idx] ==> now + params.time_in_force <= i64::MAX
    } else {
        pool.expiration_time == 0 ==> current_pool_expiration + params.time_in_force <= i64::MAX
            && token_pair.pool_counters@[idx] + 1 <= u64::MAX
    }
}

/// All conditions under which a deposit goes through.
pub open spec fn spec_place_order_accepts(
    token_pair: TokenPair,
    pool: Pool,
    order: Order,
    params: PlaceOrderParams,
    is_future_pool: bool,
    current_pool_expiration: int,
    now: int,
) -> bool {
    let idx = token_pair.spec_tif_index(params.time_in_force);
    let pool1 = spec_target_pool(
        token_pair,
        pool,
        params,
        is_future_pool,
        current_pool_expiration,
        now,
    );
    let side0 = side_of(pool1, params.side);
    let pool2 = spec_updated_pool(pool1, token_pair, now);
    &&& params.amount > 0
    &&& token_pair.allow_deposits
    &&& params.time_in_force != 0 && idx >= 0
    &&& (order.lp_balance == 0 || order.side == params.side)
    &&& spec_target_pool_ok(token_pair, pool, params, is_future_pool, current_pool_expiration, now)
    &&& pool2.status != PoolStatus::Locked && pool2.status != PoolStatus::Expired
    &&& !spec_deposit_rejected(side0)
    &&& spec_deposit_ok(side0, order, params.amount, pool2.expiration_time as int, now)
}

/// Deposits `params.amount` into the pool for `params.time_in_force`.
///
/// The target pool is created (or, for a staged next pool, configured) when
/// absent, the pool state is advanced and checked, shares and debt are
/// computed pro-rata against the state before the deposit, the side's decay
/// cache is refreshed, and the order is created or increased.  On any error
/// nothing is changed.  `is_future_pool` says whether the deposit goes into
/// the staged next pool rather than the current one;
/// `current_pool_expiration` is the current pool's expiration, from which a
/// staged pool's expiration follows.
#[verifier::rlimit(100)]
#[verifier::spinoff_prover]
pub fn place_order(
    token_pair: &mut TokenPair,
    pool: &mut Pool,
    order: &mut Order,
    params: &PlaceOrderParams,
    is_future_pool: bool,
    current_pool_expiration: i64,
    current_time: i64,
) -> (r: Result<(), TwammError>)
    requires
        old(token_pair).wf(),
        old(pool).wf(),
        old(order).wf(),
        0 <= current_time,
        0 <= current_pool_expiration,
        old(token_pair).min_time_till_expiration.wf(),
        params.time_in_force > 0 ==> old(pool).time_in_force == params.time_in_force || (
        !is_future_pool && !old(token_pair).current_pool_present@[old(token_pair).spec_tif_index(
            params.time_in_force,
        )]) || (is_future_pool && old(pool).expiration_time == 0),
        is_future_pool ==> old(token_pair).spec_tif_index(params.time_in_force) < 0 || old(token_pair).current_pool_present@[old(token_pair).spec_tif_index(params.time_in_force)],
    ensures
        final(token_pair).wf(),
        final(pool).wf(),
        r is Err ==> *final(token_pair) == *old(token_pair) && *final(pool) == *old(pool) && *final(order) == *old(order),
        r is Ok <==> spec_place_order_accepts(
            *old(token_pair),
            *old(pool),
            *old(order),
            *params,
            is_future_pool,
            current_pool_expiration as int,
            current_time as int,
        ),
        params.amount == 0 ==> r == Err::<(), TwammError>(TwammError::InvalidTokenAmount),
        params.amount != 0 && !old(token_pair).allow_deposits ==> r == Err::<(), TwammError>(
            TwammError::DepositsNotAllowed,
        ),
        params.amount != 0 && old(token_pair).allow_deposits && (params.time_in_force == 0 || old(
            token_pair,
        ).spec_tif_index(params.time_in_force) < 0) ==> r == Err::<(), TwammError>(
            TwammError::InvalidTimeInForce,
        ),
        ({
            let idx = old(token_pair).spec_tif_index(params.time_in_force);
            let pool1 = spec_target_pool(
                *old(token_pair),
                *old(pool),
                *params,
                is_future_pool,
                current_pool_expiration as int,
                current_time as int,
            );
            let side0 = side_of(pool1, params.side);
            let pool2 = spec_updated_pool(pool1, *old(token_pair), current_time as int);
            let early_ok = params.amount != 0 && old(token_pair).allow_deposits
                && params.time_in_force != 0 && idx >= 0;
            let target_ok = spec_target_pool_ok(
                *old(token_pair),
                *old(pool),
                *params,
                is_future_pool,
                current_pool_expiration as int,
                current_time as int,
            );
            &&& (early_ok && old(order).lp_balance != 0 && old(order).side != params.side ==> r
                == Err::<(), TwammError>(TwammError::OrderSideMismatch))
            &&& (early_ok && (old(order).lp_balance == 0 || old(order).side == params.side)
                && !target_ok ==> r == Err::<(), TwammError>(TwammError::MathOverflow))
            &&& (early_ok && (old(order).lp_balance == 0 || old(order).side == params.side)
                && target_ok && pool2.status == PoolStatus::Locked ==> r == Err::<(), TwammError>(
                TwammError::LockedPool,
            ))
            &&& (early_ok && (old(order).lp_balance == 0 || old(order).side == params.side)
                && target_ok && pool2.status == PoolStatus::Expired ==> r == Err::<(), TwammError>(
                TwammError::ExpiredPool,
            ))
            &&& (early_ok && (old(order).lp_balance == 0 || old(order).side == params.side)
                && target_ok && pool2.status != PoolStatus::Locked && pool2.status
                != PoolStatus::Expired && spec_deposit_rejected(side0) ==> r == Err::<
                (),
                TwammError,
            >(TwammError::InvalidPoolState))
            &&& (early_ok && (old(order).lp_balance == 0 || old(order).side == params.side)
                && target_ok && pool2.status != PoolStatus::Locked && pool2.status
                != PoolStatus::Expired && !spec_deposit_rejected(side0) && !spec_deposit_ok(
                side0,
                *old(order),
                params.amount,
                pool2.expiration_time as int,
                current_time as int,
            ) ==> r == Err::<(), TwammError>(TwammError::MathOverflow))
        }),
        r is Ok ==> ({
            let idx = old(token_pair).spec_tif_index(params.time_in_force);
            let pool1 = spec_target_pool(
                *old(token_pair),
                *old(pool),
                *params,
                is_future_pool,
                current_pool_expiration as int,
                current_time as int,
            );
            let side0 = side_of(pool1, params.side);
            let pool2 = spec_updated_pool(pool1, *old(token_pair), current_time as int);
            &&& params.amount > 0
            &&& old(token_pair).allow_deposits
            &&& params.time_in_force != 0 && idx >= 0
            &&& (old(order).lp_balance == 0 || old(order).side == params.side)
            &&& pool2.status != PoolStatus::Locked && pool2.status != PoolStatus::Expired
            &&& !spec_deposit_rejected(side0)
            &&& spec_deposit_ok(
                side0,
                *old(order),
                params.amount,
                pool2.expiration_time as int,
                current_time as int,
            )
            &&& *final(pool) == with_side(
                pool2,
                params.side,
                spec_deposit_side(
                    side0,
                    *old(order),
                    params.amount,
                    pool2.expiration_time as int,
                    current_time as int,
                ),
            )
            &&& *final(order) == spec_deposit_order(
                side0,
                *old(order),
                *params,
                pool2.expiration_time as int,
                current_time as int,
            )
            &&& final(token_pair).tifs@ == old(token_pair).tifs@
            &&& final(token_pair).pool_counters@ == old(token_pair).pool_counters@
            &&& crate::token_pair::same_config(*old(token_pair), *final(token_pair))
            &&& final(token_pair).stats_a == old(token_pair).stats_a
            &&& final(token_pair).stats_b == old(token_pair).stats_b
            &&& (if is_future_pool {
                final(token_pair).future_pool_present@ == old(token_pair).future_pool_present@.update(idx, true) && final(token_pair).current_pool_present@
                    == old(token_pair).current_pool_present@
            } else {
                final(token_pair).current_pool_present@ == old(token_pair).current_pool_present@.update(idx, true) && final(token_pair).future_pool_present@
                    == old(token_pair).future_pool_present@
            })
        }),
{
    if params.amount == 0 {
        return Err(TwammError::InvalidTokenAmount);
    }
    if !token_pair.allow_deposits {
        return Err(TwammError::DepositsNotAllowed);
    }
    let tif_index = token_pair.get_tif_index(params.time_in_force)?;
    if order.lp_balance != 0 && order.side != params.side {
        return Err(TwammError::OrderSideMismatch);
    }

    // Create or configure the target pool when absent, in a working copy.
    let mut work_pool: Pool = *pool;
    if !is_future_pool {
        if !token_pair.current_pool_present[tif_index] {
            let expiration = math::checked_add_i64(current_time, params.time_in_force as i64)?;
            work_pool = Pool {
                status: PoolStatus::Active,
                time_in_force: params.time_in_force,
                expiration_time: expiration,
                buy_side: PoolSide {
                    source_balance: 0,
                    target_balance: 0,
                    lp_supply: 0,
                    token_debt_total: 0,
                    fills_volume: 0,
                    num_traders: 0,
                    settlement_debt_total: 0,
                    last_balance_change_time: 0,
                },
                sell_side: PoolSide {
                    source_balance: 0,
                    target_balance: 0,
                    lp_supply: 0,
                    token_debt_total: 0,
                    fills_volume: 0,
                    num_traders: 0,
                    settlement_debt_total: 0,
                    last_balance_change_time: 0,
                },
                counter: token_pair.pool_counters[tif_index],
            };
        }
    } else {
        if work_pool.expiration_time == 0 {
            let expiration = math::checked_add_i64(
                current_pool_expiration,
                params.time_in_force as i64,
            )?;
            let future_counter = math::checked_add_u64(token_pair.pool_counters[tif_index], 1)?;
            work_pool = Pool {
                status: PoolStatus::Active,
                time_in_force: params.time_in_force,
                expiration_time: expiration,
                buy_side: PoolSide {
                    source_balance: 0,
                    target_balance: 0,
                    lp_supply: 0,
                    token_debt_total: 0,
                    fills_volume: 0,
                    num_traders: 0,
                    settlement_debt_total: 0,
                    last_balance_change_time: 0,
                },
                sell_side: PoolSide {
                    source_balance: 0,
                    target_balance: 0,
                    lp_supply: 0,
                    token_debt_total: 0,
                    fills_volume: 0,
                    num_traders: 0,
                    settlement_debt_total: 0,
                    last_balance_change_time: 0,
                },
                counter: future_counter,
            };
        }
    }

    // Advance and check the pool state.
    match work_pool.update_state(&token_pair.min_time_till_expiration, current_time) {
        PoolStatus::Locked => {
            return Err(TwammError::LockedPool);
        },
        PoolStatus::Expired => {
            return Err(TwammError::ExpiredPool);
        },
        _ => {},
    }

    // Compute share and debt amounts against the state before the deposit.
    let expiration_time = work_pool.expiration_time;
    let side0 = if params.side == OrderSide::Buy {
        work_pool.buy_side
    } else {
        work_pool.sell_side
    };
    let lp_amount: u64;
    let debt_amount: u64;
    if side0.source_balance == 0 {
        if side0.target_balance != 0 && side0.num_traders != 0 {
            return Err(TwammError::InvalidPoolState);
        }
        lp_amount = params.amount;
        debt_amount = 0;
    } else {
        proof {
            assert(params.amount as int * side0.lp_supply as int <= u128::MAX) by (nonlinear_arith)
                requires
                    params.amount <= u64::MAX && side0.lp_supply <= u64::MAX,
            ;
        }
        let lp128 = (params.amount as u128) * (side0.lp_supply as u128) / (side0.source_balance
            as u128);
        proof {
            assert((params.amount as int * side0.lp_supply as int) / (side0.source_balance as int)
                <= u128::MAX) by (nonlinear_arith)
                requires
                    side0.source_balance >= 1 && 0 <= params.amount as int * side0.lp_supply as int
                        <= u128::MAX,
            ;
        }
        lp_amount = math::checked_as_u64(lp128)?;
        let owed = (side0.target_balance as u128) + (side0.token_debt_total as u128);
        let prod = math::checked_mul_u128(params.amount as u128, owed)?;
        let debt128 = match math::checked_ceil_div_u128(prod, side0.source_balance as u128) {
            Ok(v) => v,
            Err(_) => {
                proof {
                    assert(false);
                }
                return Err(TwammError::MathOverflow);
            },
        };
        debt_amount = math::checked_as_u64(debt128)?;
    }

    // Refresh the side's decay cache and apply the deposit to local copies.
    let new_debt_cache = side0.get_unsettled_amount(expiration_time, current_time)?;
    let new_source = math::checked_add_u64(side0.source_balance, params.amount)?;
    let new_lp_supply = math::checked_add_u64(side0.lp_supply, lp_amount)?;
    let new_debt_total = math::checked_add_u64(side0.token_debt_total, debt_amount)?;
    let new_num_traders = if order.lp_balance == 0 {
        math::checked_add_u64(side0.num_traders, 1)?
    } else {
        side0.num_traders
    };

    let base_order: Order = if order.lp_balance == 0 {
        Order {
            time: current_time,
            side: params.side,
            lp_balance: 0,
            token_debt: 0,
            unsettled_balance: 0,
            settlement_debt: 0,
            last_balance_change_time: current_time,
        }
    } else {
        *order
    };
    let new_order_lp = math::checked_add_u64(base_order.lp_balance, lp_amount)?;
    let new_order_debt = math::checked_add_u64(base_order.token_debt, debt_amount)?;
    proof {
        if order.lp_balance == 0 {
            crate::decay::lemma_unsettled_zero(
                current_time as int,
                expiration_time as int,
                current_time as int,
            );
        }
    }
    let new_order_cache = base_order.get_unsettled_amount(expiration_time, current_time)?;
    let new_order_unsettled = math::checked_add_u64(base_order.unsettled_balance, params.amount)?;

    // Commit.
    let new_side = PoolSide {
        source_balance: new_source,
        lp_supply: new_lp_supply,
        token_debt_total: new_debt_total,
        num_traders: new_num_traders,
        settlement_debt_total: new_debt_cache,
        last_balance_change_time: current_time,
        ..side0
    };
    if params.side == OrderSide::Buy {
        work_pool.buy_side = new_side;
    } else {
        work_pool.sell_side = new_side;
    }
    *pool = work_pool;
    *order = Order {
        lp_balance: new_order_lp,
        token_debt: new_order_debt,
        settlement_debt: new_order_cache,
        unsettled_balance: new_order_unsettled,
        last_balance_change_time: current_time,
        ..base_order
    };
    if is_future_pool {
        token_pair.future_pool_present[tif_index] = true;
    } else {
        token_pair.current_pool_present[tif_index] = true;
    }
    Ok(())
}

/// The target pool of a deposit after any creation or staging: unchanged
/// when it already exists, otherwise fresh for the slot.
pub open spec fn spec_target_pool(
    token_pair: TokenPair,
    pool: Pool,
    params: PlaceOrderParams,
    is_future_pool: bool,
    current_pool_expiration: int,
    now: int,
) -> Pool {
    let idx = token_pair.spec_tif_index(params.time_in_force);
    if !is_future_pool {
        if !token_pair.current_pool_present@[idx] {
            fresh_pool(
                params.time_in_force,
                now + params.time_in_force,
                token_pair.pool_counters@[idx],
            )
        } else {
            pool
        }
    } else {
        if pool.expiration_time == 0 {
            fresh_pool(
                params.time_in_force,
                current_pool_expiration + params.time_in_force,
                (token_pair.pool_counters@[idx] + 1) as u64,
            )
        } else {
            pool
        }
    }
}

/// A pool after its lifecycle state is advanced at `now`.
pub open spec fn spec_updated_pool(pool: Pool, token_pair: TokenPair, now: int) -> Pool {
    Pool {
        status: if pool.spec_is_locked(token_pair.min_time_till_expiration, now) {
            if pool.spec_is_expired(now) {
                PoolStatus::Expired
            } else {
                PoolStatus::Locked
            }
        } else {
            pool.status
        },
        ..pool
    }
}

/// A zeroed order, as left behind once fully withdrawn.
pub open spec fn empty_order() -> Order {
    Order {
        time: 0,
        side: OrderSide::Buy,
        lp_balance: 0,
        token_debt: 0,
        unsettled_balance: 0,
        settlement_debt: 0,
        last_balance_change_time: 0,
    }
}

/// A zeroed pool, as left behind once drained and rotated out.
pub open spec fn empty_pool() -> Pool {
    Pool {
        status: PoolStatus::Active,
        time_in_force: 0,
        expiration_time: 0,
        buy_side: empty_side(),
        sell_side: empty_side(),
        counter: 0,
    }
}

/// Effective shares burnt: the request capped by the balance, or the whole
/// balance once the pool is complete.
pub open spec fn spec_withdraw_lp(order: Order, requested: u64, pool_complete: bool) -> int {
    if requested > order.lp_balance || pool_complete {
        order.lp_balance as int
    } else {
        requested as int
    }
}

/// Principal paid out for `lp` shares, pro-rata against the source balance.
pub open spec fn spec_withdraw_source(side: PoolSide, lp: int) -> int {
    lp * side.source_balance / side.lp_supply as int
}

/// Gross debt removed for `lp` shares, rounded up.
pub open spec fn spec_withdraw_debt(order: Order, lp: int) -> int {
    ceil_div_val(order.token_debt * lp, order.lp_balance as int)
}

/// Target share for `lp` shares before the debt deduction.
pub open spec fn spec_withdraw_target_gross(side: PoolSide, lp: int) -> int {
    lp * (side.target_balance + side.token_debt_total) / side.lp_supply as int
}

/// Proceeds paid out: the target share less the debt removed, clamped at
/// zero since rounding may make the debt exceed the share.
pub open spec fn spec_withdraw_target(side: PoolSide, order: Order, lp: int) -> int {
    let gross = spec_withdraw_target_gross(side, lp);
    let debt = spec_withdraw_debt(order, lp);
    if gross > debt {
        gross - debt
    } else {
        0
    }
}

/// Withdrawal fee on the proceeds, rounded up.
pub open spec fn spec_withdraw_fees(pair: TokenPair, target_out: int) -> int {
    ceil_div_val(target_out * pair.fee_numerator, pair.fee_denominator as int)
}

/// Debt actually removed from the order: clamped by what it still owes when
/// the withdrawal is partial.
pub open spec fn spec_withdraw_debt_clamped(order: Order, lp: int) -> int {
    let d = spec_withdraw_debt(order, lp);
    if order.lp_balance == lp {
        d
    } else if order.token_debt < d {
        order.token_debt as int
    } else {
        d
    }
}

/// Share of the order's refreshed decay cache that leaves with `lp` shares.
pub open spec fn spec_withdraw_order_debt_removed(order: Order, lp: int, expiration: int, now: int) -> int {
    let cache = order.spec_unsettled(expiration, now);
    if order.lp_balance == lp {
        cache
    } else {
        cache * lp / order.lp_balance as int
    }
}

/// Whether `Pool::is_complete` can decide without overflowing.
pub open spec fn spec_complete_defined(pool: Pool, now: int) -> bool {
    pool.spec_is_expired(now) && !(pool.buy_side.source_balance == 0
        && pool.sell_side.source_balance == 0) ==> pool.expiration_time + pool.spec_grace()
        <= i64::MAX
}

/// The order after a partial withdrawal from `side`.
pub open spec fn spec_withdrawn_order(order: Order, side: PoolSide, lp: int, expiration: int, now: int) -> Order {
    let cache = order.spec_unsettled(expiration, now);
    let removed = spec_withdraw_order_debt_removed(order, lp, expiration, now);
    Order {
        lp_balance: (order.lp_balance - lp) as u64,
        token_debt: (order.token_debt - spec_withdraw_debt_clamped(order, lp)) as u64,
        settlement_debt: (cache - removed) as u64,
        unsettled_balance: (order.unsettled_balance - spec_withdraw_source(side, lp)) as u64,
        last_balance_change_time: now as i64,
        ..order
    }
}

/// The side's decay cache is refreshed over the post-withdrawal source
/// balance, so it never exceeds the remaining principal.
pub open spec fn spec_withdrawn_cache_base(side: PoolSide, lp: int, expiration: int, now: int) -> int {
    (PoolSide {
        source_balance: (side.source_balance - spec_withdraw_source(side, lp)) as u64,
        ..side
    }).spec_unsettled(expiration, now)
}

/// The pool side after a withdrawal of `lp` shares.
pub open spec fn spec_withdrawn_side(side: PoolSide, order: Order, lp: int, expiration: int, now: int) -> PoolSide {
    let removed = spec_withdraw_order_debt_removed(order, lp, expiration, now);
    let cache = spec_withdrawn_cache_base(side, lp, expiration, now);
    PoolSide {
        source_balance: (side.source_balance - spec_withdraw_source(side, lp)) as u64,
        target_balance: (side.target_balance - spec_withdraw_target(side, order, lp)) as u64,
        lp_supply: (side.lp_supply - lp) as u64,
        token_debt_total: (side.token_debt_total - spec_withdraw_debt_clamped(order, lp)) as u64,
        num_traders: if order.lp_balance == lp {
            (side.num_traders - 1) as u64
        } else {
            side.num_traders
        },
        settlement_debt_total: (if cache >= removed {
            cache - removed
        } else {
            0
        }) as u64,
        last_balance_change_time: now as i64,
        ..side
    }
}

/// All conditions under which a withdrawal goes through.
pub open spec fn spec_cancel_order_accepts(
    pair: TokenPair,
    pool: Pool,
    order: Order,
    params: CancelOrderParams,
    is_owner: bool,
    now: int,
) -> bool {
    let complete = pool.spec_is_complete(now);
    let lp = spec_withdraw_lp(order, params.lp_amount, complete);
    let side0 = side_of(pool, order.side);
    let exp = pool.expiration_time as int;
    let was = spec_withdraw_source(side0, lp);
    let gross = spec_withdraw_target_gross(side0, lp);
    let wat = spec_withdraw_target(side0, order, lp);
    let fees = spec_withdraw_fees(pair, wat);
    let tdr = spec_withdraw_debt_clamped(order, lp);
    &&& params.lp_amount > 0
    &&& pair.allow_withdrawals
    &&& spec_complete_defined(pool, now)
    &&& (is_owner || complete)
    &&& side0.lp_supply != 0
    &&& order.lp_balance != 0
    &&& lp * (side0.target_balance + side0.token_debt_total) <= u128::MAX
    &&& gross <= u64::MAX
    &&& pair.fee_denominator != 0
    &&& fees <= u64::MAX
    &&& order.spec_unsettled_ok(exp, now)
    &&& order.unsettled_balance >= was
    &&& (order.lp_balance == lp ==> side0.num_traders >= 1)
    &&& side0.target_balance >= wat
    &&& side0.token_debt_total >= tdr
    &&& (PoolSide { source_balance: (side0.source_balance - was) as u64, ..side0 }).spec_unsettled_ok(
        exp,
        now,
    )
    &&& wat >= fees
    &&& ({
        let pool2 = spec_updated_pool(
            with_side(pool, order.side, spec_withdrawn_side(side0, order, lp, exp, now)),
            pair,
            now,
        );
        let idx = pair.spec_tif_index(pool2.time_in_force);
        pool2.time_in_force != 0 && idx >= 0 && pair.pool_counters@[idx] != pool2.counter
            && pool2.spec_is_empty() ==> pair.pool_counters@[idx] + 1 <= u64::MAX
    })
}

/// Withdraws `params.lp_amount` shares from the order's pool side.
///
/// The effective amount is capped by the order's balance, or forced to the
/// whole balance once the pool is complete (then `is_owner` need not hold).
/// Principal and proceeds are paid pro-rata, a withdrawal fee is charged on
/// the proceeds only, the decay caches are refreshed, a fully withdrawn
/// order is cleared, and a drained non-current pool is rotated out.  On any
/// error nothing is changed.  Returns the token-A and token-B amounts to pay
/// out.
#[verifier::rlimit(100)]
#[verifier::spinoff_prover]
pub fn cancel_order(
    token_pair: &mut TokenPair,
    pool: &mut Pool,
    order: &mut Order,
    params: &CancelOrderParams,
    is_owner: bool,
    current_time: i64,
) -> (r: Result<(u64, u64), TwammError>)
    requires
        old(token_pair).wf(),
        old(pool).wf(),
        old(order).wf(),
        0 <= current_time,
        old(pool).time_in_force > 0,
        old(token_pair).min_time_till_expiration.wf(),
        old(order).lp_balance <= side_of(*old(pool), old(order).side).lp_supply,
    ensures
        final(token_pair).wf(),
        final(pool).wf(),
        r is Err ==> *final(token_pair) == *old(token_pair) && *final(pool) == *old(pool)
            && *final(order) == *old(order),
        r is Ok <==> spec_cancel_order_accepts(
            *old(token_pair),
            *old(pool),
            *old(order),
            *params,
            is_owner,
            current_time as int,
        ),
        params.lp_amount == 0 ==> r == Err::<(u64, u64), TwammError>(TwammError::InvalidTokenAmount),
        params.lp_amount != 0 && !old(token_pair).allow_withdrawals ==> r == Err::<
            (u64, u64),
            TwammError,
        >(TwammError::WithdrawalsNotAllowed),
        params.lp_amount != 0 && old(token_pair).allow_withdrawals && spec_complete_defined(
            *old(pool),
            current_time as int,
        ) && !is_owner && !old(pool).spec_is_complete(current_time as int) ==> r == Err::<
            (u64, u64),
            TwammError,
        >(TwammError::IllegalOwner),
        r is Ok ==> ({
            let complete = old(pool).spec_is_complete(current_time as int);
            let lp = spec_withdraw_lp(*old(order), params.lp_amount, complete);
            let side0 = side_of(*old(pool), old(order).side);
            let exp = old(pool).expiration_time as int;
            let now = current_time as int;
            let was = spec_withdraw_source(side0, lp);
            let wat = spec_withdraw_target(side0, *old(order), lp);
            let fees = spec_withdraw_fees(*old(token_pair), wat);
            let pool2 = spec_updated_pool(
                with_side(
                    *old(pool),
                    old(order).side,
                    spec_withdrawn_side(side0, *old(order), lp, exp, now),
                ),
                *old(token_pair),
                now,
            );
            let idx = old(token_pair).spec_tif_index(pool2.time_in_force);
            let rot = pool2.time_in_force != 0 && idx >= 0 && old(token_pair).pool_counters@[idx]
                != pool2.counter;
            let wa = if old(order).side == OrderSide::Sell {
                was
            } else {
                wat - fees
            };
            let wb = if old(order).side == OrderSide::Sell {
                wat - fees
            } else {
                was
            };
            &&& r == Ok::<(u64, u64), TwammError>((wa as u64, wb as u64))
            &&& *final(order) == (if old(order).lp_balance == lp {
                empty_order()
            } else {
                spec_withdrawn_order(*old(order), side0, lp, exp, now)
            })
            &&& *final(pool) == (if rot && pool2.spec_is_empty() {
                empty_pool()
            } else {
                pool2
            })
            &&& final(token_pair).tifs@ == old(token_pair).tifs@
            &&& final(token_pair).pool_counters@ == old(token_pair).pool_counters@
            &&& final(token_pair).current_pool_present@ == old(token_pair).current_pool_present@
            &&& crate::token_pair::same_config(*old(token_pair), *final(token_pair))
            &&& final(token_pair).future_pool_present@ == (if rot && pool2.spec_is_empty()
                && pool2.counter == old(token_pair).pool_counters@[idx] + 1 {
                old(token_pair).future_pool_present@.update(idx, false)
            } else {
                old(token_pair).future_pool_present@
            })
            &&& final(token_pair).stats_a == (TokenStats {
                fees_collected: if old(order).side == OrderSide::Buy {
                    math::sat_add_val(old(token_pair).stats_a.fees_collected, fees as u64) as u64
                } else {
                    old(token_pair).stats_a.fees_collected
                },
                pending_withdrawals: if rot {
                    math::sat_sub_val(old(token_pair).stats_a.pending_withdrawals, wa as u64) as u64
                } else {
                    old(token_pair).stats_a.pending_withdrawals
                },
                ..old(token_pair).stats_a
            })
            &&& final(token_pair).stats_b == (TokenStats {
                fees_collected: if old(order).side == OrderSide::Sell {
                    math::sat_add_val(old(token_pair).stats_b.fees_collected, fees as u64) as u64
                } else {
                    old(token_pair).stats_b.fees_collected
                },
                pending_withdrawals: if rot {
                    math::sat_sub_val(old(token_pair).stats_b.pending_withdrawals, wb as u64) as u64
                } else {
                    old(token_pair).stats_b.pending_withdrawals
                },
                ..old(token_pair).stats_b
            })
        }),
{
    if params.lp_amount == 0 {
        return Err(TwammError::InvalidTokenAmount);
    }
    if !token_pair.allow_withdrawals {
        return Err(TwammError::WithdrawalsNotAllowed);
    }
    let pool_complete = pool.is_complete(current_time)?;
    if !is_owner && !pool_complete {
        return Err(TwammError::IllegalOwner);
    }

    let side0 = if order.side == OrderSide::Buy {
        pool.buy_side
    } else {
        pool.sell_side
    };
    let lp: u64 = if params.lp_amount > order.lp_balance || pool_complete {
        order.lp_balance
    } else {
        params.lp_amount
    };
    if side0.lp_supply == 0 {
        return Err(TwammError::MathOverflow);
    }
    if order.lp_balance == 0 {
        return Err(TwammError::MathOverflow);
    }

    // Principal share, bounded by the source balance.
    proof {
        math::lemma_mul_div_le(
            side0.source_balance as int,
            lp as int,
            side0.lp_supply as int,
        );
        assert(lp as int * side0.source_balance as int == side0.source_balance as int
            * lp as int) by (nonlinear_arith);
        assert(lp as int * side0.source_balance as int <= u128::MAX) by (nonlinear_arith)
            requires
                lp <= u64::MAX && side0.source_balance <= u64::MAX,
        ;
    }
    let was: u64 = ((lp as u128) * (side0.source_balance as u128) / (side0.lp_supply as u128))
        as u64;

    // Gross debt removed, bounded by the order's debt.
    proof {
        math::lemma_mul_ceil_div_le(
            order.token_debt as int,
            lp as int,
            order.lp_balance as int,
        );
        assert(order.token_debt as int * lp as int <= u128::MAX) by (nonlinear_arith)
            requires
                lp <= u64::MAX && order.token_debt <= u64::MAX,
        ;
    }
    let d0_128 = match math::checked_ceil_div_u128(
        (order.token_debt as u128) * (lp as u128),
        order.lp_balance as u128,
    ) {
        Ok(v) => v,
        Err(_) => {
            proof {
                assert(false);
            }
            return Err(TwammError::MathOverflow);
        },
    };
    let d0: u64 = d0_128 as u64;

    // Target share before the debt deduction.
    let owed = (side0.target_balance as u128) + (side0.token_debt_total as u128);
    let prod = math::checked_mul_u128(lp as u128, owed)?;
    let gross = math::checked_as_u64(prod / (side0.lp_supply as u128))?;
    let wat: u64 = if gross > d0 {
        gross - d0
    } else {
        0
    };

    // Withdrawal fee on the proceeds only.
    proof {
        assert(wat as int * token_pair.fee_numerator as int <= u128::MAX) by (nonlinear_arith)
            requires
                wat <= u64::MAX && token_pair.fee_numerator <= u64::MAX,
        ;
    }
    let fees128 = math::checked_ceil_div_u128(
        (wat as u128) * (token_pair.fee_numerator as u128),
        token_pair.fee_denominator as u128,
    )?;
    let fees = math::checked_as_u64(fees128)?;

    let full = order.lp_balance == lp;
    let tdr: u64 = if full {
        d0
    } else if order.token_debt < d0 {
        order.token_debt
    } else {
        d0
    };
    let expiration_time = pool.expiration_time;
    let cache_o = order.get_unsettled_amount(expiration_time, current_time)?;
    let new_unsettled = math::checked_sub_u64(order.unsettled_balance, was)?;
    let odr: u64 = if full {
        cache_o
    } else {
        proof {
            math::lemma_mul_div_le(cache_o as int, lp as int, order.lp_balance as int);
            assert(cache_o as int * lp as int <= u128::MAX) by (nonlinear_arith)
                requires
                    cache_o <= u64::MAX && lp <= u64::MAX,
            ;
        }
        ((cache_o as u128) * (lp as u128) / (order.lp_balance as u128)) as u64
    };

    if full && side0.num_traders == 0 {
        return Err(TwammError::MathOverflow);
    }
    let new_target = math::checked_sub_u64(side0.target_balance, wat)?;
    let new_tdt = math::checked_sub_u64(side0.token_debt_total, tdr)?;
    let reduced_side = PoolSide { source_balance: side0.source_balance - was, ..side0 };
    let cache_s = reduced_side.get_unsettled_amount(expiration_time, current_time)?;
    let wat_after = math::checked_sub_u64(wat, fees)?;

    let new_side = PoolSide {
        source_balance: side0.source_balance - was,
        target_balance: new_target,
        lp_supply: side0.lp_supply - lp,
        token_debt_total: new_tdt,
        num_traders: if full {
            side0.num_traders - 1
        } else {
            side0.num_traders
        },
        settlement_debt_total: math::saturating_sub_u64(cache_s, odr),
        last_balance_change_time: current_time,
        ..side0
    };
    let mut work_pool: Pool = *pool;
    if order.side == OrderSide::Buy {
        work_pool.buy_side = new_side;
    } else {
        work_pool.sell_side = new_side;
    }
    let _status = work_pool.update_state(&token_pair.min_time_till_expiration, current_time);

    let (wa, wb) = if order.side == OrderSide::Sell {
        (was, wat_after)
    } else {
        (wat_after, was)
    };

    // Rotation bookkeeping for a pool that is no longer current.
    let mut rot = false;
    let mut rot_idx: usize = 0;
    match token_pair.get_tif_index(work_pool.time_in_force) {
        Ok(idx) => {
            if token_pair.pool_counters[idx] != work_pool.counter {
                rot = true;
                rot_idx = idx;
            }
        },
        Err(_) => {},
    }
    let pool_empty = work_pool.is_empty();
    let mut clear_future = false;
    if rot && pool_empty {
        let next = math::checked_add_u64(token_pair.pool_counters[rot_idx], 1)?;
        clear_future = work_pool.counter == next;
    }

    // Commit.
    let order_was_sell = order.side == OrderSide::Sell;
    if order_was_sell {
        token_pair.stats_b.fees_collected = math::saturating_add_u64(
            token_pair.stats_b.fees_collected,
            fees,
        );
    } else {
        token_pair.stats_a.fees_collected = math::saturating_add_u64(
            token_pair.stats_a.fees_collected,
            fees,
        );
    }
    if rot {
        token_pair.stats_a.pending_withdrawals = math::saturating_sub_u64(
            token_pair.stats_a.pending_withdrawals,
            wa,
        );
        token_pair.stats_b.pending_withdrawals = math::saturating_sub_u64(
            token_pair.stats_b.pending_withdrawals,
            wb,
        );
        if clear_future {
            token_pair.future_pool_present[rot_idx] = false;
        }
    }
    *order = if full {
        Order {
            time: 0,
            side: OrderSide::Buy,
            lp_balance: 0,
            token_debt: 0,
            unsettled_balance: 0,
            settlement_debt: 0,
            last_balance_change_time: 0,
        }
    } else {
        Order {
            lp_balance: order.lp_balance - lp,
            token_debt: order.token_debt - tdr,
            settlement_debt: cache_o - odr,
            unsettled_balance: new_unsettled,
            last_balance_change_time: current_time,
            ..*order
        }
    };
    *pool = if rot && pool_empty {
        Pool {
            status: PoolStatus::Active,
            time_in_force: 0,
            expiration_time: 0,
            buy_side: PoolSide {
                source_balance: 0,
                target_balance: 0,
                lp_supply: 0,
                token_debt_total: 0,
                fills_volume: 0,
                num_traders: 0,
                settlement_debt_total: 0,
                last_balance_change_time: 0,
            },
            sell_side: PoolSide {
                source_balance: 0,
                target_balance: 0,
                lp_supply: 0,
                token_debt_total: 0,
                fills_volume: 0,
                num_traders: 0,
                settlement_debt_total: 0,
                last_balance_change_time: 0,
            },
            counter: 0,
        }
    } else {
        work_pool
    };
    Ok((wa, wb))
}

/// One accounting event on a pool side's principal: a deposit adds to the
/// source balance, a withdrawal pays principal out, and matching moves
/// principal out against proceeds.
#[derive(Clone, Copy, Debug, PartialEq, Eq, Structural)]
pub enum SideOp {
    Deposit { amount: u64 },
    Withdraw { source_out: u64 },
    MatchOut { amount: u64 },
}

/// Source balance after applying `op`.
pub open spec fn apply_side_op(balance: int, op: SideOp) -> int {
    match op {
        SideOp::Deposit { amount } => balance + amount,
        SideOp::Withdraw { source_out } => balance - source_out,
        SideOp::MatchOut { amount } => balance - amount,
    }
}

/// Source balance after a sequence of events, starting from an empty side.
pub open spec fn run_side_ops(ops: Seq<SideOp>) -> int
    decreases ops.len(),
{
    if ops.len() == 0 {
        0
    } else {
        apply_side_op(run_side_ops(ops.drop_last()), ops.last())
    }
}

/// Sum of all amounts deposited.
pub open spec fn total_deposited(ops: Seq<SideOp>) -> int
    decreases ops.len(),
{
    if ops.len() == 0 {
        0
    } else {
        total_deposited(ops.drop_last()) + (match ops.last() {
            SideOp::Deposit { amount } => amount as int,
            SideOp::Withdraw { .. } => 0,
            SideOp::MatchOut { .. } => 0,
        })
    }
}

/// Sum of all principal paid out to withdrawers.
pub open spec fn total_paid_out(ops: Seq<SideOp>) -> int
    decreases ops.len(),
{
    if ops.len() == 0 {
        0
    } else {
        total_paid_out(ops.drop_last()) + (match ops.last() {
            SideOp::Deposit { .. } => 0,
            SideOp::Withdraw { source_out } => source_out as int,
            SideOp::MatchOut { .. } => 0,
        })
    }
}

/// Each event only removes what the side still holds, as the checked
/// subtractions in `place_order`, `cancel_order` and the settlement engine
/// enforce.
pub open spec fn side_ops_valid(ops: Seq<SideOp>) -> bool
    decreases ops.len(),
{
    if ops.len() == 0 {
        true
    } else {
        side_ops_valid(ops.drop_last()) && (match ops.last() {
            SideOp::Deposit { .. } => true,
            SideOp::Withdraw { source_out } => source_out <= run_side_ops(ops.drop_last()),
            SideOp::MatchOut { amount } => amount <= run_side_ops(ops.drop_last()),
        })
    }
}

/// **Conservation.**  For any sequence of deposit, withdraw and settle
/// events on a pool side, the remaining principal plus everything paid out
/// never exceeds the sum of all deposits made: no value is created, and the
/// balance never goes negative.
pub proof fn lemma_side_conservation(ops: Seq<SideOp>)
    requires
        side_ops_valid(ops),
    ensures
        run_side_ops(ops) >= 0,
        run_side_ops(ops) + total_paid_out(ops) <= total_deposited(ops),
    decreases ops.len(),
{
    if ops.len() > 0 {
        lemma_side_conservation(ops.drop_last());
    }
}

} // verus!
