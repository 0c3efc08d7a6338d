use twamm::decay;
use twamm::error::TwammError;
use twamm::ledger::{self, CancelOrderParams, PlaceOrderParams};
use twamm::math::Fraction;
use twamm::oracle::{OraclePrice, OracleType};
use twamm::order::{Order, OrderSide};
use twamm::pool::{Pool, PoolSide, PoolStatus};
use twamm::token_pair::{SetFeesParams, TokenConfig, TokenPair, TokenStats, WithdrawFeesParams};

fn empty_side() -> PoolSide {
    PoolSide {
        source_balance: 0,
        target_balance: 0,
        lp_supply: 0,
        token_debt_total: 0,
        fills_volume: 0,
        num_traders: 0,
        settlement_debt_total: 0,
        last_balance_change_time: 0,
    }
}

fn empty_pool() -> Pool {
    Pool {
        status: PoolStatus::Active,
        time_in_force: 0,
        expiration_time: 0,
        buy_side: empty_side(),
        sell_side: empty_side(),
        counter: 0,
    }
}

fn empty_order() -> Order {
    Order {
        time: 0,
        side: OrderSide::Buy,
        lp_balance: 0,
        token_debt: 0,
        unsettled_balance: 0,
        settlement_debt: 0,
        last_balance_change_time: 0,
    }
}

fn token_config(decimals: u8) -> TokenConfig {
    TokenConfig {
        crank_reward: 0,
        min_swap_amount: 0,
        max_oracle_price_error: Fraction { num: 1, den: 10 },
        max_oracle_price_age_sec: 60,
        oracle_type: OracleType::Test,
        oracle_account: 7,
        decimals,
    }
}

fn empty_stats() -> TokenStats {
    TokenStats {
        pending_withdrawals: 0,
        fees_collected: 0,
        order_volume_usd: 0,
        routed_volume_usd: 0,
        settled_volume_usd: 0,
    }
}

fn new_pair() -> TokenPair {
    TokenPair {
        allow_deposits: true,
        allow_withdrawals: true,
        allow_cranks: true,
        allow_settlements: true,
        fee_numerator: 1,
        fee_denominator: 100,
        settle_fee_numerator: 1,
        settle_fee_denominator: 100,
        max_swap_price_diff: Fraction { num: 1, den: 20 },
        max_unsettled_amount: Fraction { num: 1, den: 20 },
        min_time_till_expiration: Fraction { num: 1, den: 20 },
        crank_authority: 0,
        config_a: token_config(9),
        config_b: token_config(6),
        stats_a: empty_stats(),
        stats_b: empty_stats(),
        tifs: vec![300, 600, 0, 0, 0, 0, 0, 0, 0, 0],
        pool_counters: vec![0; 10],
        current_pool_present: vec![false; 10],
        future_pool_present: vec![false; 10],
        inception_time: 0,
    }
}

#[test]
fn decay_linear_in_elapsed_time() {
    // tenor 300, margin-adjusted expiration 270, half the remaining life
    // elapsed: half the principal is eligible.
    assert_eq!(decay::unsettled_amount(20000, 0, 0, 300, 135).unwrap(), 10000);
    // past the margin-adjusted expiration the whole principal is eligible
    assert_eq!(decay::unsettled_amount(20000, 0, 0, 300, 270).unwrap(), 20000);
    assert_eq!(decay::unsettled_amount(20000, 0, 0, 300, 5000).unwrap(), 20000);
    // the cached debt floors the result and the principal caps it
    assert_eq!(decay::unsettled_amount(20000, 19000, 135, 300, 150).unwrap(), 20000);
    // a clock that went backward falls back to the cached debt
    assert_eq!(decay::unsettled_amount(20000, 300, 100, 300, 50).unwrap(), 300);
    assert_eq!(decay::unsettled_amount(200, 300, 100, 300, 50).unwrap(), 200);
}

#[test]
fn decay_monotonic_in_time() {
    let mut last = 0u64;
    let mut t: i64 = 0;
    while t <= 320 {
        let v = decay::unsettled_amount(40000, 0, 0, 300, t).unwrap();
        assert!(v >= last);
        last = v;
        t += 5;
    }
    assert_eq!(last, 40000);
}

#[test]
fn deposit_mints_shares_and_charges_debt() {
    let mut pair = new_pair();
    let mut pool = empty_pool();
    let mut order = empty_order();
    ledger::place_order(
        &mut pair,
        &mut pool,
        &mut order,
        &PlaceOrderParams { side: OrderSide::Buy, time_in_force: 300, amount: 40000 },
        false,
        0,
        10,
    )
    .unwrap();
    assert_eq!(order.lp_balance, 40000);
    assert_eq!(order.token_debt, 0);
    assert_eq!(pool.buy_side.source_balance, 40000);
    assert_eq!(pool.buy_side.lp_supply, 40000);
    assert_eq!(pool.buy_side.num_traders, 1);
    assert_eq!(pool.expiration_time, 310);
    assert!(pair.current_pool_present[0]);

    // a later depositor with accumulated proceeds is charged debt, ceiling-
    // rounded so existing depositors are never diluted
    pool.buy_side.target_balance = 999;
    let mut order2 = empty_order();
    ledger::place_order(
        &mut pair,
        &mut pool,
        &mut order2,
        &PlaceOrderParams { side: OrderSide::Buy, time_in_force: 300, amount: 10000 },
        false,
        0,
        20,
    )
    .unwrap();
    assert_eq!(order2.lp_balance, 10000);
    // ceil(10000 * 999 / 40000) = ceil(249.75) = 250
    assert_eq!(order2.token_debt, 250);
    assert_eq!(pool.buy_side.source_balance, 50000);
    assert_eq!(pool.buy_side.num_traders, 2);
}

#[test]
fn deposit_validation_errors() {
    let mut pair = new_pair();
    let mut pool = empty_pool();
    let mut order = empty_order();
    let params = PlaceOrderParams { side: OrderSide::Buy, time_in_force: 300, amount: 0 };
    assert_eq!(
        ledger::place_order(&mut pair, &mut pool, &mut order, &params, false, 0, 10),
        Err(TwammError::InvalidTokenAmount)
    );
    let params = PlaceOrderParams { side: OrderSide::Buy, time_in_force: 77, amount: 5 };
    assert_eq!(
        ledger::place_order(&mut pair, &mut pool, &mut order, &params, false, 0, 10),
        Err(TwammError::InvalidTimeInForce)
    );
    pair.allow_deposits = false;
    let params = PlaceOrderParams { side: OrderSide::Buy, time_in_force: 300, amount: 5 };
    assert_eq!(
        ledger::place_order(&mut pair, &mut pool, &mut order, &params, false, 0, 10),
        Err(TwammError::DepositsNotAllowed)
    );
    pair.allow_deposits = true;

    // create the pool, then try to deposit inside the lock window
    ledger::place_order(&mut pair, &mut pool, &mut order, &params, false, 0, 10).unwrap();
    assert_eq!(pool.expiration_time, 310);
    let err = ledger::place_order(&mut pair, &mut pool, &mut order, &params, false, 0, 299);
    assert_eq!(err, Err(TwammError::LockedPool));
}

#[test]
fn deposit_into_matched_side_awaiting_finalization_rejected() {
    let mut pair = new_pair();
    let mut pool = empty_pool();
    pool.time_in_force = 300;
    pool.expiration_time = 300;
    pool.buy_side.target_balance = 123;
    pool.buy_side.num_traders = 1;
    pair.current_pool_present[0] = true;
    let mut order = empty_order();
    let params = PlaceOrderParams { side: OrderSide::Buy, time_in_force: 300, amount: 5 };
    assert_eq!(
        ledger::place_order(&mut pair, &mut pool, &mut order, &params, false, 0, 10),
        Err(TwammError::InvalidPoolState)
    );
}

#[test]
fn withdraw_round_trip_returns_principal() {
    let mut pair = new_pair();
    let mut pool = empty_pool();
    let mut order = empty_order();
    ledger::place_order(
        &mut pair,
        &mut pool,
        &mut order,
        &PlaceOrderParams { side: OrderSide::Buy, time_in_force: 300, amount: 40000 },
        false,
        0,
        10,
    )
    .unwrap();
    let (out_a, out_b) = ledger::cancel_order(
        &mut pair,
        &mut pool,
        &mut order,
        &CancelOrderParams { lp_amount: u64::MAX },
        true,
        10,
    )
    .unwrap();
    // nothing was matched: the buy side pays the full principal back in
    // token B and nothing in token A
    assert_eq!((out_a, out_b), (0, 40000));
    assert_eq!(order.lp_balance, 0);
    assert_eq!(pool.buy_side.source_balance, 0);
    assert_eq!(pool.buy_side.num_traders, 0);
}

#[test]
fn withdraw_charges_fee_on_proceeds_only() {
    let mut pair = new_pair();
    let mut pool = empty_pool();
    pool.time_in_force = 300;
    pool.expiration_time = 300;
    pair.current_pool_present[0] = true;
    // one buyer holds all shares; half the principal was matched into 600
    // of token A proceeds
    pool.buy_side.source_balance = 20000;
    pool.buy_side.target_balance = 600;
    pool.buy_side.lp_supply = 40000;
    pool.buy_side.num_traders = 1;
    let mut order = Order {
        time: 0,
        side: OrderSide::Buy,
        lp_balance: 40000,
        token_debt: 0,
        unsettled_balance: 40000,
        settlement_debt: 0,
        last_balance_change_time: 0,
    };
    let (out_a, out_b) = ledger::cancel_order(
        &mut pair,
        &mut pool,
        &mut order,
        &CancelOrderParams { lp_amount: u64::MAX },
        true,
        10,
    )
    .unwrap();
    // proceeds 600 token A, fee ceil(600 * 1 / 100) = 6
    assert_eq!((out_a, out_b), (594, 20000));
    assert_eq!(pair.stats_a.fees_collected, 6);
    assert_eq!(pair.stats_b.fees_collected, 0);
}

#[test]
fn withdraw_validation_errors() {
    let mut pair = new_pair();
    let mut pool = empty_pool();
    pool.time_in_force = 300;
    pool.expiration_time = 300;
    let mut order = empty_order();
    assert_eq!(
        ledger::cancel_order(&mut pair, &mut pool, &mut order, &CancelOrderParams { lp_amount: 0 }, true, 10),
        Err(TwammError::InvalidTokenAmount)
    );
    assert_eq!(
        ledger::cancel_order(&mut pair, &mut pool, &mut order, &CancelOrderParams { lp_amount: 5 }, false, 10),
        Err(TwammError::IllegalOwner)
    );
    pair.allow_withdrawals = false;
    assert_eq!(
        ledger::cancel_order(&mut pair, &mut pool, &mut order, &CancelOrderParams { lp_amount: 5 }, true, 10),
        Err(TwammError::WithdrawalsNotAllowed)
    );
}

#[test]
fn validate_checks_fees_limits_oracles_and_tenors() {
    let mut pair = new_pair();
    assert!(pair.validate());
    pair.fee_numerator = 100;
    assert!(!pair.validate());
    pair.fee_numerator = 1;
    pair.max_unsettled_amount = Fraction { num: 21, den: 20 };
    assert!(!pair.validate());
    pair.max_unsettled_amount = Fraction { num: 1, den: 20 };
    pair.config_a.oracle_type = OracleType::NoOracle;
    // settlements enabled without an oracle are invalid
    assert!(!pair.validate());
    pair.allow_settlements = false;
    assert!(pair.validate());
    pair.config_a.oracle_type = OracleType::Test;
    pair.tifs[1] = 300;
    // duplicate non-zero tenors are invalid
    assert!(!pair.validate());
}

#[test]
fn tif_index_lookup() {
    let pair = new_pair();
    assert_eq!(pair.get_tif_index(300), Ok(0));
    assert_eq!(pair.get_tif_index(600), Ok(1));
    assert_eq!(pair.get_tif_index(0), Err(TwammError::InvalidTimeInForce));
    assert_eq!(pair.get_tif_index(120), Err(TwammError::InvalidTimeInForce));
}

#[test]
fn finalize_pool_rotates_counters_and_stats() {
    let mut pair = new_pair();
    let mut pool = empty_pool();
    pool.time_in_force = 300;
    pool.counter = 0;
    pool.sell_side.source_balance = 11;
    pool.buy_side.target_balance = 22;
    pool.sell_side.target_balance = 33;
    pool.buy_side.source_balance = 44;
    pair.current_pool_present[0] = true;
    pair.future_pool_present[0] = true;
    pair.finalize_pool(&pool).unwrap();
    assert_eq!(pair.pool_counters[0], 1);
    assert!(pair.current_pool_present[0]);
    assert!(!pair.future_pool_present[0]);
    assert_eq!(pair.stats_a.pending_withdrawals, 33);
    assert_eq!(pair.stats_b.pending_withdrawals, 77);
}

#[test]
fn load_pools_validates_the_candidate_set() {
    let mut pair = new_pair();
    let mut pool = empty_pool();
    pool.time_in_force = 300;
    pair.current_pool_present[0] = true;
    assert_eq!(pair.load_pools(&vec![pool]), Ok(()));
    // wrong rotation counter
    let mut stale = pool;
    stale.counter = 3;
    assert_eq!(pair.load_pools(&vec![stale]), Err(TwammError::InvalidPoolAddress));
    // duplicate tenor
    assert_eq!(pair.load_pools(&vec![pool, pool]), Err(TwammError::InvalidPoolAddress));
    // missing current pool
    assert_eq!(pair.load_pools(&vec![]), Err(TwammError::InvalidPoolAddress));
    // unknown tenor
    let mut unknown = pool;
    unknown.time_in_force = 5;
    assert_eq!(pair.load_pools(&vec![unknown]), Err(TwammError::InvalidTimeInForce));
}

#[test]
fn admin_changes_keep_the_invariant_or_do_nothing() {
    let mut pair = new_pair();
    let bad = SetFeesParams {
        fee_numerator: 5,
        fee_denominator: 5,
        settle_fee_numerator: 1,
        settle_fee_denominator: 100,
        crank_reward_token_a: 0,
        crank_reward_token_b: 0,
    };
    assert_eq!(pair.set_fees(&bad), Err(TwammError::InvalidTokenPairConfig));
    assert_eq!(pair.fee_numerator, 1);
    let good = SetFeesParams {
        fee_numerator: 2,
        fee_denominator: 100,
        settle_fee_numerator: 3,
        settle_fee_denominator: 100,
        crank_reward_token_a: 9,
        crank_reward_token_b: 8,
    };
    assert_eq!(pair.set_fees(&good), Ok(()));
    assert_eq!(pair.fee_numerator, 2);
    assert_eq!(pair.config_a.crank_reward, 9);
}

#[test]
fn withdraw_fees_requires_collected_balance() {
    let mut pair = new_pair();
    pair.stats_a.fees_collected = 10;
    pair.stats_b.fees_collected = 5;
    assert_eq!(
        pair.withdraw_fees(&WithdrawFeesParams { amount_token_a: 11, amount_token_b: 0 }),
        Err(TwammError::InsufficientFunds)
    );
    assert_eq!(pair.stats_a.fees_collected, 10);
    assert_eq!(
        pair.withdraw_fees(&WithdrawFeesParams { amount_token_a: 10, amount_token_b: 5 }),
        Ok(())
    );
    assert_eq!(pair.stats_a.fees_collected, 0);
    assert_eq!(pair.stats_b.fees_collected, 0);
}

#[test]
fn oracle_division_rejects_a_zero_divisor() {
    let a = OraclePrice::new(4004, -10);
    let zero = OraclePrice::new(0, -8);
    assert_eq!(a.checked_div(&zero), Err(TwammError::MathOverflow));
}

#[test]
fn fraction_compares_ratios_exactly() {
    let half = Fraction { num: 1, den: 2 };
    assert!(half.ratio_le(149, 300));
    assert!(half.ratio_le(150, 300));
    assert!(!half.ratio_le(151, 300));
}

#[test]
fn pool_lifecycle_states() {
    let pair = new_pair();
    let mut pool = empty_pool();
    pool.time_in_force = 300;
    pool.expiration_time = 300;
    // active well before the lock window
    assert_eq!(pool.update_state(&pair.min_time_till_expiration, 100), PoolStatus::Active);
    // locked in the final 5% of the window
    assert_eq!(pool.update_state(&pair.min_time_till_expiration, 290), PoolStatus::Locked);
    // expired at the boundary
    assert_eq!(pool.update_state(&pair.min_time_till_expiration, 300), PoolStatus::Expired);
    // complete only when drained or past the grace window
    pool.sell_side.source_balance = 1;
    assert!(!pool.is_complete(350).unwrap());
    assert!(pool.is_complete(961).unwrap());
    pool.sell_side.source_balance = 0;
    assert!(pool.is_complete(301).unwrap());
}
