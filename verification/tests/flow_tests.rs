use twamm::engine::SettleParams;
use twamm::error::TwammError;
use twamm::ledger::{self, CancelOrderParams, PlaceOrderParams};
use twamm::math::Fraction;
use twamm::oracle::{self, OraclePrice, OracleType};
use twamm::order::{Order, OrderSide};
use twamm::pool::{Pool, PoolSide, PoolStatus};
use twamm::token_pair::{
    MatchingSide, Settlement, SettlementType, TokenConfig, TokenPair, TokenStats,
};

fn empty_side() -> PoolSide {
    PoolSide {
        source_balance: 0,
        target_balance: 0,
        lp_supply: 0,
        token_debt_total: 0,
        fills_volume: 0,
        num_traders: 0,
        settlement_debt_total: 0,
        last_balance_change_time: 0,
    }
}

fn token_config(decimals: u8) -> TokenConfig {
    TokenConfig {
        crank_reward: 0,
        min_swap_amount: 0,
        max_oracle_price_error: Fraction { num: 1, den: 10 },
        max_oracle_price_age_sec: 60,
        oracle_type: OracleType::Test,
        oracle_account: 7,
        decimals,
    }
}

fn empty_stats() -> TokenStats {
    TokenStats {
        pending_withdrawals: 0,
        fees_collected: 0,
        order_volume_usd: 0,
        routed_volume_usd: 0,
        settled_volume_usd: 0,
    }
}

fn new_pair() -> TokenPair {
    TokenPair {
        allow_deposits: true,
        allow_withdrawals: true,
        allow_cranks: true,
        allow_settlements: true,
        fee_numerator: 1,
        fee_denominator: 100,
        settle_fee_numerator: 1,
        settle_fee_denominator: 100,
        max_swap_price_diff: Fraction { num: 1, den: 20 },
        max_unsettled_amount: Fraction { num: 1, den: 20 },
        min_time_till_expiration: Fraction { num: 1, den: 20 },
        crank_authority: 0,
        config_a: token_config(9),
        config_b: token_config(6),
        stats_a: empty_stats(),
        stats_b: empty_stats(),
        tifs: vec![300, 600, 0, 0, 0, 0, 0, 0, 0, 0],
        pool_counters: vec![0; 10],
        current_pool_present: vec![false; 10],
        future_pool_present: vec![false; 10],
        inception_time: 0,
    }
}

fn settlement(
    net_amount_settled: u64,
    net_amount_required: u64,
    source_amount_received: u64,
    settlement_side: MatchingSide,
) -> Settlement {
    Settlement {
        net_amount_settled,
        net_amount_required,
        source_amount_received,
        total_amount_settled_a: 0,
        total_amount_settled_b: 0,
        settlement_side,
    }
}

#[test]
fn withdraw_keeps_cache_below_remaining_principal() {
    // A large withdrawal in mid-window: the refreshed cache is computed
    // over the remaining principal, so it can never exceed it.
    let mut pair = new_pair();
    let mut pool = Pool {
        status: PoolStatus::Active,
        time_in_force: 300,
        expiration_time: 300,
        buy_side: PoolSide {
            source_balance: 1000,
            settlement_debt_total: 90,
            lp_supply: 1000,
            num_traders: 2,
            ..empty_side()
        },
        sell_side: empty_side(),
        counter: 0,
    };
    pair.current_pool_present[0] = true;
    let mut order = Order {
        time: 0,
        side: OrderSide::Buy,
        lp_balance: 900,
        token_debt: 0,
        unsettled_balance: 900,
        settlement_debt: 0,
        last_balance_change_time: 0,
    };
    ledger::cancel_order(
        &mut pair,
        &mut pool,
        &mut order,
        &CancelOrderParams { lp_amount: u64::MAX },
        true,
        135,
    )
    .unwrap();
    assert_eq!(pool.buy_side.source_balance, 100);
    assert!(pool.buy_side.settlement_debt_total <= pool.buy_side.source_balance);
    assert_eq!(pool.buy_side.settlement_debt_total, 0);
}

#[test]
fn prepare_settlement_converts_and_guards() {
    let pair = new_pair();
    let rate = OraclePrice::new(300, -1);
    // supplying token A: the pools would need to be net buyers
    let params = SettleParams {
        supply_side: MatchingSide::Sell,
        min_token_amount_in: 0,
        max_token_amount_in: 1000000,
        worst_exchange_rate: 0,
    };
    assert_eq!(
        pair.prepare_settlement(&params, rate),
        Ok((1000000, 30000, MatchingSide::Buy))
    );
    // an empty offer
    let mut p2 = params;
    p2.max_token_amount_in = 0;
    assert_eq!(pair.prepare_settlement(&p2, rate), Err(TwammError::InvalidTokenAmount));
    // no supply side
    let mut p3 = params;
    p3.supply_side = MatchingSide::Internal;
    assert_eq!(pair.prepare_settlement(&p3, rate), Err(TwammError::InvalidSettlementSide));
    // the conversion undercuts the worst acceptable rate
    let mut p4 = params;
    p4.worst_exchange_rate = 30001;
    assert_eq!(pair.prepare_settlement(&p4, rate), Err(TwammError::MaxSlippage));
    // settlements disabled
    let mut off = new_pair();
    off.allow_settlements = false;
    assert_eq!(
        off.prepare_settlement(&params, rate),
        Err(TwammError::SettlementsNotAllowed)
    );
}

#[test]
fn finish_settlement_charges_fee_and_signs_result() {
    let mut pair = new_pair();
    let params = SettleParams {
        supply_side: MatchingSide::Sell,
        min_token_amount_in: 0,
        max_token_amount_in: 1000000,
        worst_exchange_rate: 0,
    };
    // pools were net buyers and absorbed 20000 of token B for 666666 A
    let res = settlement(20000, 20000, 666666, MatchingSide::Buy);
    // settle fee 1% of 20000 = 200
    assert_eq!(pair.finish_settlement(&params, &res), Ok((19800, 20000)));
    assert_eq!(pair.stats_b.fees_collected, 200);
    // a result on the wrong side is rejected
    let bad = settlement(20000, 20000, 666666, MatchingSide::Sell);
    assert_eq!(
        pair.finish_settlement(&params, &bad),
        Err(TwammError::InvalidSettlementSide)
    );
    // nothing settled is rejected
    let none = settlement(0, 20000, 0, MatchingSide::Buy);
    assert_eq!(
        pair.finish_settlement(&params, &none),
        Err(TwammError::SettlementAmountTooLarge)
    );
    // receiving more than was offered is a bookkeeping error
    let over = settlement(20000, 20000, 1000001, MatchingSide::Buy);
    assert_eq!(pair.finish_settlement(&params, &over), Err(TwammError::SettlementError));
    // a thin fill below the minimum is rejected
    let thin = SettleParams {
        min_token_amount_in: 700000,
        ..params
    };
    assert_eq!(
        pair.finish_settlement(&thin, &res),
        Err(TwammError::SettlementAmountTooSmall)
    );
}

#[test]
fn crank_validation_checks_amounts_and_authority() {
    let pair = new_pair();
    let res = settlement(600, 20000, 20010, MatchingSide::Buy);
    assert_eq!(
        pair.validate_crank_settlement(5, 600, 20010, MatchingSide::Sell, &res),
        Ok(20000)
    );
    // a sell-side requirement is reported negative
    let res_sell = settlement(600, 20000, 20010, MatchingSide::Sell);
    assert_eq!(
        pair.validate_crank_settlement(5, 600, 20010, MatchingSide::Buy, &res_sell),
        Ok(-20000)
    );
    // amounts must match the swap exactly
    assert_eq!(
        pair.validate_crank_settlement(5, 601, 20010, MatchingSide::Sell, &res),
        Err(TwammError::SettlementAmountTooLarge)
    );
    assert_eq!(
        pair.validate_crank_settlement(5, 600, 20011, MatchingSide::Sell, &res),
        Err(TwammError::SettlementError)
    );
    // a reserved crank authority shuts others out
    let mut gated = new_pair();
    gated.crank_authority = 9;
    assert_eq!(
        gated.validate_crank_settlement(5, 600, 20010, MatchingSide::Sell, &res),
        Err(TwammError::CranksNotAllowed)
    );
    assert_eq!(
        gated.validate_crank_settlement(9, 600, 20010, MatchingSide::Sell, &res),
        Ok(20000)
    );
    let mut off = new_pair();
    off.allow_cranks = false;
    assert_eq!(
        off.validate_crank_settlement(5, 600, 20010, MatchingSide::Sell, &res),
        Err(TwammError::CranksNotAllowed)
    );
}

#[test]
fn crank_reward_is_capped_by_collected_fees() {
    let mut pair = new_pair();
    pair.stats_a.fees_collected = 150;
    assert_eq!(pair.take_crank_reward(100, true), 100);
    assert_eq!(pair.stats_a.fees_collected, 50);
    assert_eq!(pair.take_crank_reward(100, true), 50);
    assert_eq!(pair.stats_a.fees_collected, 0);
    pair.stats_b.fees_collected = 7;
    assert_eq!(pair.take_crank_reward(3, false), 3);
    assert_eq!(pair.stats_b.fees_collected, 4);
}

#[test]
fn net_outstanding_respects_minimum_swap_amounts() {
    let mut pair = new_pair();
    pair.config_a.min_swap_amount = 100;
    pair.config_b.min_swap_amount = 50;
    assert_eq!(pair.net_outstanding_signed(&settlement(0, 0, 0, MatchingSide::Internal)), 0);
    assert_eq!(pair.net_outstanding_signed(&settlement(0, 49, 0, MatchingSide::Buy)), 0);
    assert_eq!(pair.net_outstanding_signed(&settlement(0, 50, 0, MatchingSide::Buy)), 50);
    assert_eq!(pair.net_outstanding_signed(&settlement(0, 99, 0, MatchingSide::Sell)), 0);
    assert_eq!(pair.net_outstanding_signed(&settlement(0, 100, 0, MatchingSide::Sell)), -100);
    assert_eq!(
        pair.net_outstanding_signed(&settlement(0, u64::MAX, 0, MatchingSide::Sell)),
        -i64::MAX
    );
}

#[test]
fn usd_volume_statistics_accumulate() {
    // 2 token A at 9 decimals, price 30: 2e-9... scaled to 6 USD decimals
    assert_eq!(oracle::get_asset_amount_usd(2000000000, 9, OraclePrice::new(30, 0)).unwrap(), 60000000);
    let mut pair = new_pair();
    let res = Settlement {
        net_amount_settled: 2000000000,
        net_amount_required: 2000000000,
        source_amount_received: 60,
        total_amount_settled_a: 2000000000,
        total_amount_settled_b: 60000000,
        settlement_side: MatchingSide::Sell,
    };
    pair.update_trade_stats(
        &res,
        SettlementType::Crank,
        OraclePrice::new(30, 0),
        OraclePrice::new(1, 0),
    )
    .unwrap();
    assert_eq!(pair.stats_a.routed_volume_usd, 60000000);
    assert_eq!(pair.stats_a.settled_volume_usd, 0);
    assert_eq!(pair.stats_a.order_volume_usd, 60000000);
    assert_eq!(pair.stats_b.order_volume_usd, 60000000);
    pair.update_trade_stats(
        &res,
        SettlementType::Settlement,
        OraclePrice::new(30, 0),
        OraclePrice::new(1, 0),
    )
    .unwrap();
    assert_eq!(pair.stats_a.settled_volume_usd, 60000000);
    assert_eq!(pair.stats_a.order_volume_usd, 120000000);
}
