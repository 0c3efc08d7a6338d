use twamm::math::Fraction;
use twamm::oracle::{OraclePrice, OracleType};
use twamm::pool::{Pool, PoolSide, PoolStatus};
use twamm::token_pair::{MatchingSide, Settlement, TokenConfig, TokenPair, TokenStats};

fn empty_side() -> PoolSide {
    PoolSide {
        source_balance: 0,
        target_balance: 0,
        lp_supply: 0,
        token_debt_total: 0,
        fills_volume: 0,
        num_traders: 0,
        settlement_debt_total: 0,
        last_balance_change_time: 0,
    }
}

fn empty_pool(time_in_force: u32, expiration_time: i64) -> Pool {
    Pool {
        status: PoolStatus::Active,
        time_in_force,
        expiration_time,
        buy_side: empty_side(),
        sell_side: empty_side(),
        counter: 0,
    }
}

fn token_config(decimals: u8) -> TokenConfig {
    TokenConfig {
        crank_reward: 0,
        min_swap_amount: 0,
        max_oracle_price_error: Fraction { num: 0, den: 1 },
        max_oracle_price_age_sec: 0,
        oracle_type: OracleType::NoOracle,
        oracle_account: 0,
        decimals,
    }
}

fn empty_stats() -> TokenStats {
    TokenStats {
        pending_withdrawals: 0,
        fees_collected: 0,
        order_volume_usd: 0,
        routed_volume_usd: 0,
        settled_volume_usd: 0,
    }
}

fn get_fixture() -> (TokenPair, Pool) {
    let token_pair = TokenPair {
        allow_deposits: false,
        allow_withdrawals: false,
        allow_cranks: false,
        allow_settlements: false,
        fee_numerator: 0,
        fee_denominator: 1,
        settle_fee_numerator: 0,
        settle_fee_denominator: 1,
        max_swap_price_diff: Fraction { num: 0, den: 1 },
        max_unsettled_amount: Fraction { num: 0, den: 1 },
        min_time_till_expiration: Fraction { num: 0, den: 1 },
        crank_authority: 0,
        config_a: token_config(9),
        config_b: token_config(6),
        stats_a: empty_stats(),
        stats_b: empty_stats(),
        tifs: vec![0; 10],
        pool_counters: vec![0; 10],
        current_pool_present: vec![false; 10],
        future_pool_present: vec![false; 10],
        inception_time: 135,
    };
    let pool = empty_pool(300, 300);
    (token_pair, pool)
}

fn settlement(
    net_amount_settled: u64,
    net_amount_required: u64,
    source_amount_received: u64,
    total_amount_settled_a: u64,
    total_amount_settled_b: u64,
    settlement_side: MatchingSide,
) -> Settlement {
    Settlement {
        net_amount_settled,
        net_amount_required,
        source_amount_received,
        total_amount_settled_a,
        total_amount_settled_b,
        settlement_side,
    }
}

#[test]
fn settle_test_1() {
    let (token_pair, mut pool) = get_fixture();
    pool.buy_side.source_balance = 40000;
    let mut pools = vec![pool];

    let res = token_pair
        .settle_pools(
            &mut pools,
            MatchingSide::Sell,
            20010,
            600,
            OraclePrice::new(300, -1),
            OraclePrice::new(3000, -2),
            135,
        )
        .unwrap();
    assert_eq!(settlement(600, 20000, 20010, 0, 600, MatchingSide::Buy), res);

    let res = token_pair
        .settle_pools(
            &mut pools,
            MatchingSide::Sell,
            20010,
            600,
            OraclePrice::new(300, -1),
            OraclePrice::new(3000, -2),
            135,
        )
        .unwrap();
    assert_eq!(settlement(600, 19400, 20010, 0, 600, MatchingSide::Buy), res);

    let res = token_pair
        .settle_pools(
            &mut pools,
            MatchingSide::Sell,
            20010,
            600,
            OraclePrice::new(300, -1),
            OraclePrice::new(3000, -2),
            300,
        )
        .unwrap();
    assert_eq!(settlement(600, 38800, 20010, 0, 600, MatchingSide::Buy), res);

    let res = token_pair
        .settle_pools(
            &mut pools,
            MatchingSide::Sell,
            20010,
            600,
            OraclePrice::new(300, -1),
            OraclePrice::new(3000, -2),
            300,
        )
        .unwrap();
    assert_eq!(settlement(600, 38200, 20010, 0, 600, MatchingSide::Buy), res);
}

#[test]
fn settle_test_2() {
    let (token_pair, mut pool) = get_fixture();
    pool.buy_side.source_balance = 40000;
    let mut pools = vec![pool];

    let res = token_pair
        .settle_pools(
            &mut pools,
            MatchingSide::Sell,
            1000000,
            30000,
            OraclePrice::new(300, -1),
            OraclePrice::new(3000, -2),
            135,
        )
        .unwrap();
    assert_eq!(settlement(20000, 20000, 666666, 0, 20000, MatchingSide::Buy), res);

    let res = token_pair
        .settle_pools(
            &mut pools,
            MatchingSide::Sell,
            1000000,
            30000,
            OraclePrice::new(300, -1),
            OraclePrice::new(3000, -2),
            135,
        )
        .unwrap();
    assert_eq!(settlement(0, 0, 0, 0, 0, MatchingSide::Internal), res);

    let res = token_pair
        .settle_pools(
            &mut pools,
            MatchingSide::Sell,
            1000000,
            30000,
            OraclePrice::new(300, -1),
            OraclePrice::new(3000, -2),
            300,
        )
        .unwrap();
    assert_eq!(settlement(20000, 20000, 666666, 0, 20000, MatchingSide::Buy), res);

    let res = token_pair
        .settle_pools(
            &mut pools,
            MatchingSide::Sell,
            1000000,
            30000,
            OraclePrice::new(300, -1),
            OraclePrice::new(3000, -2),
            300,
        )
        .unwrap();
    assert_eq!(settlement(0, 0, 0, 0, 0, MatchingSide::Internal), res);
}

#[test]
fn settle_test_3() {
    let (token_pair, mut pool) = get_fixture();
    pool.buy_side.source_balance = 40000;
    let mut pools = vec![pool];

    let res = token_pair
        .settle_pools(
            &mut pools,
            MatchingSide::Buy,
            20010,
            600,
            OraclePrice::new(300, -1),
            OraclePrice::new(3000, -2),
            135,
        )
        .unwrap();
    assert_eq!(settlement(0, 20000, 0, 0, 0, MatchingSide::Buy), res);
}

#[test]
fn settle_test_4() {
    let (token_pair, mut pool) = get_fixture();
    pool.sell_side.source_balance = 40000;
    let mut pools = vec![pool];

    let res = token_pair
        .settle_pools(
            &mut pools,
            MatchingSide::Buy,
            15000,
            451,
            OraclePrice::new(300, -1),
            OraclePrice::new(3000, -2),
            135,
        )
        .unwrap();
    assert_eq!(settlement(15000, 20000, 451, 15000, 0, MatchingSide::Sell), res);

    let res = token_pair
        .settle_pools(
            &mut pools,
            MatchingSide::Buy,
            20000,
            601,
            OraclePrice::new(300, -1),
            OraclePrice::new(3000, -2),
            135,
        )
        .unwrap();
    assert_eq!(settlement(5000, 5000, 150, 5000, 0, MatchingSide::Sell), res);

    let res = token_pair
        .settle_pools(
            &mut pools,
            MatchingSide::Buy,
            20000,
            601,
            OraclePrice::new(300, -1),
            OraclePrice::new(3000, -2),
            300,
        )
        .unwrap();
    assert_eq!(settlement(20000, 20000, 601, 20000, 0, MatchingSide::Sell), res);

    let res = token_pair
        .settle_pools(
            &mut pools,
            MatchingSide::Buy,
            20000,
            601,
            OraclePrice::new(300, -1),
            OraclePrice::new(3000, -2),
            300,
        )
        .unwrap();
    assert_eq!(settlement(0, 0, 0, 0, 0, MatchingSide::Internal), res);
}

#[test]
fn settle_test_5() {
    let (token_pair, mut pool) = get_fixture();
    pool.sell_side.source_balance = 40000;
    let mut pools = vec![pool];

    let res = token_pair
        .settle_pools(
            &mut pools,
            MatchingSide::Buy,
            1000000,
            30000,
            OraclePrice::new(300, -1),
            OraclePrice::new(3000, -2),
            108,
        )
        .unwrap();
    assert_eq!(settlement(16000, 16000, 480, 16000, 0, MatchingSide::Sell), res);

    let res = token_pair
        .settle_pools(
            &mut pools,
            MatchingSide::Buy,
            1000000,
            30000,
            OraclePrice::new(300, -1),
            OraclePrice::new(3000, -2),
            135,
        )
        .unwrap();
    assert_eq!(settlement(4000, 4000, 120, 4000, 0, MatchingSide::Sell), res);

    let res = token_pair
        .settle_pools(
            &mut pools,
            MatchingSide::Buy,
            1000000,
            30000,
            OraclePrice::new(3000, -2),
            OraclePrice::new(300, -1),
            135,
        )
        .unwrap();
    assert_eq!(settlement(0, 0, 0, 0, 0, MatchingSide::Internal), res);

    let res = token_pair
        .settle_pools(
            &mut pools,
            MatchingSide::Buy,
            1000000,
            30000,
            OraclePrice::new(3000, -2),
            OraclePrice::new(300, -1),
            300,
        )
        .unwrap();
    assert_eq!(settlement(20000, 20000, 600, 20000, 0, MatchingSide::Sell), res);

    let res = token_pair
        .settle_pools(
            &mut pools,
            MatchingSide::Buy,
            1000000,
            30000,
            OraclePrice::new(3000, -2),
            OraclePrice::new(300, -1),
            300,
        )
        .unwrap();
    assert_eq!(settlement(0, 0, 0, 0, 0, MatchingSide::Internal), res);
}

#[test]
fn settle_test_6() {
    let (token_pair, mut pool) = get_fixture();
    pool.sell_side.source_balance = 40000;
    let mut pools = vec![pool];

    let res = token_pair
        .settle_pools(
            &mut pools,
            MatchingSide::Sell,
            20000,
            601,
            OraclePrice::new(300, -1),
            OraclePrice::new(3000, -2),
            135,
        )
        .unwrap();
    assert_eq!(settlement(0, 20000, 0, 0, 0, MatchingSide::Sell), res);
}

#[test]
fn settle_test_7() {
    let (token_pair, mut pool) = get_fixture();
    pool.buy_side.source_balance = 40000;
    let mut pool2 = empty_pool(600, 600);
    pool2.buy_side.source_balance = 40000;
    let mut pools = vec![pool, pool2];

    let res = token_pair
        .settle_pools(
            &mut pools,
            MatchingSide::Sell,
            20010,
            600,
            OraclePrice::new(300, -1),
            OraclePrice::new(3000, -2),
            135,
        )
        .unwrap();
    assert_eq!(settlement(600, 29473, 20010, 0, 600, MatchingSide::Buy), res);

    let res = token_pair
        .settle_pools(
            &mut pools,
            MatchingSide::Sell,
            2000000,
            60000,
            OraclePrice::new(300, -1),
            OraclePrice::new(3000, -2),
            135,
        )
        .unwrap();
    assert_eq!(settlement(28873, 28873, 962433, 0, 28873, MatchingSide::Buy), res);

    let res = token_pair
        .settle_pools(
            &mut pools,
            MatchingSide::Sell,
            2000000,
            60000,
            OraclePrice::new(300, -1),
            OraclePrice::new(3000, -2),
            135,
        )
        .unwrap();
    assert_eq!(settlement(0, 0, 0, 0, 0, MatchingSide::Internal), res);

    let res = token_pair
        .settle_pools(
            &mut pools,
            MatchingSide::Sell,
            20010,
            600,
            OraclePrice::new(300, -1),
            OraclePrice::new(3000, -2),
            300,
        )
        .unwrap();
    assert_eq!(settlement(600, 31579, 20010, 0, 600, MatchingSide::Buy), res);

    let res = token_pair
        .settle_pools(
            &mut pools,
            MatchingSide::Sell,
            2000000,
            60000,
            OraclePrice::new(300, -1),
            OraclePrice::new(3000, -2),
            300,
        )
        .unwrap();
    assert_eq!(settlement(30979, 30979, 1032633, 0, 30979, MatchingSide::Buy), res);

    let res = token_pair
        .settle_pools(
            &mut pools,
            MatchingSide::Sell,
            2000000,
            60000,
            OraclePrice::new(300, -1),
            OraclePrice::new(3000, -2),
            300,
        )
        .unwrap();
    assert_eq!(settlement(0, 0, 0, 0, 0, MatchingSide::Internal), res);

    let res = token_pair
        .settle_pools(
            &mut pools,
            MatchingSide::Sell,
            20010,
            600,
            OraclePrice::new(300, -1),
            OraclePrice::new(3000, -2),
            450,
        )
        .unwrap();
    assert_eq!(settlement(600, 10526, 20010, 0, 600, MatchingSide::Buy), res);

    let res = token_pair
        .settle_pools(
            &mut pools,
            MatchingSide::Sell,
            20010,
            600,
            OraclePrice::new(300, -1),
            OraclePrice::new(3000, -2),
            1200,
        )
        .unwrap();
    assert_eq!(settlement(600, 18348, 20010, 0, 600, MatchingSide::Buy), res);

    let res = token_pair
        .settle_pools(
            &mut pools,
            MatchingSide::Sell,
            2000000,
            60000,
            OraclePrice::new(300, -1),
            OraclePrice::new(3000, -2),
            1200,
        )
        .unwrap();
    assert_eq!(settlement(17748, 17748, 591600, 0, 17748, MatchingSide::Buy), res);

    let res = token_pair
        .settle_pools(
            &mut pools,
            MatchingSide::Sell,
            2000000,
            60000,
            OraclePrice::new(300, -1),
            OraclePrice::new(3000, -2),
            1200,
        )
        .unwrap();
    assert_eq!(settlement(0, 0, 0, 0, 0, MatchingSide::Internal), res);
}

#[test]
fn settle_test_8() {
    let (token_pair, mut pool) = get_fixture();
    pool.buy_side.source_balance = 600;
    pool.sell_side.source_balance = 20000;
    let mut pools = vec![pool];

    let res = token_pair
        .settle_pools(
            &mut pools,
            MatchingSide::Buy,
            0,
            0,
            OraclePrice::new(300, -1),
            OraclePrice::new(3000, -2),
            135,
        )
        .unwrap();
    assert_eq!(settlement(0, 0, 0, 10000, 300, MatchingSide::Internal), res);

    let res = token_pair
        .settle_pools(
            &mut pools,
            MatchingSide::Buy,
            0,
            0,
            OraclePrice::new(300, -1),
            OraclePrice::new(3000, -2),
            135,
        )
        .unwrap();
    assert_eq!(settlement(0, 0, 0, 0, 0, MatchingSide::Internal), res);

    let res = token_pair
        .settle_pools(
            &mut pools,
            MatchingSide::Buy,
            0,
            0,
            OraclePrice::new(300, -1),
            OraclePrice::new(3000, -2),
            300,
        )
        .unwrap();
    assert_eq!(settlement(0, 0, 0, 10000, 300, MatchingSide::Internal), res);
}

#[test]
fn settle_test_9() {
    let (token_pair, mut pool) = get_fixture();
    pool.buy_side.source_balance = 600;
    let mut pool2 = empty_pool(600, 600);
    pool2.sell_side.source_balance = 42225;
    let mut pools = vec![pool, pool2];

    let res = token_pair
        .settle_pools(
            &mut pools,
            MatchingSide::Buy,
            0,
            0,
            OraclePrice::new(300, -1),
            OraclePrice::new(3000, -2),
            135,
        )
        .unwrap();
    assert_eq!(settlement(0, 0, 0, 10000, 300, MatchingSide::Internal), res);

    let res = token_pair
        .settle_pools(
            &mut pools,
            MatchingSide::Buy,
            0,
            0,
            OraclePrice::new(300, -1),
            OraclePrice::new(3000, -2),
            135,
        )
        .unwrap();
    assert_eq!(settlement(0, 0, 0, 0, 0, MatchingSide::Internal), res);

    let res = token_pair
        .settle_pools(
            &mut pools,
            MatchingSide::Buy,
            2223,
            67,
            OraclePrice::new(300, -1),
            OraclePrice::new(3000, -2),
            300,
        )
        .unwrap();
    assert_eq!(settlement(2223, 2223, 67, 12223, 300, MatchingSide::Sell), res);
}

#[test]
fn test_get_token_pair_oracle_price() {
    let oracle_price1 = OraclePrice {
        price: 4004,
        exponent: -10,
    };
    let oracle_price2 = OraclePrice {
        price: 100001000,
        exponent: -8,
    };

    let pair_price = oracle_price1.checked_div(&oracle_price2).unwrap();
    assert_eq!(
        pair_price,
        OraclePrice {
            price: 40039,
            exponent: -11
        }
    );
}
