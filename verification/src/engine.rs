//! The multi-pool two-sided matching algorithm.
//!
//! Settlement proceeds in strict order: each pool is first matched against
//! itself, then residuals are matched pairwise across pools, and only the
//! remaining one-sided demand may absorb externally supplied liquidity.

use vstd::prelude::*;

use crate::error::TwammError;
use crate::math;
use crate::oracle::OraclePrice;
use crate::pool::{Pool, PoolSide};
use crate::token_pair::{MatchingSide, Settlement, TokenPair, TokenStats};

verus! {

/// The smaller of two mathematical integers.
pub open spec fn min_int(a: int, b: int) -> int {
    if a < b {
        a
    } else {
        b
    }
}

/// Sum of a per-pool weight over a sequence of pools.
pub open spec fn sum_by(s: Seq<Pool>, f: spec_fn(Pool) -> int) -> int
    decreases s.len(),
{
    if s.len() == 0 {
        0
    } else {
        sum_by(s.drop_last(), f) + f(s.last())
    }
}

/// Sum of a sequence of amounts.
pub open spec fn sum_u64(s: Seq<u64>) -> int
    decreases s.len(),
{
    if s.len() == 0 {
        0
    } else {
        sum_u64(s.drop_last()) + s.last()
    }
}

pub proof fn lemma_sum_by_take_succ(s: Seq<Pool>, f: spec_fn(Pool) -> int, k: int)
    requires
        0 <= k < s.len(),
    ensures
        sum_by(s.take(k + 1), f) == sum_by(s.take(k), f) + f(s[k]),
{
    assert(s.take(k + 1).drop_last() =~= s.take(k));
    assert(s.take(k + 1).last() == s[k]);
}

pub proof fn lemma_sum_by_take_full(s: Seq<Pool>, f: spec_fn(Pool) -> int)
    ensures
        sum_by(s.take(s.len() as int), f) == sum_by(s, f),
{
    assert(s.take(s.len() as int) =~= s);
}

pub proof fn lemma_sum_by_update(s: Seq<Pool>, f: spec_fn(Pool) -> int, i: int, p: Pool)
    requires
        0 <= i < s.len(),
    ensures
        sum_by(s.update(i, p), f) == sum_by(s, f) - f(s[i]) + f(p),
    decreases s.len(),
{
    let t = s.update(i, p);
    if i == s.len() - 1 {
        assert(t.drop_last() =~= s.drop_last());
        assert(t.last() == p);
    } else {
        assert(t.drop_last() =~= s.drop_last().update(i, p));
        assert(t.last() == s.last());
        lemma_sum_by_update(s.drop_last(), f, i, p);
    }
}

pub proof fn lemma_sum_by_nonneg(s: Seq<Pool>, f: spec_fn(Pool) -> int)
    requires
        forall|i: int| 0 <= i < s.len() ==> f(#[trigger] s[i]) >= 0,
    ensures
        sum_by(s, f) >= 0,
    decreases s.len(),
{
    if s.len() > 0 {
        assert(forall|i: int| 0 <= i < s.drop_last().len() ==> s.drop_last()[i] == s[i]);
        lemma_sum_by_nonneg(s.drop_last(), f);
    }
}

/// Two sequences whose per-pool weights agree element-wise sum alike.
pub proof fn lemma_sum_by_eq_sum_u64(s: Seq<Pool>, f: spec_fn(Pool) -> int, v: Seq<u64>)
    requires
        s.len() == v.len(),
        forall|i: int| 0 <= i < s.len() ==> f(#[trigger] s[i]) == v[i],
    ensures
        sum_by(s, f) == sum_u64(v),
    decreases s.len(),
{
    if s.len() > 0 {
        assert(forall|i: int| 0 <= i < s.drop_last().len() ==> s.drop_last()[i] == s[i]);
        assert(forall|i: int| 0 <= i < v.drop_last().len() ==> v.drop_last()[i] == v[i]);
        lemma_sum_by_eq_sum_u64(s.drop_last(), f, v.drop_last());
    }
}

pub proof fn lemma_sum_u64_take_succ(s: Seq<u64>, k: int)
    requires
        0 <= k < s.len(),
    ensures
        sum_u64(s.take(k + 1)) == sum_u64(s.take(k)) + s[k],
{
    assert(s.take(k + 1).drop_last() =~= s.take(k));
    assert(s.take(k + 1).last() == s[k]);
}

pub proof fn lemma_sum_u64_take_full(s: Seq<u64>)
    ensures
        sum_u64(s.take(s.len() as int)) == sum_u64(s),
{
    assert(s.take(s.len() as int) =~= s);
}

pub proof fn lemma_sum_u64_update(s: Seq<u64>, i: int, v: u64)
    requires
        0 <= i < s.len(),
    ensures
        sum_u64(s.update(i, v)) == sum_u64(s) - s[i] + v,
    decreases s.len(),
{
    let t = s.update(i, v);
    if i == s.len() - 1 {
        assert(t.drop_last() =~= s.drop_last());
        assert(t.last() == v);
    } else {
        assert(t.drop_last() =~= s.drop_last().update(i, v));
        assert(t.last() == s.last());
        lemma_sum_u64_update(s.drop_last(), i, v);
    }
}

pub proof fn lemma_sum_u64_nonneg(s: Seq<u64>)
    ensures
        sum_u64(s) >= 0,
    decreases s.len(),
{
    if s.len() > 0 {
        lemma_sum_u64_nonneg(s.drop_last());
    }
}

/// A sum of amounts is zero exactly when every amount is.
pub proof fn lemma_sum_u64_zero(s: Seq<u64>)
    requires
        sum_u64(s) == 0,
    ensures
        forall|i: int| 0 <= i < s.len() ==> s[i] == 0,
    decreases s.len(),
{
    if s.len() > 0 {
        lemma_sum_u64_nonneg(s.drop_last());
        lemma_sum_u64_zero(s.drop_last());
        assert(forall|i: int| 0 <= i < s.len() - 1 ==> s[i] == s.drop_last()[i]);
    }
}

/// A sequence of zero amounts sums to zero.
pub proof fn lemma_sum_u64_all_zero(s: Seq<u64>)
    requires
        forall|i: int| 0 <= i < s.len() ==> s[i] == 0,
    ensures
        sum_u64(s) == 0,
    decreases s.len(),
{
    if s.len() > 0 {
        assert(forall|i: int| 0 <= i < s.drop_last().len() ==> s.drop_last()[i] == s[i]);
        lemma_sum_u64_all_zero(s.drop_last());
    }
}

pub proof fn lemma_sum_u64_push(s: Seq<u64>, v: u64)
    ensures
        sum_u64(s.push(v)) == sum_u64(s) + v,
{
    assert(s.push(v).drop_last() =~= s);
    assert(s.push(v).last() == v);
}

pub proof fn lemma_sum_by_push(s: Seq<Pool>, f: spec_fn(Pool) -> int, p: Pool)
    ensures
        sum_by(s.push(p), f) == sum_by(s, f) + f(p),
{
    assert(s.push(p).drop_last() =~= s);
    assert(s.push(p).last() == p);
}

/// A sum of non-negative weights is zero exactly when every weight is.
pub proof fn lemma_sum_by_zero(s: Seq<Pool>, f: spec_fn(Pool) -> int)
    requires
        sum_by(s, f) == 0,
        forall|i: int| 0 <= i < s.len() ==> f(#[trigger] s[i]) >= 0,
    ensures
        forall|i: int| 0 <= i < s.len() ==> f(#[trigger] s[i]) == 0,
    decreases s.len(),
{
    if s.len() > 0 {
        assert(forall|i: int| 0 <= i < s.drop_last().len() ==> s.drop_last()[i] == s[i]);
        lemma_sum_by_nonneg(s.drop_last(), f);
        lemma_sum_by_zero(s.drop_last(), f);
    }
}

pub proof fn lemma_sum_u64_take_le(s: Seq<u64>, k: int)
    requires
        0 <= k <= s.len(),
    ensures
        sum_u64(s.take(k)) <= sum_u64(s),
    decreases s.len(),
{
    if k == s.len() {
        assert(s.take(k) =~= s);
    } else {
        assert(s.take(k) =~= s.drop_last().take(k));
        lemma_sum_u64_take_le(s.drop_last(), k);
    }
}

pub proof fn lemma_sum_by_take_le(s: Seq<Pool>, f: spec_fn(Pool) -> int, k: int)
    requires
        0 <= k <= s.len(),
        forall|i: int| 0 <= i < s.len() ==> f(#[trigger] s[i]) >= 0,
    ensures
        sum_by(s.take(k), f) <= sum_by(s, f),
    decreases s.len(),
{
    if k == s.len() {
        assert(s.take(k) =~= s);
    } else {
        assert(s.take(k) =~= s.drop_last().take(k));
        assert(forall|i: int| 0 <= i < s.drop_last().len() ==> s.drop_last()[i] == s[i]);
        lemma_sum_by_take_le(s.drop_last(), f, k);
    }
}

/// Sums of pointwise-equal weights agree.
pub proof fn lemma_sum_by_ptwise_eq(s: Seq<Pool>, f: spec_fn(Pool) -> int, g: spec_fn(Pool) -> int)
    requires
        forall|i: int| 0 <= i < s.len() ==> f(#[trigger] s[i]) == g(s[i]),
    ensures
        sum_by(s, f) == sum_by(s, g),
    decreases s.len(),
{
    if s.len() > 0 {
        assert(forall|i: int| 0 <= i < s.drop_last().len() ==> s.drop_last()[i] == s[i]);
        lemma_sum_by_ptwise_eq(s.drop_last(), f, g);
    }
}

/// Token-A holdings across pools: sell-side principal plus buy-side
/// proceeds.
pub open spec fn tok_a(s: Seq<Pool>) -> int {
    sum_by(s, |p: Pool| p.sell_side.source_balance + p.buy_side.target_balance)
}

/// Token-B holdings across pools: buy-side principal plus sell-side
/// proceeds.
pub open spec fn tok_b(s: Seq<Pool>) -> int {
    sum_by(s, |p: Pool| p.buy_side.source_balance + p.sell_side.target_balance)
}

/// Total sell-side decay caches across pools.
pub open spec fn sum_sell_debt(s: Seq<Pool>) -> int {
    sum_by(s, |p: Pool| p.sell_side.settlement_debt_total as int)
}

/// Total buy-side decay caches across pools.
pub open spec fn sum_buy_debt(s: Seq<Pool>) -> int {
    sum_by(s, |p: Pool| p.buy_side.settlement_debt_total as int)
}

/// Total sell-side amount eligible to be matched at `now`.
pub open spec fn sum_unsettled_sell(s: Seq<Pool>, now: int) -> int {
    sum_by(s, |p: Pool| p.sell_side.spec_unsettled(p.expiration_time as int, now))
}

/// Total buy-side amount eligible to be matched at `now`.
pub open spec fn sum_unsettled_buy(s: Seq<Pool>, now: int) -> int {
    sum_by(s, |p: Pool| p.buy_side.spec_unsettled(p.expiration_time as int, now))
}

/// Settlement leaves a pool's identity, share supply, debt totals and
/// trader counts untouched.
pub open spec fn pool_frame(a: Pool, b: Pool) -> bool {
    &&& b.status == a.status
    &&& b.time_in_force == a.time_in_force
    &&& b.expiration_time == a.expiration_time
    &&& b.counter == a.counter
    &&& b.sell_side.lp_supply == a.sell_side.lp_supply
    &&& b.sell_side.token_debt_total == a.sell_side.token_debt_total
    &&& b.sell_side.num_traders == a.sell_side.num_traders
    &&& b.buy_side.lp_supply == a.buy_side.lp_supply
    &&& b.buy_side.token_debt_total == a.buy_side.token_debt_total
    &&& b.buy_side.num_traders == a.buy_side.num_traders
}


impl TokenPair {
    /// The matching state after self-matching and cross-matching.
    pub open spec fn spec_settle_st2(self, s0: Seq<Pool>, oracle: OraclePrice, now: int) -> MatchState {
        self.spec_phase2(self.spec_phase1(s0, oracle, now), s0.len() as int, oracle)
    }

    /// The settlement side determined by the residual nets.
    pub open spec fn spec_settle_side(self, s0: Seq<Pool>, oracle: OraclePrice, now: int) -> MatchingSide {
        let st2 = self.spec_settle_st2(s0, oracle, now);
        if sum_u64(st2.out_a) as u64 != 0 {
            MatchingSide::Sell
        } else if sum_u64(st2.out_b) as u64 != 0 {
            MatchingSide::Buy
        } else {
            MatchingSide::Internal
        }
    }

    /// Whether an external fill takes place.
    pub open spec fn spec_settle_do_fill(
        self,
        s0: Seq<Pool>,
        supply_side: MatchingSide,
        token_a_change: u64,
        token_b_change: u64,
        oracle: OraclePrice,
        now: int,
    ) -> bool {
        let side = self.spec_settle_side(s0, oracle, now);
        side != MatchingSide::Internal && supply_side != side && token_a_change != 0
            && token_b_change != 0
    }

    /// The fill caps: the pool-side amount to pay out, the supply-side
    /// amount to receive, and whether computing them stayed in range.
    pub open spec fn spec_settle_caps(
        self,
        s0: Seq<Pool>,
        supply_side: MatchingSide,
        token_a_change: u64,
        token_b_change: u64,
        rate: OraclePrice,
        oracle: OraclePrice,
        now: int,
    ) -> (u64, u64, bool) {
        let st2 = self.spec_settle_st2(s0, oracle, now);
        let net_a = sum_u64(st2.out_a) as u64;
        let net_b = sum_u64(st2.out_b) as u64;
        let ok3 = st2.ok && !(net_a != 0 && net_b != 0);
        if self.spec_settle_do_fill(s0, supply_side, token_a_change, token_b_change, oracle, now) {
            if net_a != 0 {
                let po = if token_a_change < net_a {
                    token_a_change
                } else {
                    net_a
                };
                if token_a_change <= net_a {
                    (po, token_b_change, ok3)
                } else {
                    (
                        po,
                        self.spec_token_b_amount_ceil(po, rate) as u64,
                        ok3 && self.spec_token_b_amount_ceil_ok(po, rate),
                    )
                }
            } else {
                let po = if token_b_change < net_b {
                    token_b_change
                } else {
                    net_b
                };
                if token_b_change <= net_b {
                    (po, token_a_change, ok3)
                } else {
                    (
                        po,
                        self.spec_token_a_amount_ceil(po, rate) as u64,
                        ok3 && self.spec_token_a_amount_ceil_ok(po, rate),
                    )
                }
            }
        } else {
            (0u64, 0u64, ok3)
        }
    }

    /// The state entering the external-fill phase.
    pub open spec fn spec_settle_fill0(
        self,
        s0: Seq<Pool>,
        supply_side: MatchingSide,
        token_a_change: u64,
        token_b_change: u64,
        rate: OraclePrice,
        oracle: OraclePrice,
        now: int,
    ) -> FillState {
        let st2 = self.spec_settle_st2(s0, oracle, now);
        let caps = self.spec_settle_caps(s0, supply_side, token_a_change, token_b_change, rate, oracle, now);
        FillState {
            pools: st2.pools,
            out_a: st2.out_a,
            out_b: st2.out_b,
            filled: Seq::new(s0.len(), |i: int| false),
            pool_out: caps.0,
            supply_in: caps.1,
            settled_num: 0,
            done: false,
            ok: caps.2,
        }
    }

    /// The state after the external-fill phase.
    pub open spec fn spec_settle_fillf(
        self,
        s0: Seq<Pool>,
        supply_side: MatchingSide,
        token_a_change: u64,
        token_b_change: u64,
        rate: OraclePrice,
        oracle: OraclePrice,
        now: int,
    ) -> FillState {
        let st2 = self.spec_settle_st2(s0, oracle, now);
        let fill0 = self.spec_settle_fill0(s0, supply_side, token_a_change, token_b_change, rate, oracle, now);
        if self.spec_settle_do_fill(s0, supply_side, token_a_change, token_b_change, oracle, now) {
            self.fill_from(fill0, 0, s0.len() as int, sum_u64(st2.out_a) as u64 != 0, rate)
        } else {
            fill0
        }
    }

    /// The settlement model of one `settle_pools` call: self-matching, then
    /// pairwise cross-pool matching, then the external fill of the residual
    /// one-sided demand, then the cache write-back and cleared totals.
    pub open spec fn spec_settle(
        self,
        s0: Seq<Pool>,
        supply_side: MatchingSide,
        token_a_change: u64,
        token_b_change: u64,
        rate: OraclePrice,
        oracle: OraclePrice,
        now: int,
    ) -> SettleModel {
        let st2 = self.spec_settle_st2(s0, oracle, now);
        let net_a = sum_u64(st2.out_a) as u64;
        let net_b = sum_u64(st2.out_b) as u64;
        let side = self.spec_settle_side(s0, oracle, now);
        let req: u64 = if net_a != 0 {
            net_a
        } else if net_b != 0 {
            net_b
        } else {
            0
        };
        let do_fill = self.spec_settle_do_fill(s0, supply_side, token_a_change, token_b_change, oracle, now);
        let caps = self.spec_settle_caps(s0, supply_side, token_a_change, token_b_change, rate, oracle, now);
        let fillf = self.spec_settle_fillf(s0, supply_side, token_a_change, token_b_change, rate, oracle, now);
        let pools5 = Seq::new(
            s0.len(),
            |i: int|
                Pool {
                    sell_side: PoolSide {
                        settlement_debt_total: fillf.out_a[i],
                        last_balance_change_time: now as i64,
                        ..fillf.pools[i].sell_side
                    },
                    buy_side: PoolSide {
                        settlement_debt_total: fillf.out_b[i],
                        last_balance_change_time: now as i64,
                        ..fillf.pools[i].buy_side
                    },
                    ..fillf.pools[i]
                },
        );
        let settled: u64 = if do_fill {
            caps.0
        } else {
            0
        };
        let received: u64 = if do_fill {
            caps.1
        } else {
            0
        };
        let res = Settlement {
            net_amount_settled: settled,
            net_amount_required: req,
            source_amount_received: received,
            total_amount_settled_a: (if side == MatchingSide::Sell {
                sum_unsettled_sell(s0, now) - net_a + settled
            } else {
                sum_unsettled_sell(s0, now) - net_a
            }) as u64,
            total_amount_settled_b: (if side == MatchingSide::Sell {
                sum_unsettled_buy(s0, now) - net_b
            } else {
                sum_unsettled_buy(s0, now) - net_b + settled
            }) as u64,
            settlement_side: side,
        };
        SettleModel { pools: pools5, res, ok: fillf.ok }
    }

    /// The model owes success only when the fill phase was entered in
    /// range.
    pub proof fn lemma_settle_needs_fill0(
        self,
        s0: Seq<Pool>,
        supply_side: MatchingSide,
        token_a_change: u64,
        token_b_change: u64,
        rate: OraclePrice,
        oracle: OraclePrice,
        now: int,
    )
        requires
            !self.spec_settle_fill0(s0, supply_side, token_a_change, token_b_change, rate, oracle, now).ok,
        ensures
            !self.spec_settle(s0, supply_side, token_a_change, token_b_change, rate, oracle, now).ok,
    {
        let st2 = self.spec_settle_st2(s0, oracle, now);
        let fill0 = self.spec_settle_fill0(s0, supply_side, token_a_change, token_b_change, rate, oracle, now);
        if self.spec_settle_do_fill(s0, supply_side, token_a_change, token_b_change, oracle, now) {
            self.lemma_fill_ok_monotone(
                fill0,
                0,
                s0.len() as int,
                sum_u64(st2.out_a) as u64 != 0,
                rate,
            );
        }
    }

    /// A settlement that failed in an early phase fails as a whole.
    pub proof fn lemma_settle_ok_unfold(
        self,
        s0: Seq<Pool>,
        supply_side: MatchingSide,
        token_a_change: u64,
        token_b_change: u64,
        rate: OraclePrice,
        oracle: OraclePrice,
        now: int,
    )
        ensures
            ({
                let n = s0.len() as int;
                let st1 = self.spec_phase1(s0, oracle, now);
                let st2 = self.spec_phase2(st1, n, oracle);
                let m = self.spec_settle(s0, supply_side, token_a_change, token_b_change, rate, oracle, now);
                &&& (!st1.ok ==> !st2.ok)
                &&& (!st2.ok ==> !m.ok)
            }),
    {
        let n = s0.len() as int;
        let st1 = self.spec_phase1(s0, oracle, now);
        let st2 = self.spec_phase2(st1, n, oracle);
        if !st1.ok {
            self.lemma_p2_ok_monotone(st1, 0, 1, n, oracle);
        }
        if !st2.ok {
            self.lemma_settle_needs_fill0(s0, supply_side, token_a_change, token_b_change, rate, oracle, now);
        }
    }

    /// The model owes success only when the first phase stayed in range.
    pub proof fn lemma_settle_needs_phase1(
        self,
        s0: Seq<Pool>,
        supply_side: MatchingSide,
        token_a_change: u64,
        token_b_change: u64,
        rate: OraclePrice,
        oracle: OraclePrice,
        now: int,
    )
        requires
            !self.spec_phase1_ok(s0, oracle, now),
        ensures
            !self.spec_settle(s0, supply_side, token_a_change, token_b_change, rate, oracle, now).ok,
    {
        self.lemma_settle_ok_unfold(s0, supply_side, token_a_change, token_b_change, rate, oracle, now);
    }

    /// The model owes success only when cross-matching stayed in range.
    pub proof fn lemma_settle_needs_phase2(
        self,
        s0: Seq<Pool>,
        supply_side: MatchingSide,
        token_a_change: u64,
        token_b_change: u64,
        rate: OraclePrice,
        oracle: OraclePrice,
        now: int,
    )
        requires
            !self.spec_phase2(self.spec_phase1(s0, oracle, now), s0.len() as int, oracle).ok,
        ensures
            !self.spec_settle(s0, supply_side, token_a_change, token_b_change, rate, oracle, now).ok,
    {
        self.lemma_settle_ok_unfold(s0, supply_side, token_a_change, token_b_change, rate, oracle, now);
    }
}

/// Invariant relating the working pools and residual arrays to the input
/// pools throughout settlement: frames kept, residuals bounded by the
/// source balances, caches untouched until the final write-back, and the
/// whole principal outstanding at the margin-adjusted expiration.
pub open spec fn settle_frames(s0: Seq<Pool>, w: Seq<Pool>, oa: Seq<u64>, ob: Seq<u64>, now: int) -> bool {
    &&& w.len() == s0.len()
    &&& oa.len() == s0.len()
    &&& ob.len() == s0.len()
    &&& (forall|i: int| 0 <= i < s0.len() ==> pool_frame(s0[i], #[trigger] w[i]))
    &&& (forall|i: int|
        0 <= i < s0.len() ==> (#[trigger] w[i]).sell_side.last_balance_change_time
            == s0[i].sell_side.last_balance_change_time
            && w[i].buy_side.last_balance_change_time
            == s0[i].buy_side.last_balance_change_time
            && w[i].sell_side.settlement_debt_total == s0[i].sell_side.settlement_debt_total
            && w[i].buy_side.settlement_debt_total == s0[i].buy_side.settlement_debt_total)
    &&& (forall|i: int|
        0 <= i < s0.len() ==> oa[i] <= (#[trigger] w[i]).sell_side.source_balance && ob[i]
            <= w[i].buy_side.source_balance)
    &&& (forall|i: int|
        0 <= i < s0.len() ==> ((s0[i].sell_side.last_balance_change_time <= now && now
            >= s0[i].expiration_time - 30) ==> oa[i] == (
        #[trigger] w[i]).sell_side.source_balance))
    &&& (forall|i: int|
        0 <= i < s0.len() ==> ((s0[i].buy_side.last_balance_change_time <= now && now
            >= s0[i].expiration_time - 30) ==> ob[i] == (#[trigger] w[i]).buy_side.source_balance))
    &&& (forall|i: int|
        0 <= i < s0.len() ==> (#[trigger] w[i]).sell_side.source_balance
            <= s0[i].sell_side.source_balance && w[i].buy_side.source_balance
            <= s0[i].buy_side.source_balance && w[i].sell_side.target_balance
            >= s0[i].sell_side.target_balance && w[i].buy_side.target_balance
            >= s0[i].buy_side.target_balance)
}

/// A second settlement in immediate succession finds each side's eligible
/// amount equal to its cached residual and one side globally drained.
pub open spec fn spec_settle_noop(s: Seq<Pool>, token_a_change: u64, token_b_change: u64, now: int) -> bool {
    &&& token_a_change == 0
    &&& token_b_change == 0
    &&& (forall|i: int|
        0 <= i < s.len() ==> {
            let p = #[trigger] s[i];
            &&& p.sell_side.spec_unsettled(p.expiration_time as int, now)
                == p.sell_side.settlement_debt_total
            &&& p.sell_side.spec_unsettled_ok(p.expiration_time as int, now)
            &&& p.buy_side.spec_unsettled(p.expiration_time as int, now)
                == p.buy_side.settlement_debt_total
            &&& p.buy_side.spec_unsettled_ok(p.expiration_time as int, now)
        })
    &&& (sum_sell_debt(s) == 0 || sum_buy_debt(s) == 0)
    &&& sum_sell_debt(s) <= u64::MAX
    &&& sum_buy_debt(s) <= u64::MAX
}

/// A pool side after crossing away `m0` of its principal for `m1` of
/// proceeds.
pub open spec fn crossed_sell_side(s: PoolSide, m0: int, m1: int) -> PoolSide {
    PoolSide {
        source_balance: (s.source_balance - m0) as u64,
        target_balance: (s.target_balance + m1) as u64,
        fills_volume: (s.fills_volume + m0) as u64,
        ..s
    }
}

/// A buy side after receiving `m0` of proceeds for `m1` of its principal.
pub open spec fn crossed_buy_side(s: PoolSide, m0: int, m1: int) -> PoolSide {
    PoolSide {
        source_balance: (s.source_balance - m1) as u64,
        target_balance: (s.target_balance + m0) as u64,
        fills_volume: (s.fills_volume + m1) as u64,
        ..s
    }
}

/// State threaded through the matching phases of the settlement model:
/// the working pools, the residual outstanding amounts per pool, and
/// whether every step so far stayed within the machine widths.
pub struct MatchState {
    pub pools: Seq<Pool>,
    pub out_a: Seq<u64>,
    pub out_b: Seq<u64>,
    pub ok: bool,
}

/// State threaded through the external-fill phase of the settlement model.
pub struct FillState {
    pub pools: Seq<Pool>,
    pub out_a: Seq<u64>,
    pub out_b: Seq<u64>,
    pub filled: Seq<bool>,
    pub pool_out: u64,
    pub supply_in: u64,
    pub settled_num: u64,
    pub done: bool,
    pub ok: bool,
}

/// The settlement model's result: the pools written back and the returned
/// settlement, valid when `ok`.
pub struct SettleModel {
    pub pools: Seq<Pool>,
    pub res: Settlement,
    pub ok: bool,
}

impl TokenPair {
    /// Sell-side amount eligible to be matched at `now`.
    pub open spec fn p1_os(self, p: Pool, now: int) -> u64 {
        p.sell_side.spec_unsettled(p.expiration_time as int, now) as u64
    }

    /// Buy-side amount eligible to be matched at `now`.
    pub open spec fn p1_ob(self, p: Pool, now: int) -> u64 {
        p.buy_side.spec_unsettled(p.expiration_time as int, now) as u64
    }

    /// One pool after settling against itself.
    pub open spec fn p1_pool(self, p: Pool, oracle: OraclePrice, now: int) -> Pool {
        let m = self.spec_cross(self.p1_os(p, now), self.p1_ob(p, now), oracle);
        Pool {
            sell_side: crossed_sell_side(p.sell_side, m.0, m.1),
            buy_side: crossed_buy_side(p.buy_side, m.0, m.1),
            ..p
        }
    }

    /// Sell-side residual after self-matching.
    pub open spec fn p1_out_a(self, p: Pool, oracle: OraclePrice, now: int) -> u64 {
        let m = self.spec_cross(self.p1_os(p, now), self.p1_ob(p, now), oracle);
        (self.p1_os(p, now) - m.0) as u64
    }

    /// Buy-side residual after self-matching.
    pub open spec fn p1_out_b(self, p: Pool, oracle: OraclePrice, now: int) -> u64 {
        let m = self.spec_cross(self.p1_os(p, now), self.p1_ob(p, now), oracle);
        (self.p1_ob(p, now) - m.1) as u64
    }

    /// Every eligible amount and self-crossing of the first phase stays
    /// within the machine widths.
    pub open spec fn spec_phase1_ok(self, s: Seq<Pool>, oracle: OraclePrice, now: int) -> bool {
        &&& (forall|i: int|
            0 <= i < s.len() ==> {
                let p = #[trigger] s[i];
                &&& p.sell_side.spec_unsettled_ok(p.expiration_time as int, now)
                &&& p.buy_side.spec_unsettled_ok(p.expiration_time as int, now)
                &&& self.spec_settle_sides_ok(
                    p.sell_side,
                    p.buy_side,
                    self.p1_os(p, now),
                    self.p1_ob(p, now),
                    oracle,
                )
            })
        &&& sum_unsettled_sell(s, now) <= u64::MAX
        &&& sum_unsettled_buy(s, now) <= u64::MAX
    }

    /// First phase of settlement: each pool matched against itself.
    pub open spec fn spec_phase1(self, s: Seq<Pool>, oracle: OraclePrice, now: int) -> MatchState {
        MatchState {
            pools: Seq::new(s.len(), |i: int| self.p1_pool(s[i], oracle, now)),
            out_a: Seq::new(s.len(), |i: int| self.p1_out_a(s[i], oracle, now)),
            out_b: Seq::new(s.len(), |i: int| self.p1_out_b(s[i], oracle, now)),
            ok: self.spec_phase1_ok(s, oracle, now),
        }
    }

    /// Crossing of pool `i`'s sell residual against pool `j`'s buy residual.
    pub open spec fn p2_cross_ab(self, st: MatchState, i: int, j: int, oracle: OraclePrice) -> MatchState {
        if st.out_a[i] != 0 && st.out_b[j] != 0 {
            let ok2 = st.ok && self.spec_settle_sides_ok(
                st.pools[i].sell_side,
                st.pools[j].buy_side,
                st.out_a[i],
                st.out_b[j],
                oracle,
            );
            let m = self.spec_cross(st.out_a[i], st.out_b[j], oracle);
            MatchState {
                pools: st.pools.update(
                    i,
                    Pool { sell_side: crossed_sell_side(st.pools[i].sell_side, m.0, m.1), ..st.pools[i] },
                ).update(
                    j,
                    Pool { buy_side: crossed_buy_side(st.pools[j].buy_side, m.0, m.1), ..st.pools[j] },
                ),
                out_a: st.out_a.update(i, (st.out_a[i] - m.0) as u64),
                out_b: st.out_b.update(j, (st.out_b[j] - m.1) as u64),
                ok: ok2,
            }
        } else {
            st
        }
    }

    /// Crossing of pool `j`'s sell residual against pool `i`'s buy residual.
    pub open spec fn p2_cross_ba(self, st: MatchState, i: int, j: int, oracle: OraclePrice) -> MatchState {
        if st.out_b[i] != 0 && st.out_a[j] != 0 {
            let ok2 = st.ok && self.spec_settle_sides_ok(
                st.pools[j].sell_side,
                st.pools[i].buy_side,
                st.out_a[j],
                st.out_b[i],
                oracle,
            );
            let m = self.spec_cross(st.out_a[j], st.out_b[i], oracle);
            MatchState {
                pools: st.pools.update(
                    j,
                    Pool { sell_side: crossed_sell_side(st.pools[j].sell_side, m.0, m.1), ..st.pools[j] },
                ).update(
                    i,
                    Pool { buy_side: crossed_buy_side(st.pools[i].buy_side, m.0, m.1), ..st.pools[i] },
                ),
                out_a: st.out_a.update(j, (st.out_a[j] - m.0) as u64),
                out_b: st.out_b.update(i, (st.out_b[i] - m.1) as u64),
                ok: ok2,
            }
        } else {
            st
        }
    }

    /// One ordered pool pair of the cross-matching phase.
    pub open spec fn p2_pair(self, st: MatchState, i: int, j: int, oracle: OraclePrice) -> MatchState {
        self.p2_cross_ba(self.p2_cross_ab(st, i, j, oracle), i, j, oracle)
    }

    /// The cross-matching phase from pair `(i, j)` on.
    pub open spec fn p2_from(self, st: MatchState, i: int, j: int, n: int, oracle: OraclePrice) -> MatchState
        decreases n - i, n - j,
    {
        if i < 0 || j < i + 1 || i >= n - 1 {
            st
        } else if j >= n {
            self.p2_from(st, i + 1, i + 2, n, oracle)
        } else {
            self.p2_from(self.p2_pair(st, i, j, oracle), i, j + 1, n, oracle)
        }
    }

    /// Second phase of settlement: pairwise cross-pool matching.
    pub open spec fn spec_phase2(self, st: MatchState, n: int, oracle: OraclePrice) -> MatchState {
        self.p2_from(st, 0, 1, n, oracle)
    }

    /// A failed step never recovers through later cross-matching.
    pub proof fn lemma_p2_ok_monotone(self, st: MatchState, i: int, j: int, n: int, oracle: OraclePrice)
        requires
            !st.ok,
        ensures
            !self.p2_from(st, i, j, n, oracle).ok,
        decreases n - i, n - j,
    {
        if i < 0 || j < i + 1 || i >= n - 1 {
        } else if j >= n {
            self.lemma_p2_ok_monotone(st, i + 1, i + 2, n, oracle);
        } else {
            assert(!self.p2_pair(st, i, j, oracle).ok);
            self.lemma_p2_ok_monotone(self.p2_pair(st, i, j, oracle), i, j + 1, n, oracle);
        }
    }

    /// The remainder redistribution from index `ri` on: each filled pool's
    /// target balance takes up to `leftover`, until the remainder is gone.
    pub open spec fn redist_from(self, fs: FillState, leftover: u64, is_sell: bool, ri: int, n: int) -> FillState
        decreases n - ri,
    {
        if ri < 0 || ri >= n {
            fs
        } else {
            let bc = if fs.supply_in < leftover {
                fs.supply_in
            } else {
                leftover
            };
            if bc == 0 {
                fs
            } else {
                let fs1 = if fs.filled[ri] {
                    let p = fs.pools[ri];
                    if is_sell {
                        FillState {
                            pools: fs.pools.update(
                                ri,
                                Pool {
                                    sell_side: PoolSide {
                                        target_balance: (p.sell_side.target_balance + bc) as u64,
                                        ..p.sell_side
                                    },
                                    ..p
                                },
                            ),
                            supply_in: (fs.supply_in - bc) as u64,
                            ok: fs.ok && p.sell_side.target_balance + bc <= u64::MAX,
                            ..fs
                        }
                    } else {
                        FillState {
                            pools: fs.pools.update(
                                ri,
                                Pool {
                                    buy_side: PoolSide {
                                        target_balance: (p.buy_side.target_balance + bc) as u64,
                                        ..p.buy_side
                                    },
                                    ..p
                                },
                            ),
                            supply_in: (fs.supply_in - bc) as u64,
                            ok: fs.ok && p.buy_side.target_balance + bc <= u64::MAX,
                            ..fs
                        }
                    }
                } else {
                    fs
                };
                self.redist_from(fs1, leftover, is_sell, ri + 1, n)
            }
        }
    }

    pub proof fn lemma_redist_ok_monotone(self, fs: FillState, leftover: u64, is_sell: bool, ri: int, n: int)
        requires
            !fs.ok,
        ensures
            !self.redist_from(fs, leftover, is_sell, ri, n).ok,
        decreases n - ri,
    {
        if 0 <= ri < n {
            let bc = if fs.supply_in < leftover {
                fs.supply_in
            } else {
                leftover
            };
            if bc != 0 {
                if fs.filled[ri] {
                    if is_sell {
                        self.lemma_redist_ok_monotone(
                            FillState {
                                pools: fs.pools.update(
                                    ri,
                                    Pool {
                                        sell_side: PoolSide {
                                            target_balance: (fs.pools[ri].sell_side.target_balance
                                                + bc) as u64,
                                            ..fs.pools[ri].sell_side
                                        },
                                        ..fs.pools[ri]
                                    },
                                ),
                                supply_in: (fs.supply_in - bc) as u64,
                                ok: fs.ok && fs.pools[ri].sell_side.target_balance + bc
                                    <= u64::MAX,
                                ..fs
                            },
                            leftover,
                            is_sell,
                            ri + 1,
                            n,
                        );
                    } else {
                        self.lemma_redist_ok_monotone(
                            FillState {
                                pools: fs.pools.update(
                                    ri,
                                    Pool {
                                        buy_side: PoolSide {
                                            target_balance: (fs.pools[ri].buy_side.target_balance
                                                + bc) as u64,
                                            ..fs.pools[ri].buy_side
                                        },
                                        ..fs.pools[ri]
                                    },
                                ),
                                supply_in: (fs.supply_in - bc) as u64,
                                ok: fs.ok && fs.pools[ri].buy_side.target_balance + bc <= u64::MAX,
                                ..fs
                            },
                            leftover,
                            is_sell,
                            ri + 1,
                            n,
                        );
                    }
                } else {
                    self.lemma_redist_ok_monotone(fs, leftover, is_sell, ri + 1, n);
                }
            }
        }
    }

    /// The crossing of one pool against the remaining supply: the state
    /// after it, the amount settled and the amount received.
    pub open spec fn fill_branch(self, fs: FillState, k: int, rate: OraclePrice) -> (FillState, int, int) {
        if fs.out_a[k] != 0 {
            let pk = fs.pools[k];
            let amt = if fs.pool_out < fs.out_a[k] {
                fs.pool_out
            } else {
                fs.out_a[k]
            };
            let m = self.spec_supply_cross(MatchingSide::Sell, amt, fs.supply_in, rate);
            (
                FillState {
                    pools: fs.pools.update(
                        k,
                        Pool { sell_side: crossed_sell_side(pk.sell_side, m.0, m.1), ..pk },
                    ),
                    out_a: fs.out_a.update(k, (fs.out_a[k] - m.0) as u64),
                    filled: fs.filled.update(k, true),
                    settled_num: (fs.settled_num + 1) as u64,
                    ok: fs.ok && self.spec_settle_supply_ok(
                        pk.sell_side,
                        MatchingSide::Sell,
                        amt,
                        fs.supply_in,
                        rate,
                    ) && m.0 <= fs.out_a[k],
                    ..fs
                },
                m.0,
                m.1,
            )
        } else if fs.out_b[k] != 0 {
            let pk = fs.pools[k];
            let amt = if fs.pool_out < fs.out_b[k] {
                fs.pool_out
            } else {
                fs.out_b[k]
            };
            let m = self.spec_supply_cross(MatchingSide::Buy, amt, fs.supply_in, rate);
            (
                FillState {
                    pools: fs.pools.update(
                        k,
                        Pool { buy_side: crossed_sell_side(pk.buy_side, m.0, m.1), ..pk },
                    ),
                    out_b: fs.out_b.update(k, (fs.out_b[k] - m.0) as u64),
                    filled: fs.filled.update(k, true),
                    settled_num: (fs.settled_num + 1) as u64,
                    ok: fs.ok && self.spec_settle_supply_ok(
                        pk.buy_side,
                        MatchingSide::Buy,
                        amt,
                        fs.supply_in,
                        rate,
                    ) && m.0 <= fs.out_b[k],
                    ..fs
                },
                m.0,
                m.1,
            )
        } else {
            (fs, 0int, 0int)
        }
    }

    /// Once the pool-side cap or the supply runs out, the rounding
    /// remainder is spread over the filled pools and the fill ends.
    pub open spec fn fill_close(self, fs2: FillState, n: int, is_sell: bool) -> FillState {
        if fs2.pool_out == 0 || fs2.supply_in == 0 {
            let fs3 = if fs2.supply_in > 0 {
                let leftover = math::ceil_div_val(fs2.supply_in as int, fs2.settled_num as int) as u64;
                let fs4 = self.redist_from(
                    FillState { ok: fs2.ok && fs2.settled_num != 0, ..fs2 },
                    leftover,
                    is_sell,
                    0,
                    n,
                );
                FillState { ok: fs4.ok && fs4.pool_out == 0 && fs4.supply_in == 0, ..fs4 }
            } else {
                fs2
            };
            FillState { done: true, ..fs3 }
        } else {
            fs2
        }
    }

    /// One pool of the external-fill phase.
    pub open spec fn fill_step(self, fs: FillState, k: int, n: int, is_sell: bool, rate: OraclePrice) -> FillState {
        let step = self.fill_branch(fs, k, rate);
        let fs2 = FillState {
            pool_out: (fs.pool_out - step.1) as u64,
            supply_in: (fs.supply_in - step.2) as u64,
            ok: step.0.ok && step.1 <= fs.pool_out && step.2 <= fs.supply_in,
            ..step.0
        };
        self.fill_close(fs2, n, is_sell)
    }

    /// The external-fill phase from pool `k` on.
    pub open spec fn fill_from(self, fs: FillState, k: int, n: int, is_sell: bool, rate: OraclePrice) -> FillState
        decreases n - k,
    {
        if k < 0 || k >= n || fs.done {
            fs
        } else {
            self.fill_from(self.fill_step(fs, k, n, is_sell, rate), k + 1, n, is_sell, rate)
        }
    }

    /// Closing the fill from an out-of-range state stays out of range.
    pub proof fn lemma_fill_close_not_ok(self, fs2: FillState, n: int, is_sell: bool)
        requires
            !fs2.ok,
        ensures
            !self.fill_close(fs2, n, is_sell).ok,
    {
        if (fs2.pool_out == 0 || fs2.supply_in == 0) && fs2.supply_in > 0 {
            let leftover = math::ceil_div_val(fs2.supply_in as int, fs2.settled_num as int) as u64;
            self.lemma_redist_ok_monotone(
                FillState { ok: fs2.ok && fs2.settled_num != 0, ..fs2 },
                leftover,
                is_sell,
                0,
                n,
            );
        }
    }

    /// A failed fill step fails the whole fill.
    pub proof fn lemma_fill_from_err(self, cur: FillState, k: int, n: int, is_sell: bool, rate: OraclePrice)
        requires
            0 <= k < n,
            !cur.done,
            !self.fill_step(cur, k, n, is_sell, rate).ok,
        ensures
            !self.fill_from(cur, k, n, is_sell, rate).ok,
    {
        self.lemma_fill_ok_monotone(
            self.fill_step(cur, k, n, is_sell, rate),
            k + 1,
            n,
            is_sell,
            rate,
        );
    }

    pub proof fn lemma_fill_ok_monotone(self, fs: FillState, k: int, n: int, is_sell: bool, rate: OraclePrice)
        requires
            !fs.ok,
        ensures
            !self.fill_from(fs, k, n, is_sell, rate).ok,
        decreases n - k,
    {
        if 0 <= k < n && !fs.done {
            self.lemma_fill_step_ok_monotone(fs, k, n, is_sell, rate);
            self.lemma_fill_ok_monotone(
                self.fill_step(fs, k, n, is_sell, rate),
                k + 1,
                n,
                is_sell,
                rate,
            );
        }
    }

    pub proof fn lemma_fill_step_ok_monotone(self, fs: FillState, k: int, n: int, is_sell: bool, rate: OraclePrice)
        requires
            !fs.ok,
        ensures
            !self.fill_step(fs, k, n, is_sell, rate).ok,
    {
        assert forall|lo: u64, inner: FillState| !inner.ok implies !self.redist_from(
            inner,
            lo,
            is_sell,
            0,
            n,
        ).ok by {
            self.lemma_redist_ok_monotone(inner, lo, is_sell, 0, n);
        }
    }
}

impl TokenPair {
    /// Amounts matched when `outstanding_sell` token A crosses
    /// `outstanding_buy` token B at `rate`, before the zero-dust rule.
    pub open spec fn spec_cross_raw(self, outstanding_sell: u64, outstanding_buy: u64, rate: OraclePrice) -> (int, int) {
        let expected_buy = self.spec_token_b_amount(outstanding_sell, rate);
        if expected_buy <= outstanding_buy {
            (outstanding_sell as int, expected_buy)
        } else {
            (
                min_int(outstanding_sell as int, self.spec_token_a_amount(outstanding_buy, rate)),
                outstanding_buy as int,
            )
        }
    }

    /// Amounts matched by the crossing primitive: zero when either side is
    /// zero or either matched amount rounds to zero.
    pub open spec fn spec_cross(self, outstanding_sell: u64, outstanding_buy: u64, rate: OraclePrice) -> (int, int) {
        if outstanding_sell == 0 || outstanding_buy == 0 {
            (0int, 0int)
        } else {
            let r = self.spec_cross_raw(outstanding_sell, outstanding_buy, rate);
            if r.0 == 0 || r.1 == 0 {
                (0int, 0int)
            } else {
                r
            }
        }
    }

    /// The conversions of the crossing stay within the machine widths.
    pub open spec fn spec_cross_conv_ok(self, outstanding_sell: u64, outstanding_buy: u64, rate: OraclePrice) -> bool {
        outstanding_sell == 0 || outstanding_buy == 0 || (self.spec_token_b_amount_ok(
            outstanding_sell,
            rate,
        ) && (self.spec_token_b_amount(outstanding_sell, rate) <= outstanding_buy
            || self.spec_token_a_amount_ok(outstanding_buy, rate)))
    }

    /// The crossing and its balance updates stay within the machine widths.
    pub open spec fn spec_settle_sides_ok(self, sell_side: PoolSide, buy_side: PoolSide, outstanding_sell: u64, outstanding_buy: u64, rate: OraclePrice) -> bool {
        let m = self.spec_cross(outstanding_sell, outstanding_buy, rate);
        &&& self.spec_cross_conv_ok(outstanding_sell, outstanding_buy, rate)
        &&& sell_side.target_balance + m.1 <= u64::MAX
        &&& buy_side.target_balance + m.0 <= u64::MAX
        &&& sell_side.fills_volume + m.0 <= u64::MAX
        &&& buy_side.fills_volume + m.1 <= u64::MAX
    }

    /// The token conversions are non-negative; a conversion through a zero
    /// price is zero.
    pub proof fn lemma_amounts_nonneg(self, amount: u64, rate: OraclePrice)
        ensures
            self.spec_token_b_amount(amount, rate) >= 0,
            rate.price != 0 ==> self.spec_token_a_amount(amount, rate) >= 0,
            rate.price == 0 ==> self.spec_token_b_amount(amount, rate) == 0,
    {
        math::lemma_decimal_mul_nonneg(
            amount,
            -(self.config_a.decimals as int),
            rate.price,
            rate.exponent as int,
            -(self.config_b.decimals as int),
        );
        if rate.price != 0 {
            math::lemma_decimal_div_nonneg(
                amount,
                -(self.config_b.decimals as int),
                rate.price,
                rate.exponent as int,
                -(self.config_a.decimals as int),
            );
        } else {
            math::lemma_decimal_mul_zero(
                amount,
                -(self.config_a.decimals as int),
                rate.price,
                rate.exponent as int,
                -(self.config_b.decimals as int),
            );
        }
    }

    /// The matched amounts never exceed the outstanding amounts.
    pub proof fn lemma_cross_bounds(self, outstanding_sell: u64, outstanding_buy: u64, rate: OraclePrice)
        ensures
            0 <= self.spec_cross(outstanding_sell, outstanding_buy, rate).0 <= outstanding_sell,
            0 <= self.spec_cross(outstanding_sell, outstanding_buy, rate).1 <= outstanding_buy,
    {
        if outstanding_sell != 0 && outstanding_buy != 0 {
            self.lemma_amounts_nonneg(outstanding_sell, rate);
            let eb = self.spec_token_b_amount(outstanding_sell, rate);
            if eb > outstanding_buy {
                assert(rate.price != 0);
                self.lemma_amounts_nonneg(outstanding_buy, rate);
            }
        }
    }

    /// Matches a sell side's outstanding amount against a buy side's at
    /// `exchange_rate`: the sell amount's counter-value caps the match on
    /// one side or the other, balances move accordingly, and a crossing that
    /// rounds to zero on either side moves nothing.
    pub fn settle_sides(
        &self,
        sell_side: &mut PoolSide,
        buy_side: &mut PoolSide,
        outstanding_sell: u64,
        outstanding_buy: u64,
        exchange_rate: OraclePrice,
    ) -> (r: Result<(u64, u64), TwammError>)
        requires
            outstanding_sell <= old(sell_side).source_balance,
            outstanding_buy <= old(buy_side).source_balance,
        ensures
            self.spec_settle_sides_ok(
                *old(sell_side),
                *old(buy_side),
                outstanding_sell,
                outstanding_buy,
                exchange_rate,
            ) ==> ({
                let m = self.spec_cross(outstanding_sell, outstanding_buy, exchange_rate);
                &&& r == Ok::<(u64, u64), TwammError>((m.0 as u64, m.1 as u64))
                &&& *final(sell_side) == (PoolSide {
                    source_balance: (old(sell_side).source_balance - m.0) as u64,
                    target_balance: (old(sell_side).target_balance + m.1) as u64,
                    fills_volume: (old(sell_side).fills_volume + m.0) as u64,
                    ..*old(sell_side)
                })
                &&& *final(buy_side) == (PoolSide {
                    source_balance: (old(buy_side).source_balance - m.1) as u64,
                    target_balance: (old(buy_side).target_balance + m.0) as u64,
                    fills_volume: (old(buy_side).fills_volume + m.1) as u64,
                    ..*old(buy_side)
                })
            }),
            !self.spec_settle_sides_ok(
                *old(sell_side),
                *old(buy_side),
                outstanding_sell,
                outstanding_buy,
                exchange_rate,
            ) ==> r == Err::<(u64, u64), TwammError>(TwammError::MathOverflow),
            r is Err ==> *final(sell_side) == *old(sell_side) && *final(buy_side) == *old(
                buy_side,
            ),
    {
        if outstanding_sell == 0 || outstanding_buy == 0 {
            return Ok((0, 0));
        }
        let expected_buy = self.get_token_b_amount(outstanding_sell, exchange_rate)?;
        proof {
            self.lemma_amounts_nonneg(outstanding_sell, exchange_rate);
        }
        let (matching_sell, matching_buy): (u64, u64) = if expected_buy <= outstanding_buy {
            (outstanding_sell, expected_buy)
        } else {
            let a_amount = self.get_token_a_amount(outstanding_buy, exchange_rate)?;
            proof {
                self.lemma_a_amounts_nonneg(outstanding_buy, exchange_rate);
            }
            (
                if outstanding_sell < a_amount {
                    outstanding_sell
                } else {
                    a_amount
                },
                outstanding_buy,
            )
        };
        if matching_sell == 0 || matching_buy == 0 {
            return Ok((0, 0));
        }
        let new_sell_target = math::checked_add_u64(sell_side.target_balance, matching_buy)?;
        let new_buy_target = math::checked_add_u64(buy_side.target_balance, matching_sell)?;
        let new_sell_fills = math::checked_add_u64(sell_side.fills_volume, matching_sell)?;
        let new_buy_fills = math::checked_add_u64(buy_side.fills_volume, matching_buy)?;
        sell_side.source_balance = sell_side.source_balance - matching_sell;
        sell_side.target_balance = new_sell_target;
        sell_side.fills_volume = new_sell_fills;
        buy_side.source_balance = buy_side.source_balance - matching_buy;
        buy_side.target_balance = new_buy_target;
        buy_side.fills_volume = new_buy_fills;
        Ok((matching_sell, matching_buy))
    }

    /// Amounts matched when `outstanding_sell` of a pool side crosses an
    /// external supply at `rate`, before the zero-dust rule.  The expected
    /// counter-value runs through the conversion that fits the side being
    /// settled.
    pub open spec fn spec_supply_cross_raw(self, settlement_side: MatchingSide, outstanding_sell: u64, supply_amount: u64, rate: OraclePrice) -> (int, int) {
        let expected_buy = if settlement_side == MatchingSide::Sell {
            self.spec_token_b_amount(outstanding_sell, rate)
        } else {
            self.spec_token_a_amount(outstanding_sell, rate)
        };
        if expected_buy <= supply_amount {
            (outstanding_sell as int, expected_buy)
        } else {
            (
                if settlement_side == MatchingSide::Sell {
                    self.spec_token_a_amount(supply_amount, rate)
                } else {
                    self.spec_token_b_amount(supply_amount, rate)
                },
                supply_amount as int,
            )
        }
    }

    /// Amounts matched against an external supply, zero on dust.
    pub open spec fn spec_supply_cross(self, settlement_side: MatchingSide, outstanding_sell: u64, supply_amount: u64, rate: OraclePrice) -> (int, int) {
        if outstanding_sell == 0 || supply_amount == 0 {
            (0int, 0int)
        } else {
            let r = self.spec_supply_cross_raw(settlement_side, outstanding_sell, supply_amount, rate);
            if r.0 == 0 || r.1 == 0 {
                (0int, 0int)
            } else {
                r
            }
        }
    }

    /// The conversions of the supply crossing stay within machine widths.
    pub open spec fn spec_supply_conv_ok(self, settlement_side: MatchingSide, outstanding_sell: u64, supply_amount: u64, rate: OraclePrice) -> bool {
        outstanding_sell == 0 || supply_amount == 0 || {
            let fwd_ok = if settlement_side == MatchingSide::Sell {
                self.spec_token_b_amount_ok(outstanding_sell, rate)
            } else {
                self.spec_token_a_amount_ok(outstanding_sell, rate)
            };
            let expected_buy = if settlement_side == MatchingSide::Sell {
                self.spec_token_b_amount(outstanding_sell, rate)
            } else {
                self.spec_token_a_amount(outstanding_sell, rate)
            };
            let back_ok = if settlement_side == MatchingSide::Sell {
                self.spec_token_a_amount_ok(supply_amount, rate)
            } else {
                self.spec_token_b_amount_ok(supply_amount, rate)
            };
            fwd_ok && (expected_buy <= supply_amount || back_ok)
        }
    }

    /// The supply crossing and its balance updates stay within machine
    /// widths; the matched amount must not exceed the side's source balance.
    pub open spec fn spec_settle_supply_ok(self, side: PoolSide, settlement_side: MatchingSide, outstanding_sell: u64, supply_amount: u64, rate: OraclePrice) -> bool {
        let m = self.spec_supply_cross(settlement_side, outstanding_sell, supply_amount, rate);
        &&& self.spec_supply_conv_ok(settlement_side, outstanding_sell, supply_amount, rate)
        &&& m.0 <= side.source_balance
        &&& side.target_balance + m.1 <= u64::MAX
        &&& side.fills_volume + m.0 <= u64::MAX
    }

    /// The token-A conversions are non-negative for a non-zero price.
    pub proof fn lemma_a_amounts_nonneg(self, amount: u64, rate: OraclePrice)
        ensures
            rate.price != 0 ==> self.spec_token_a_amount(amount, rate) >= 0,
            rate.price != 0 ==> self.spec_token_b_amount(amount, rate) >= 0,
    {
        if rate.price != 0 {
            math::lemma_decimal_div_nonneg(
                amount,
                -(self.config_b.decimals as int),
                rate.price,
                rate.exponent as int,
                -(self.config_a.decimals as int),
            );
            math::lemma_decimal_mul_nonneg(
                amount,
                -(self.config_a.decimals as int),
                rate.price,
                rate.exponent as int,
                -(self.config_b.decimals as int),
            );
        }
    }

    /// The amount taken from the supply never exceeds the supply.
    pub proof fn lemma_supply_cross_bounds(self, settlement_side: MatchingSide, outstanding_sell: u64, supply_amount: u64, rate: OraclePrice)
        requires
            self.spec_supply_conv_ok(settlement_side, outstanding_sell, supply_amount, rate),
        ensures
            0 <= self.spec_supply_cross(settlement_side, outstanding_sell, supply_amount, rate).1
                <= supply_amount,
            self.spec_supply_cross(settlement_side, outstanding_sell, supply_amount, rate).0 >= 0,
    {
        if outstanding_sell != 0 && supply_amount != 0 {
            if settlement_side == MatchingSide::Sell {
                self.lemma_amounts_nonneg(outstanding_sell, rate);
                if self.spec_token_b_amount(outstanding_sell, rate) > supply_amount {
                    self.lemma_a_amounts_nonneg(supply_amount, rate);
                }
            } else {
                self.lemma_a_amounts_nonneg(outstanding_sell, rate);
                if self.spec_token_a_amount(outstanding_sell, rate) > supply_amount {
                    self.lemma_amounts_nonneg(supply_amount, rate);
                }
            }
        }
    }


    /// Settles a set of pools and returns the required net amount and
    /// settled amounts.
    ///
    /// Per-pool self-matching runs first, then pairwise cross-pool matching
    /// of the residuals, and the remaining one-sided demand may absorb the
    /// externally supplied amounts.  Every touched side's decay cache is
    /// refreshed to the post-settlement residual.  On any error the pools
    /// are unchanged.
    #[verifier::rlimit(100)]
    #[verifier::spinoff_prover]
    pub fn settle_pools(
        &self,
        pools: &mut Vec<Pool>,
        supply_side: MatchingSide,
        token_a_change: u64,
        token_b_change: u64,
        exchange_rate: OraclePrice,
        oracle_price: OraclePrice,
        current_time: i64,
    ) -> (r: Result<Settlement, TwammError>)
        requires
            1 <= old(pools)@.len() < 10,
            forall|i: int| 0 <= i < old(pools)@.len() ==> (#[trigger] old(pools)@[i]).wf(),
            0 <= current_time,
        ensures
            r is Err ==> final(pools)@ == old(pools)@ && (r == Err::<Settlement, TwammError>(
                TwammError::MathOverflow,
            ) || r == Err::<Settlement, TwammError>(TwammError::SettlementError)),
            r matches Ok(res) ==> ({
                let s0 = old(pools)@;
                let sf = final(pools)@;
                let now = current_time as int;
                &&& sf.len() == s0.len()
                &&& (forall|i: int| 0 <= i < s0.len() ==> pool_frame(s0[i], #[trigger] sf[i]))
                &&& (forall|i: int|
                    0 <= i < s0.len() ==> (#[trigger] sf[i]).sell_side.last_balance_change_time
                        == current_time && sf[i].buy_side.last_balance_change_time == current_time)
                &&& (forall|i: int|
                    0 <= i < s0.len() ==> (#[trigger] sf[i]).sell_side.settlement_debt_total
                        <= sf[i].sell_side.source_balance
                        && sf[i].buy_side.settlement_debt_total
                        <= sf[i].buy_side.source_balance)
                &&& (forall|i: int|
                    0 <= i < s0.len() ==> ((s0[i].sell_side.last_balance_change_time
                        <= current_time && now >= s0[i].expiration_time - 30) ==> (
                    #[trigger] sf[i]).sell_side.settlement_debt_total
                        == sf[i].sell_side.source_balance))
                &&& (forall|i: int|
                    0 <= i < s0.len() ==> ((s0[i].buy_side.last_balance_change_time <= current_time
                        && now >= s0[i].expiration_time - 30) ==> (
                    #[trigger] sf[i]).buy_side.settlement_debt_total
                        == sf[i].buy_side.source_balance))
                &&& (forall|i: int|
                    0 <= i < s0.len() ==> (#[trigger] sf[i]).sell_side.source_balance
                        <= s0[i].sell_side.source_balance && sf[i].buy_side.source_balance
                        <= s0[i].buy_side.source_balance && sf[i].sell_side.target_balance
                        >= s0[i].sell_side.target_balance && sf[i].buy_side.target_balance
                        >= s0[i].buy_side.target_balance)
                &&& (sum_sell_debt(sf) == 0 || sum_buy_debt(sf) == 0)
                &&& res.net_amount_settled <= res.net_amount_required
                &&& (res.settlement_side == MatchingSide::Internal ==> res.net_amount_required == 0
                    && res.net_amount_settled == 0 && res.source_amount_received == 0
                    && sum_sell_debt(sf) == 0 && sum_buy_debt(sf) == 0 && tok_a(sf) == tok_a(s0)
                    && tok_b(sf) == tok_b(s0))
                &&& (res.settlement_side == MatchingSide::Sell ==> sum_buy_debt(sf) == 0
                    && res.net_amount_required > 0 && sum_sell_debt(sf)
                    <= res.net_amount_required && tok_a(sf) == tok_a(s0) - (res.net_amount_required
                    - sum_sell_debt(sf)) && tok_b(s0) <= tok_b(sf) <= tok_b(s0)
                    + res.source_amount_received)
                &&& (res.settlement_side == MatchingSide::Buy ==> sum_sell_debt(sf) == 0
                    && res.net_amount_required > 0 && sum_buy_debt(sf) <= res.net_amount_required
                    && tok_b(sf) == tok_b(s0) - (res.net_amount_required - sum_buy_debt(sf))
                    && tok_a(s0) <= tok_a(sf) <= tok_a(s0) + res.source_amount_received)
                &&& ((supply_side == res.settlement_side || token_a_change == 0 || token_b_change
                    == 0) ==> res.net_amount_settled == 0 && res.source_amount_received == 0)
                &&& res.total_amount_settled_a == sum_unsettled_sell(s0, now) - (
                if res.settlement_side == MatchingSide::Sell {
                    res.net_amount_required - res.net_amount_settled
                } else {
                    0
                })
                &&& res.total_amount_settled_b == sum_unsettled_buy(s0, now) - (
                if res.settlement_side == MatchingSide::Buy {
                    res.net_amount_required - res.net_amount_settled
                } else {
                    0
                })
            }),
            ({
                let m = self.spec_settle(
                    old(pools)@,
                    supply_side,
                    token_a_change,
                    token_b_change,
                    exchange_rate,
                    oracle_price,
                    current_time as int,
                );
                m.ok ==> r == Ok::<Settlement, TwammError>(m.res) && final(pools)@ == m.pools
            }),
            spec_settle_noop(
                old(pools)@,
                token_a_change,
                token_b_change,
                current_time as int,
            ) ==> ({
                let s0 = old(pools)@;
                &&& r matches Ok(res)
                &&& r matches Ok(res) ==> res.net_amount_settled == 0
                    && res.source_amount_received == 0 && res.total_amount_settled_a == 0
                    && res.total_amount_settled_b == 0
                &&& (forall|i: int|
                    0 <= i < s0.len() ==> final(pools)@[i] == (Pool {
                        sell_side: PoolSide {
                            last_balance_change_time: current_time,
                            ..(#[trigger] s0[i]).sell_side
                        },
                        buy_side: PoolSide {
                            last_balance_change_time: current_time,
                            ..s0[i].buy_side
                        },
                        ..s0[i]
                    }))
            }),
    {
        let ghost s0 = pools@;
        let ghost now = current_time as int;
        let ghost fa = |p: Pool| p.sell_side.spec_unsettled(p.expiration_time as int, now);
        let ghost fb = |p: Pool| p.buy_side.spec_unsettled(p.expiration_time as int, now);
        let ghost ga = |p: Pool| p.sell_side.source_balance + p.buy_side.target_balance;
        let ghost gb = |p: Pool| p.buy_side.source_balance + p.sell_side.target_balance;
        let ghost noop_pre = spec_settle_noop(s0, token_a_change, token_b_change, now);
        let ghost mm = self.spec_settle(
            s0,
            supply_side,
            token_a_change,
            token_b_change,
            exchange_rate,
            oracle_price,
            now,
        );
        let n = pools.len();

        // Work on a local copy; commit only on success.
        let mut work: Vec<Pool> = Vec::new();
        let mut ci: usize = 0;
        while ci < n
            invariant
                s0 == old(pools)@,
                now == current_time as int,
                fa == (|p: Pool| p.sell_side.spec_unsettled(p.expiration_time as int, now)),
                fb == (|p: Pool| p.buy_side.spec_unsettled(p.expiration_time as int, now)),
                ga == (|p: Pool| p.sell_side.source_balance + p.buy_side.target_balance),
                gb == (|p: Pool| p.buy_side.source_balance + p.sell_side.target_balance),
                noop_pre == spec_settle_noop(s0, token_a_change, token_b_change, now),
                n == s0.len(),
                1 <= n < 10,
                forall|i: int| 0 <= i < s0.len() ==> (#[trigger] s0[i]).wf(),
                0 <= current_time,
                pools@ == s0,
                ci <= n,
                work@.len() == ci,
                forall|i: int| 0 <= i < ci ==> work@[i] == s0[i],
            decreases n - ci,
        {
            let p = pools[ci];
            work.push(p);
            ci = ci + 1;
        }
        proof {
            assert(work@ =~= s0);
        }

        // Outstanding amount per pool, settling each pool with itself on the
        // way.
        let mut out_a: Vec<u64> = Vec::new();
        let mut out_b: Vec<u64> = Vec::new();
        let mut total_a: u64 = 0;
        let mut total_b: u64 = 0;
        let mut idx: usize = 0;
        while idx < n
            invariant
                s0 == old(pools)@,
                now == current_time as int,
                fa == (|p: Pool| p.sell_side.spec_unsettled(p.expiration_time as int, now)),
                fb == (|p: Pool| p.buy_side.spec_unsettled(p.expiration_time as int, now)),
                ga == (|p: Pool| p.sell_side.source_balance + p.buy_side.target_balance),
                gb == (|p: Pool| p.buy_side.source_balance + p.sell_side.target_balance),
                noop_pre == spec_settle_noop(s0, token_a_change, token_b_change, now),
                n == s0.len(),
                1 <= n < 10,
                forall|i: int| 0 <= i < s0.len() ==> (#[trigger] s0[i]).wf(),
                0 <= current_time,
                idx <= n,
                work@.len() == n,
                out_a@.len() == idx,
                out_b@.len() == idx,
                forall|i: int| idx <= i < n ==> work@[i] == s0[i],
                forall|i: int| 0 <= i < idx ==> pool_frame(s0[i], #[trigger] work@[i]),
                forall|i: int|
                    0 <= i < idx ==> (#[trigger] work@[i]).sell_side.last_balance_change_time
                        == s0[i].sell_side.last_balance_change_time
                        && work@[i].buy_side.last_balance_change_time
                        == s0[i].buy_side.last_balance_change_time
                        && work@[i].sell_side.settlement_debt_total
                        == s0[i].sell_side.settlement_debt_total
                        && work@[i].buy_side.settlement_debt_total
                        == s0[i].buy_side.settlement_debt_total,
                forall|i: int|
                    0 <= i < idx ==> out_a@[i] <= (#[trigger] work@[i]).sell_side.source_balance
                        && out_b@[i] <= work@[i].buy_side.source_balance,
                forall|i: int|
                    0 <= i < idx ==> ((s0[i].sell_side.last_balance_change_time <= current_time
                        && now >= s0[i].expiration_time - 30) ==> out_a@[i] == (
                    #[trigger] work@[i]).sell_side.source_balance),
                forall|i: int|
                    0 <= i < idx ==> ((s0[i].buy_side.last_balance_change_time <= current_time
                        && now >= s0[i].expiration_time - 30) ==> out_b@[i] == (
                    #[trigger] work@[i]).buy_side.source_balance),
                forall|i: int|
                    0 <= i < idx ==> (#[trigger] work@[i]).sell_side.source_balance
                        <= s0[i].sell_side.source_balance && work@[i].buy_side.source_balance
                        <= s0[i].buy_side.source_balance && work@[i].sell_side.target_balance
                        >= s0[i].sell_side.target_balance && work@[i].buy_side.target_balance
                        >= s0[i].buy_side.target_balance,
                mm == self.spec_settle(
                    s0,
                    supply_side,
                    token_a_change,
                    token_b_change,
                    exchange_rate,
                    oracle_price,
                    now,
                ),
                forall|i: int|
                    0 <= i < idx ==> (#[trigger] work@[i]) == self.p1_pool(
                        s0[i],
                        oracle_price,
                        now,
                    ) && out_a@[i] == self.p1_out_a(s0[i], oracle_price, now) && out_b@[i]
                        == self.p1_out_b(s0[i], oracle_price, now),
                forall|i: int|
                    0 <= i < idx ==> {
                        let p = #[trigger] s0[i];
                        &&& p.sell_side.spec_unsettled_ok(p.expiration_time as int, now)
                        &&& p.buy_side.spec_unsettled_ok(p.expiration_time as int, now)
                        &&& self.spec_settle_sides_ok(
                            p.sell_side,
                            p.buy_side,
                            self.p1_os(p, now),
                            self.p1_ob(p, now),
                            oracle_price,
                        )
                    },
                tok_a(work@) == tok_a(s0),
                tok_b(work@) == tok_b(s0),
                total_a == sum_by(s0.take(idx as int), fa),
                total_b == sum_by(s0.take(idx as int), fb),
                sum_u64(out_a@) <= total_a,
                sum_u64(out_b@) <= total_b,
                spec_settle_noop(s0, token_a_change, token_b_change, now) ==> (forall|i: int|
                    0 <= i < idx ==> work@[i] == s0[i] && out_a@[i] == s0[
                        i
                    ].sell_side.settlement_debt_total && out_b@[i] == s0[
                        i
                    ].buy_side.settlement_debt_total),
            decreases n - idx,
        {
            let p = work[idx];
            proof {
                crate::decay::lemma_unsettled_le_principal(
                    p.sell_side.source_balance,
                    p.sell_side.settlement_debt_total,
                    p.sell_side.last_balance_change_time as int,
                    p.expiration_time as int,
                    now,
                );
                crate::decay::lemma_unsettled_le_principal(
                    p.buy_side.source_balance,
                    p.buy_side.settlement_debt_total,
                    p.buy_side.last_balance_change_time as int,
                    p.expiration_time as int,
                    now,
                );
                if spec_settle_noop(s0, token_a_change, token_b_change, now) {
                    lemma_sum_by_nonneg(s0, |q: Pool| q.sell_side.settlement_debt_total as int);
                    lemma_sum_by_nonneg(s0, |q: Pool| q.buy_side.settlement_debt_total as int);
                    if sum_sell_debt(s0) == 0 {
                        lemma_sum_by_zero(s0, |q: Pool| q.sell_side.settlement_debt_total as int);
                    } else {
                        lemma_sum_by_zero(s0, |q: Pool| q.buy_side.settlement_debt_total as int);
                    }
                }
                lemma_sum_by_take_succ(s0, fa, idx as int);
                lemma_sum_by_take_succ(s0, fb, idx as int);
                assert(forall|i: int| 0 <= i < s0.len() ==> fa(#[trigger] s0[i]) >= 0 && fb(s0[i])
                    >= 0) by {
                    assert forall|i: int| 0 <= i < s0.len() implies fa(#[trigger] s0[i]) >= 0 && fb(
                        s0[i],
                    ) >= 0 by {
                        crate::decay::lemma_unsettled_le_principal(
                            s0[i].sell_side.source_balance,
                            s0[i].sell_side.settlement_debt_total,
                            s0[i].sell_side.last_balance_change_time as int,
                            s0[i].expiration_time as int,
                            now,
                        );
                        crate::decay::lemma_unsettled_le_principal(
                            s0[i].buy_side.source_balance,
                            s0[i].buy_side.settlement_debt_total,
                            s0[i].buy_side.last_balance_change_time as int,
                            s0[i].expiration_time as int,
                            now,
                        );
                    }
                };
                lemma_sum_by_take_le(s0.take(idx as int + 1), fa, idx as int + 1);
            }
            let outstanding_sell = match p.sell_side.get_unsettled_amount(
                p.expiration_time,
                current_time,
            ) {
                Ok(v) => v,
                Err(e) => {
                    proof {
                        self.lemma_settle_needs_phase1(
                            s0,
                            supply_side,
                            token_a_change,
                            token_b_change,
                            exchange_rate,
                            oracle_price,
                            now,
                        );
                    }
                    return Err(e);
                },
            };
            let outstanding_buy = match p.buy_side.get_unsettled_amount(
                p.expiration_time,
                current_time,
            ) {
                Ok(v) => v,
                Err(e) => {
                    proof {
                        self.lemma_settle_needs_phase1(
                            s0,
                            supply_side,
                            token_a_change,
                            token_b_change,
                            exchange_rate,
                            oracle_price,
                            now,
                        );
                    }
                    return Err(e);
                },
            };
            proof {
                if spec_settle_noop(s0, token_a_change, token_b_change, now) {
                    lemma_sum_by_take_le(s0, fa, idx as int + 1);
                    lemma_sum_by_take_le(s0, fb, idx as int + 1);
                    lemma_sum_by_ptwise_eq(
                        s0,
                        fa,
                        |q: Pool| q.sell_side.settlement_debt_total as int,
                    );
                    lemma_sum_by_ptwise_eq(
                        s0,
                        fb,
                        |q: Pool| q.buy_side.settlement_debt_total as int,
                    );
                }
            }
            proof {
                lemma_sum_by_take_le(s0, fa, idx as int + 1);
                lemma_sum_by_take_le(s0, fb, idx as int + 1);
            }
            let total_a2 = match math::checked_add_u64(total_a, outstanding_sell) {
                Ok(v) => v,
                Err(e) => {
                    proof {
                        self.lemma_settle_needs_phase1(
                            s0,
                            supply_side,
                            token_a_change,
                            token_b_change,
                            exchange_rate,
                            oracle_price,
                            now,
                        );
                    }
                    return Err(e);
                },
            };
            let total_b2 = match math::checked_add_u64(total_b, outstanding_buy) {
                Ok(v) => v,
                Err(e) => {
                    proof {
                        self.lemma_settle_needs_phase1(
                            s0,
                            supply_side,
                            token_a_change,
                            token_b_change,
                            exchange_rate,
                            oracle_price,
                            now,
                        );
                    }
                    return Err(e);
                },
            };
            total_a = total_a2;
            total_b = total_b2;
            let mut ss = p.sell_side;
            let mut bs = p.buy_side;
            let m = match self.settle_sides(
                &mut ss,
                &mut bs,
                outstanding_sell,
                outstanding_buy,
                oracle_price,
            ) {
                Ok(v) => v,
                Err(e) => {
                    proof {
                        self.lemma_settle_needs_phase1(
                            s0,
                            supply_side,
                            token_a_change,
                            token_b_change,
                            exchange_rate,
                            oracle_price,
                            now,
                        );
                    }
                    return Err(e);
                },
            };
            proof {
                self.lemma_cross_bounds(outstanding_sell, outstanding_buy, oracle_price);
            }
            let settled_a = m.0;
            let settled_b = m.1;
            let mut np = p;
            np.sell_side = ss;
            np.buy_side = bs;
            proof {
                lemma_sum_by_update(work@, ga, idx as int, np);
                lemma_sum_by_update(work@, gb, idx as int, np);
                lemma_sum_u64_push(out_a@, (outstanding_sell - settled_a) as u64);
                lemma_sum_u64_push(out_b@, (outstanding_buy - settled_b) as u64);
            }
            work[idx] = np;
            out_a.push(outstanding_sell - settled_a);
            out_b.push(outstanding_buy - settled_b);
            idx = idx + 1;
        }
        proof {
            assert(s0.take(n as int) =~= s0);
        }
        let ghost st1 = self.spec_phase1(s0, oracle_price, now);
        proof {
            assert(work@ =~= st1.pools);
            assert forall|q: int| 0 <= q < n as int implies out_a@[q] == st1.out_a[q] && out_b@[q]
                == st1.out_b[q] by {
                assert(work@[q] == self.p1_pool(s0[q], oracle_price, now));
            }
            assert(out_a@ =~= st1.out_a);
            assert(out_b@ =~= st1.out_b);
            assert(st1.ok);
            assert(st1 == (MatchState { pools: work@, out_a: out_a@, out_b: out_b@, ok: true }));
        }
        let ghost st2 = self.spec_phase2(st1, n as int, oracle_price);

        // Pairwise cross-pool matching of the residuals.
        let ghost noop = noop_pre;
        let mut i: usize = 0;
        while i + 1 < n
            invariant
                s0 == old(pools)@,
                now == current_time as int,
                fa == (|p: Pool| p.sell_side.spec_unsettled(p.expiration_time as int, now)),
                fb == (|p: Pool| p.buy_side.spec_unsettled(p.expiration_time as int, now)),
                ga == (|p: Pool| p.sell_side.source_balance + p.buy_side.target_balance),
                gb == (|p: Pool| p.buy_side.source_balance + p.sell_side.target_balance),
                noop_pre == spec_settle_noop(s0, token_a_change, token_b_change, now),
                n == s0.len(),
                1 <= n < 10,
                forall|i: int| 0 <= i < s0.len() ==> (#[trigger] s0[i]).wf(),
                0 <= current_time,
                i <= n,
                settle_frames(s0, work@, out_a@, out_b@, now),
                tok_a(work@) == tok_a(s0),
                tok_b(work@) == tok_b(s0),
                sum_u64(out_a@) <= total_a,
                sum_u64(out_b@) <= total_b,
                noop == noop_pre,
                noop ==> (forall|q: int|
                    0 <= q < n ==> work@[q] == s0[q] && out_a@[q] == s0[
                        q
                    ].sell_side.settlement_debt_total && out_b@[q] == s0[
                        q
                    ].buy_side.settlement_debt_total),
                mm == self.spec_settle(
                    s0,
                    supply_side,
                    token_a_change,
                    token_b_change,
                    exchange_rate,
                    oracle_price,
                    now,
                ),
                st1 == self.spec_phase1(s0, oracle_price, now),
                st2 == self.spec_phase2(st1, n as int, oracle_price),
                self.p2_from(
                    MatchState { pools: work@, out_a: out_a@, out_b: out_b@, ok: true },
                    i as int,
                    i as int + 1,
                    n as int,
                    oracle_price,
                ) == st2,
            decreases n - i,
        {
            {
                let mut j: usize = i + 1;
                while j < n
                    invariant
                        s0 == old(pools)@,
                        now == current_time as int,
                        fa == (|p: Pool| p.sell_side.spec_unsettled(p.expiration_time as int, now)),
                        fb == (|p: Pool| p.buy_side.spec_unsettled(p.expiration_time as int, now)),
                        ga == (|p: Pool| p.sell_side.source_balance + p.buy_side.target_balance),
                        gb == (|p: Pool| p.buy_side.source_balance + p.sell_side.target_balance),
                        noop_pre == spec_settle_noop(s0, token_a_change, token_b_change, now),
                        n == s0.len(),
                        1 <= n < 10,
                        forall|i: int| 0 <= i < s0.len() ==> (#[trigger] s0[i]).wf(),
                        0 <= current_time,
                        i < j <= n,
                        settle_frames(s0, work@, out_a@, out_b@, now),
                        tok_a(work@) == tok_a(s0),
                        tok_b(work@) == tok_b(s0),
                        sum_u64(out_a@) <= total_a,
                        sum_u64(out_b@) <= total_b,
                        noop == noop_pre,
                        noop ==> (forall|q: int|
                            0 <= q < n ==> work@[q] == s0[q] && out_a@[q] == s0[
                                q
                            ].sell_side.settlement_debt_total && out_b@[q] == s0[
                                q
                            ].buy_side.settlement_debt_total),
                        mm == self.spec_settle(
                            s0,
                            supply_side,
                            token_a_change,
                            token_b_change,
                            exchange_rate,
                            oracle_price,
                            now,
                        ),
                        st1 == self.spec_phase1(s0, oracle_price, now),
                        st2 == self.spec_phase2(st1, n as int, oracle_price),
                        self.p2_from(
                            MatchState { pools: work@, out_a: out_a@, out_b: out_b@, ok: true },
                            i as int,
                            j as int,
                            n as int,
                            oracle_price,
                        ) == st2,
                    decreases n - j,
                {
                    let ghost cur = MatchState {
                        pools: work@,
                        out_a: out_a@,
                        out_b: out_b@,
                        ok: true,
                    };
                    proof {
                        if noop {
                            lemma_sum_by_nonneg(
                                s0,
                                |q: Pool| q.sell_side.settlement_debt_total as int,
                            );
                            lemma_sum_by_nonneg(
                                s0,
                                |q: Pool| q.buy_side.settlement_debt_total as int,
                            );
                            if sum_sell_debt(s0) == 0 {
                                lemma_sum_by_zero(
                                    s0,
                                    |q: Pool| q.sell_side.settlement_debt_total as int,
                                );
                            } else {
                                lemma_sum_by_zero(
                                    s0,
                                    |q: Pool| q.buy_side.settlement_debt_total as int,
                                );
                            }
                        }
                    }
                    if out_a[i] != 0 && out_b[j] != 0 {
                        let pi = work[i];
                        let pj = work[j];
                        let mut ss = pi.sell_side;
                        let mut bs = pj.buy_side;
                        let m = match self.settle_sides(
                            &mut ss,
                            &mut bs,
                            out_a[i],
                            out_b[j],
                            oracle_price,
                        ) {
                            Ok(v) => v,
                            Err(e) => {
                                proof {
                                    let nxt = self.p2_pair(cur, i as int, j as int, oracle_price);
                                    assert(!nxt.ok);
                                    self.lemma_p2_ok_monotone(
                                        nxt,
                                        i as int,
                                        j as int + 1,
                                        n as int,
                                        oracle_price,
                                    );
                                    assert(!st2.ok);
                                    self.lemma_settle_needs_phase2(
                                        s0,
                                        supply_side,
                                        token_a_change,
                                        token_b_change,
                                        exchange_rate,
                                        oracle_price,
                                        now,
                                    );
                                }
                                return Err(e);
                            },
                        };
                        proof {
                            self.lemma_cross_bounds(out_a@[i as int], out_b@[j as int], oracle_price);
                        }
                        let mut npi = pi;
                        npi.sell_side = ss;
                        let mut npj = pj;
                        npj.buy_side = bs;
                        proof {
                            lemma_sum_by_update(work@, ga, i as int, npi);
                            lemma_sum_by_update(work@, gb, i as int, npi);
                            lemma_sum_by_update(work@.update(i as int, npi), ga, j as int, npj);
                            lemma_sum_by_update(work@.update(i as int, npi), gb, j as int, npj);
                            lemma_sum_u64_update(out_a@, i as int, (out_a@[i as int] - m.0) as u64);
                            lemma_sum_u64_update(out_b@, j as int, (out_b@[j as int] - m.1) as u64);
                            lemma_sum_u64_nonneg(out_a@);
                            lemma_sum_u64_nonneg(out_b@);
                        }
                        work[i] = npi;
                        work[j] = npj;
                        let na = out_a[i] - m.0;
                        out_a[i] = na;
                        let nb = out_b[j] - m.1;
                        out_b[j] = nb;
                    }
                    proof {
                        assert((MatchState { pools: work@, out_a: out_a@, out_b: out_b@, ok: true })
                            == self.p2_cross_ab(cur, i as int, j as int, oracle_price));
                    }
                    let ghost mid = self.p2_cross_ab(cur, i as int, j as int, oracle_price);
                    if out_b[i] != 0 && out_a[j] != 0 {
                        let pi = work[i];
                        let pj = work[j];
                        let mut ss = pj.sell_side;
                        let mut bs = pi.buy_side;
                        let m = match self.settle_sides(
                            &mut ss,
                            &mut bs,
                            out_a[j],
                            out_b[i],
                            oracle_price,
                        ) {
                            Ok(v) => v,
                            Err(e) => {
                                proof {
                                    assert(!self.p2_cross_ba(mid, i as int, j as int, oracle_price).ok);
                                    let nxt = self.p2_pair(cur, i as int, j as int, oracle_price);
                                    assert(!nxt.ok);
                                    self.lemma_p2_ok_monotone(
                                        nxt,
                                        i as int,
                                        j as int + 1,
                                        n as int,
                                        oracle_price,
                                    );
                                    assert(!st2.ok);
                                    self.lemma_settle_needs_phase2(
                                        s0,
                                        supply_side,
                                        token_a_change,
                                        token_b_change,
                                        exchange_rate,
                                        oracle_price,
                                        now,
                                    );
                                }
                                return Err(e);
                            },
                        };
                        proof {
                            self.lemma_cross_bounds(out_a@[j as int], out_b@[i as int], oracle_price);
                        }
                        let mut npj = pj;
                        npj.sell_side = ss;
                        let mut npi = pi;
                        npi.buy_side = bs;
                        proof {
                            lemma_sum_by_update(work@, ga, j as int, npj);
                            lemma_sum_by_update(work@, gb, j as int, npj);
                            lemma_sum_by_update(work@.update(j as int, npj), ga, i as int, npi);
                            lemma_sum_by_update(work@.update(j as int, npj), gb, i as int, npi);
                            lemma_sum_u64_update(out_a@, j as int, (out_a@[j as int] - m.0) as u64);
                            lemma_sum_u64_update(out_b@, i as int, (out_b@[i as int] - m.1) as u64);
                            lemma_sum_u64_nonneg(out_a@);
                            lemma_sum_u64_nonneg(out_b@);
                        }
                        work[j] = npj;
                        work[i] = npi;
                        let na = out_a[j] - m.0;
                        out_a[j] = na;
                        let nb = out_b[i] - m.1;
                        out_b[i] = nb;
                    }
                    proof {
                        assert((MatchState { pools: work@, out_a: out_a@, out_b: out_b@, ok: true })
                            == self.p2_cross_ba(mid, i as int, j as int, oracle_price));
                        assert(self.p2_from(cur, i as int, j as int, n as int, oracle_price)
                            == self.p2_from(
                            self.p2_pair(cur, i as int, j as int, oracle_price),
                            i as int,
                            j as int + 1,
                            n as int,
                            oracle_price,
                        ));
                    }
                    j = j + 1;
                }
            }
            i = i + 1;
        }
        proof {
            assert((MatchState { pools: work@, out_a: out_a@, out_b: out_b@, ok: true }) == st2);
        }

        // Net residual demand per token.
        let mut net_a: u64 = 0;
        let mut net_b: u64 = 0;
        let mut k: usize = 0;
        while k < n
            invariant
                s0 == old(pools)@,
                now == current_time as int,
                fa == (|p: Pool| p.sell_side.spec_unsettled(p.expiration_time as int, now)),
                fb == (|p: Pool| p.buy_side.spec_unsettled(p.expiration_time as int, now)),
                ga == (|p: Pool| p.sell_side.source_balance + p.buy_side.target_balance),
                gb == (|p: Pool| p.buy_side.source_balance + p.sell_side.target_balance),
                noop_pre == spec_settle_noop(s0, token_a_change, token_b_change, now),
                n == s0.len(),
                1 <= n < 10,
                forall|i: int| 0 <= i < s0.len() ==> (#[trigger] s0[i]).wf(),
                0 <= current_time,
                out_a@.len() == n,
                out_b@.len() == n,
                k <= n,
                sum_u64(out_a@) <= total_a,
                sum_u64(out_b@) <= total_b,
                net_a == sum_u64(out_a@.take(k as int)),
                net_b == sum_u64(out_b@.take(k as int)),
                net_a <= total_a,
                net_b <= total_b,
            decreases n - k,
        {
            proof {
                lemma_sum_u64_take_succ(out_a@, k as int);
                lemma_sum_u64_take_succ(out_b@, k as int);
                lemma_sum_u64_take_le(out_a@, k as int + 1);
                lemma_sum_u64_take_le(out_b@, k as int + 1);
            }
            net_a = net_a + out_a[k];
            net_b = net_b + out_b[k];
            k = k + 1;
        }
        proof {
            lemma_sum_u64_take_full(out_a@);
            lemma_sum_u64_take_full(out_b@);
        }
        proof {
            if spec_settle_noop(s0, token_a_change, token_b_change, now) {
                lemma_sum_by_eq_sum_u64(
                    s0,
                    |q: Pool| q.sell_side.settlement_debt_total as int,
                    out_a@,
                );
                lemma_sum_by_eq_sum_u64(
                    s0,
                    |q: Pool| q.buy_side.settlement_debt_total as int,
                    out_b@,
                );
            }
        }
        if net_a != 0 && net_b != 0 {
            proof {
                assert(!self.spec_settle_fill0(
                    s0,
                    supply_side,
                    token_a_change,
                    token_b_change,
                    exchange_rate,
                    oracle_price,
                    now,
                ).ok);
                self.lemma_settle_needs_fill0(
                    s0,
                    supply_side,
                    token_a_change,
                    token_b_change,
                    exchange_rate,
                    oracle_price,
                    now,
                );
            }
            return Err(TwammError::SettlementError);
        }
        let mut res = Settlement {
            net_amount_settled: 0,
            net_amount_required: 0,
            source_amount_received: 0,
            total_amount_settled_a: 0,
            total_amount_settled_b: 0,
            settlement_side: MatchingSide::Internal,
        };
        if net_a != 0 {
            res.net_amount_required = net_a;
            res.settlement_side = MatchingSide::Sell;
        } else if net_b != 0 {
            res.net_amount_required = net_b;
            res.settlement_side = MatchingSide::Buy;
        }
        let ghost side = res.settlement_side;
        let ghost req = res.net_amount_required;
        proof {
            if side == MatchingSide::Sell {
                lemma_sum_u64_zero(out_b@);
            } else if side == MatchingSide::Buy {
                lemma_sum_u64_zero(out_a@);
            } else {
                lemma_sum_u64_zero(out_a@);
                lemma_sum_u64_zero(out_b@);
            }
        }

        // External fill of the residual one-sided demand.
        if res.settlement_side != MatchingSide::Internal && supply_side != res.settlement_side
            && token_a_change != 0 && token_b_change != 0 {
            let is_sell = net_a != 0;
            let mut pool_amount_out: u64;
            let mut supply_amount_in: u64;
            if is_sell {
                pool_amount_out = if token_a_change < net_a {
                    token_a_change
                } else {
                    net_a
                };
                supply_amount_in = if token_a_change <= net_a {
                    token_b_change
                } else {
                    match self.get_token_b_amount_ceil(pool_amount_out, exchange_rate) {
                        Ok(v) => v,
                        Err(e) => {
                            proof {
                                assert(!self.spec_settle_fill0(
                                    s0,
                                    supply_side,
                                    token_a_change,
                                    token_b_change,
                                    exchange_rate,
                                    oracle_price,
                                    now,
                                ).ok);
                                self.lemma_settle_needs_fill0(
                                    s0,
                                    supply_side,
                                    token_a_change,
                                    token_b_change,
                                    exchange_rate,
                                    oracle_price,
                                    now,
                                );
                            }
                            return Err(e);
                        },
                    }
                };
            } else {
                pool_amount_out = if token_b_change < net_b {
                    token_b_change
                } else {
                    net_b
                };
                supply_amount_in = if token_b_change <= net_b {
                    token_a_change
                } else {
                    match self.get_token_a_amount_ceil(pool_amount_out, exchange_rate) {
                        Ok(v) => v,
                        Err(e) => {
                            proof {
                                assert(!self.spec_settle_fill0(
                                    s0,
                                    supply_side,
                                    token_a_change,
                                    token_b_change,
                                    exchange_rate,
                                    oracle_price,
                                    now,
                                ).ok);
                                self.lemma_settle_needs_fill0(
                                    s0,
                                    supply_side,
                                    token_a_change,
                                    token_b_change,
                                    exchange_rate,
                                    oracle_price,
                                    now,
                                );
                            }
                            return Err(e);
                        },
                    }
                };
            }
            res.net_amount_settled = pool_amount_out;
            res.source_amount_received = supply_amount_in;
            let ghost p_cap0 = pool_amount_out;
            let ghost s_cap0 = supply_amount_in;
            proof {
                assert((p_cap0, s_cap0, true) == self.spec_settle_caps(
                    s0,
                    supply_side,
                    token_a_change,
                    token_b_change,
                    exchange_rate,
                    oracle_price,
                    now,
                ));
            }

            let mut filled: Vec<bool> = Vec::new();
            let mut fi: usize = 0;
            while fi < n
                invariant
                    fi <= n,
                    filled@.len() == fi,
                    forall|q: int| 0 <= q < fi ==> !filled@[q],
                decreases n - fi,
            {
                filled.push(false);
                fi = fi + 1;
            }
            let ghost fill0e = FillState {
                pools: work@,
                out_a: out_a@,
                out_b: out_b@,
                filled: filled@,
                pool_out: pool_amount_out,
                supply_in: supply_amount_in,
                settled_num: 0,
                done: false,
                ok: true,
            };
            proof {
                assert(filled@ =~= Seq::new(s0.len(), |q: int| false));
                assert(fill0e == self.spec_settle_fill0(
                    s0,
                    supply_side,
                    token_a_change,
                    token_b_change,
                    exchange_rate,
                    oracle_price,
                    now,
                ));
            }
            let ghost fgoal = self.spec_settle_fillf(
                s0,
                supply_side,
                token_a_change,
                token_b_change,
                exchange_rate,
                oracle_price,
                now,
            );
            proof {
                assert(fgoal == self.fill_from(fill0e, 0, n as int, is_sell, exchange_rate));
            }
            let mut settled_num: u64 = 0;
            let mut done = false;
            let mut k: usize = 0;
            while k < n && !done
                invariant
                    s0 == old(pools)@,
                    now == current_time as int,
                    fa == (|p: Pool| p.sell_side.spec_unsettled(p.expiration_time as int, now)),
                    fb == (|p: Pool| p.buy_side.spec_unsettled(p.expiration_time as int, now)),
                    ga == (|p: Pool| p.sell_side.source_balance + p.buy_side.target_balance),
                    gb == (|p: Pool| p.buy_side.source_balance + p.sell_side.target_balance),
                    noop_pre == spec_settle_noop(s0, token_a_change, token_b_change, now),
                    n == s0.len(),
                    1 <= n < 10,
                    forall|i: int| 0 <= i < s0.len() ==> (#[trigger] s0[i]).wf(),
                    0 <= current_time,
                    !noop_pre,
                    p_cap0 >= 1,
                    k <= n,
                    filled@.len() == n,
                    settle_frames(s0, work@, out_a@, out_b@, now),
                    is_sell ==> (forall|q: int| 0 <= q < n ==> out_b@[q] == 0),
                    !is_sell ==> (forall|q: int| 0 <= q < n ==> out_a@[q] == 0),
                    pool_amount_out <= p_cap0,
                    supply_amount_in <= s_cap0,
                    is_sell ==> sum_u64(out_a@) <= net_a && net_a - sum_u64(out_a@) == p_cap0
                        - pool_amount_out && tok_a(work@) == tok_a(s0) - (net_a - sum_u64(out_a@))
                        && tok_b(work@) == tok_b(s0) + (s_cap0 - supply_amount_in),
                    !is_sell ==> sum_u64(out_b@) <= net_b && net_b - sum_u64(out_b@) == p_cap0
                        - pool_amount_out && tok_b(work@) == tok_b(s0) - (net_b - sum_u64(out_b@))
                        && tok_a(work@) == tok_a(s0) + (s_cap0 - supply_amount_in),
                    settled_num == 0 ==> pool_amount_out == p_cap0,
                    settled_num <= k,
                    mm == self.spec_settle(
                        s0,
                        supply_side,
                        token_a_change,
                        token_b_change,
                        exchange_rate,
                        oracle_price,
                        now,
                    ),
                    fgoal == self.spec_settle_fillf(
                        s0,
                        supply_side,
                        token_a_change,
                        token_b_change,
                        exchange_rate,
                        oracle_price,
                        now,
                    ),
                    self.fill_from(
                        FillState {
                            pools: work@,
                            out_a: out_a@,
                            out_b: out_b@,
                            filled: filled@,
                            pool_out: pool_amount_out,
                            supply_in: supply_amount_in,
                            settled_num: settled_num,
                            done: done,
                            ok: true,
                        },
                        k as int,
                        n as int,
                        is_sell,
                        exchange_rate,
                    ) == fgoal,
                decreases n - k,
            {
                let ghost cur = FillState {
                    pools: work@,
                    out_a: out_a@,
                    out_b: out_b@,
                    filled: filled@,
                    pool_out: pool_amount_out,
                    supply_in: supply_amount_in,
                    settled_num: settled_num,
                    done: done,
                    ok: true,
                };
                let mut settled: u64 = 0;
                let mut received: u64 = 0;
                if out_a[k] != 0 {
                    let pk = work[k];
                    let mut sd = pk.sell_side;
                    let amt = if pool_amount_out < out_a[k] {
                        pool_amount_out
                    } else {
                        out_a[k]
                    };
                    let m = match self.settle_side_with_supply(
                        &mut sd,
                        MatchingSide::Sell,
                        amt,
                        supply_amount_in,
                        exchange_rate,
                    ) {
                        Ok(v) => v,
                        Err(e) => {
                            proof {
                                    let step = self.fill_branch(cur, k as int, exchange_rate);
                                    let fs2v = FillState {
                                        pool_out: (cur.pool_out - step.1) as u64,
                                        supply_in: (cur.supply_in - step.2) as u64,
                                        ok: step.0.ok && step.1 <= cur.pool_out && step.2
                                            <= cur.supply_in,
                                        ..step.0
                                    };
                                    assert(!fs2v.ok);
                                    self.lemma_fill_close_not_ok(fs2v, n as int, is_sell);
                                    assert(!self.fill_step(cur, k as int, n as int, is_sell, exchange_rate).ok);
                                    self.lemma_fill_from_err(cur, k as int, n as int, is_sell, exchange_rate);
                                    assert(!fgoal.ok);
                                }
                            return Err(e);
                        },
                    };
                    proof {
                        self.lemma_supply_cross_bounds(
                            MatchingSide::Sell,
                            amt,
                            supply_amount_in,
                            exchange_rate,
                        );
                    }
                    settled = m.0;
                    received = m.1;
                    let na = match math::checked_sub_u64(out_a[k], settled) {
                        Ok(v) => v,
                        Err(e) => {
                            proof {
                                    let step = self.fill_branch(cur, k as int, exchange_rate);
                                    let fs2v = FillState {
                                        pool_out: (cur.pool_out - step.1) as u64,
                                        supply_in: (cur.supply_in - step.2) as u64,
                                        ok: step.0.ok && step.1 <= cur.pool_out && step.2
                                            <= cur.supply_in,
                                        ..step.0
                                    };
                                    assert(!fs2v.ok);
                                    self.lemma_fill_close_not_ok(fs2v, n as int, is_sell);
                                    assert(!self.fill_step(cur, k as int, n as int, is_sell, exchange_rate).ok);
                                    self.lemma_fill_from_err(cur, k as int, n as int, is_sell, exchange_rate);
                                    assert(!fgoal.ok);
                                }
                            return Err(e);
                        },
                    };
                    let mut np = pk;
                    np.sell_side = sd;
                    proof {
                        lemma_sum_by_update(work@, ga, k as int, np);
                        lemma_sum_by_update(work@, gb, k as int, np);
                        lemma_sum_u64_update(out_a@, k as int, na);
                        lemma_sum_u64_nonneg(out_a@);
                    }
                    work[k] = np;
                    out_a[k] = na;
                    filled[k] = true;
                    settled_num = settled_num + 1;
                } else if out_b[k] != 0 {
                    let pk = work[k];
                    let mut sd = pk.buy_side;
                    let amt = if pool_amount_out < out_b[k] {
                        pool_amount_out
                    } else {
                        out_b[k]
                    };
                    let m = match self.settle_side_with_supply(
                        &mut sd,
                        MatchingSide::Buy,
                        amt,
                        supply_amount_in,
                        exchange_rate,
                    ) {
                        Ok(v) => v,
                        Err(e) => {
                            proof {
                                    let step = self.fill_branch(cur, k as int, exchange_rate);
                                    let fs2v = FillState {
                                        pool_out: (cur.pool_out - step.1) as u64,
                                        supply_in: (cur.supply_in - step.2) as u64,
                                        ok: step.0.ok && step.1 <= cur.pool_out && step.2
                                            <= cur.supply_in,
                                        ..step.0
                                    };
                                    assert(!fs2v.ok);
                                    self.lemma_fill_close_not_ok(fs2v, n as int, is_sell);
                                    assert(!self.fill_step(cur, k as int, n as int, is_sell, exchange_rate).ok);
                                    self.lemma_fill_from_err(cur, k as int, n as int, is_sell, exchange_rate);
                                    assert(!fgoal.ok);
                                }
                            return Err(e);
                        },
                    };
                    proof {
                        self.lemma_supply_cross_bounds(
                            MatchingSide::Buy,
                            amt,
                            supply_amount_in,
                            exchange_rate,
                        );
                    }
                    settled = m.0;
                    received = m.1;
                    let nb = match math::checked_sub_u64(out_b[k], settled) {
                        Ok(v) => v,
                        Err(e) => {
                            proof {
                                    let step = self.fill_branch(cur, k as int, exchange_rate);
                                    let fs2v = FillState {
                                        pool_out: (cur.pool_out - step.1) as u64,
                                        supply_in: (cur.supply_in - step.2) as u64,
                                        ok: step.0.ok && step.1 <= cur.pool_out && step.2
                                            <= cur.supply_in,
                                        ..step.0
                                    };
                                    assert(!fs2v.ok);
                                    self.lemma_fill_close_not_ok(fs2v, n as int, is_sell);
                                    assert(!self.fill_step(cur, k as int, n as int, is_sell, exchange_rate).ok);
                                    self.lemma_fill_from_err(cur, k as int, n as int, is_sell, exchange_rate);
                                    assert(!fgoal.ok);
                                }
                            return Err(e);
                        },
                    };
                    let mut np = pk;
                    np.buy_side = sd;
                    proof {
                        lemma_sum_by_update(work@, ga, k as int, np);
                        lemma_sum_by_update(work@, gb, k as int, np);
                        lemma_sum_u64_update(out_b@, k as int, nb);
                        lemma_sum_u64_nonneg(out_b@);
                    }
                    work[k] = np;
                    out_b[k] = nb;
                    filled[k] = true;
                    settled_num = settled_num + 1;
                }
                proof {
                    assert((
                        FillState {
                            pools: work@,
                            out_a: out_a@,
                            out_b: out_b@,
                            filled: filled@,
                            pool_out: pool_amount_out,
                            supply_in: supply_amount_in,
                            settled_num: settled_num,
                            done: done,
                            ok: true,
                        },
                        settled as int,
                        received as int,
                    ) == self.fill_branch(cur, k as int, exchange_rate));
                }
                pool_amount_out = match math::checked_sub_u64(pool_amount_out, settled) {
                    Ok(v) => v,
                    Err(e) => {
                        proof {
                            let step = self.fill_branch(cur, k as int, exchange_rate);
                            let fs2v = FillState {
                                pool_out: (cur.pool_out - step.1) as u64,
                                supply_in: (cur.supply_in - step.2) as u64,
                                ok: step.0.ok && step.1 <= cur.pool_out && step.2
                                    <= cur.supply_in,
                                ..step.0
                            };
                            assert(!fs2v.ok);
                            self.lemma_fill_close_not_ok(fs2v, n as int, is_sell);
                            assert(!self.fill_step(cur, k as int, n as int, is_sell, exchange_rate).ok);
                            self.lemma_fill_from_err(cur, k as int, n as int, is_sell, exchange_rate);
                            assert(!fgoal.ok);
                        }
                        return Err(e);
                    },
                };
                supply_amount_in = match math::checked_sub_u64(supply_amount_in, received) {
                    Ok(v) => v,
                    Err(e) => {
                        proof {
                            let step = self.fill_branch(cur, k as int, exchange_rate);
                            let fs2v = FillState {
                                pool_out: (cur.pool_out - step.1) as u64,
                                supply_in: (cur.supply_in - step.2) as u64,
                                ok: step.0.ok && step.1 <= cur.pool_out && step.2
                                    <= cur.supply_in,
                                ..step.0
                            };
                            assert(!fs2v.ok);
                            self.lemma_fill_close_not_ok(fs2v, n as int, is_sell);
                            assert(!self.fill_step(cur, k as int, n as int, is_sell, exchange_rate).ok);
                            self.lemma_fill_from_err(cur, k as int, n as int, is_sell, exchange_rate);
                            assert(!fgoal.ok);
                        }
                        return Err(e);
                    },
                };
                let ghost fs2v = FillState {
                    pools: work@,
                    out_a: out_a@,
                    out_b: out_b@,
                    filled: filled@,
                    pool_out: pool_amount_out,
                    supply_in: supply_amount_in,
                    settled_num: settled_num,
                    done: done,
                    ok: true,
                };
                proof {
                    let step = self.fill_branch(cur, k as int, exchange_rate);
                    assert(fs2v == (FillState {
                        pool_out: (cur.pool_out - step.1) as u64,
                        supply_in: (cur.supply_in - step.2) as u64,
                        ok: step.0.ok && step.1 <= cur.pool_out && step.2 <= cur.supply_in,
                        ..step.0
                    }));
                }
                if pool_amount_out == 0 || supply_amount_in == 0 {
                    if supply_amount_in > 0 {
                        let leftover = match math::checked_ceil_div_u64(
                            supply_amount_in,
                            settled_num,
                        ) {
                            Ok(v) => v,
                            Err(_) => {
                                proof {
                                    assert(false);
                                }
                                return Err(TwammError::MathOverflow);
                            },
                        };
                        let ghost rentry = FillState {
                            pools: work@,
                            out_a: out_a@,
                            out_b: out_b@,
                            filled: filled@,
                            pool_out: pool_amount_out,
                            supply_in: supply_amount_in,
                            settled_num: settled_num,
                            done: done,
                            ok: true,
                        };
                        let ghost rgoal = self.redist_from(
                            rentry,
                            leftover,
                            is_sell,
                            0,
                            n as int,
                        );
                        proof {
                            assert(rentry == (FillState { ok: fs2v.ok && fs2v.settled_num != 0, ..fs2v }));
                        }
                        let mut ri: usize = 0;
                        let mut stop = false;
                        while ri < n && !stop
                            invariant
                                s0 == old(pools)@,
                                now == current_time as int,
                                fa == (|p: Pool| p.sell_side.spec_unsettled(p.expiration_time as int, now)),
                                fb == (|p: Pool| p.buy_side.spec_unsettled(p.expiration_time as int, now)),
                                ga == (|p: Pool| p.sell_side.source_balance + p.buy_side.target_balance),
                                gb == (|p: Pool| p.buy_side.source_balance + p.sell_side.target_balance),
                                noop_pre == spec_settle_noop(s0, token_a_change, token_b_change, now),
                                n == s0.len(),
                                1 <= n < 10,
                                forall|i: int| 0 <= i < s0.len() ==> (#[trigger] s0[i]).wf(),
                                0 <= current_time,
                                !noop_pre,
                                p_cap0 >= 1,
                                ri <= n,
                                filled@.len() == n,
                                settle_frames(s0, work@, out_a@, out_b@, now),
                                is_sell ==> (forall|q: int| 0 <= q < n ==> out_b@[q] == 0),
                                !is_sell ==> (forall|q: int| 0 <= q < n ==> out_a@[q] == 0),
                                is_sell ==> sum_u64(out_a@) <= net_a && net_a - sum_u64(out_a@)
                                    == p_cap0 - pool_amount_out && tok_a(work@) == tok_a(s0) - (
                                net_a - sum_u64(out_a@)) && tok_b(work@) == tok_b(s0) + (s_cap0
                                    - supply_amount_in),
                                !is_sell ==> sum_u64(out_b@) <= net_b && net_b - sum_u64(out_b@)
                                    == p_cap0 - pool_amount_out && tok_b(work@) == tok_b(s0) - (
                                net_b - sum_u64(out_b@)) && tok_a(work@) == tok_a(s0) + (s_cap0
                                    - supply_amount_in),
                                supply_amount_in <= s_cap0,
                                pool_amount_out <= p_cap0,
                                mm == self.spec_settle(
                                    s0,
                                    supply_side,
                                    token_a_change,
                                    token_b_change,
                                    exchange_rate,
                                    oracle_price,
                                    now,
                                ),
                                fgoal == self.spec_settle_fillf(
                                    s0,
                                    supply_side,
                                    token_a_change,
                                    token_b_change,
                                    exchange_rate,
                                    oracle_price,
                                    now,
                                ),
                                self.fill_from(
                                    FillState {
                                        pools: cur.pools,
                                        out_a: cur.out_a,
                                        out_b: cur.out_b,
                                        filled: cur.filled,
                                        pool_out: cur.pool_out,
                                        supply_in: cur.supply_in,
                                        settled_num: cur.settled_num,
                                        done: cur.done,
                                        ok: true,
                                    },
                                    k as int,
                                    n as int,
                                    is_sell,
                                    exchange_rate,
                                ) == fgoal,
                                cur.done == false,
                                cur.ok == true,
                                0 <= k < n,
                                fs2v == (FillState {
                                    pools: fs2v.pools,
                                    out_a: fs2v.out_a,
                                    out_b: fs2v.out_b,
                                    filled: fs2v.filled,
                                    pool_out: fs2v.pool_out,
                                    supply_in: fs2v.supply_in,
                                    settled_num: fs2v.settled_num,
                                    done: fs2v.done,
                                    ok: true,
                                }),
                                self.fill_step(cur, k as int, n as int, is_sell, exchange_rate)
                                    == self.fill_close(fs2v, n as int, is_sell),
                                fs2v.pool_out == pool_amount_out,
                                fs2v.supply_in > 0,
                                fs2v.pool_out == 0 || fs2v.supply_in > 0,
                                fs2v.pool_out == 0,
                                leftover == math::ceil_div_val(
                                    fs2v.supply_in as int,
                                    fs2v.settled_num as int,
                                ) as u64,
                                rentry == (FillState {
                                    ok: fs2v.ok && fs2v.settled_num != 0,
                                    ..fs2v
                                }),
                                rgoal == self.redist_from(rentry, leftover, is_sell, 0, n as int),
                                out_a@ == rentry.out_a,
                                out_b@ == rentry.out_b,
                                filled@ == rentry.filled,
                                settled_num == rentry.settled_num,
                                done == rentry.done,
                                stop ==> (FillState {
                                    pools: work@,
                                    out_a: out_a@,
                                    out_b: out_b@,
                                    filled: filled@,
                                    pool_out: pool_amount_out,
                                    supply_in: supply_amount_in,
                                    settled_num: settled_num,
                                    done: done,
                                    ok: true,
                                }) == rgoal,
                                !stop ==> self.redist_from(
                                    FillState {
                                        pools: work@,
                                        out_a: out_a@,
                                        out_b: out_b@,
                                        filled: filled@,
                                        pool_out: pool_amount_out,
                                        supply_in: supply_amount_in,
                                        settled_num: settled_num,
                                        done: done,
                                        ok: true,
                                    },
                                    leftover,
                                    is_sell,
                                    ri as int,
                                    n as int,
                                ) == rgoal,
                            decreases n - ri,
                        {
                            let ghost rcur = FillState {
                                pools: work@,
                                out_a: out_a@,
                                out_b: out_b@,
                                filled: filled@,
                                pool_out: pool_amount_out,
                                supply_in: supply_amount_in,
                                settled_num: settled_num,
                                done: done,
                                ok: true,
                            };
                            let bc = if supply_amount_in < leftover {
                                supply_amount_in
                            } else {
                                leftover
                            };
                            if bc != 0 {
                                if filled[ri] {
                                    let pk = work[ri];
                                    let mut np = pk;
                                    if is_sell {
                                        let nt = match math::checked_add_u64(
                                            np.sell_side.target_balance,
                                            bc,
                                        ) {
                                            Ok(v) => v,
                                            Err(e) => {
                                                proof {
                                                assert(!self.redist_from(
                                                    rcur,
                                                    leftover,
                                                    is_sell,
                                                    ri as int,
                                                    n as int,
                                                ).ok ==> !rgoal.ok);
                                                let bad = FillState {
                                                    pools: rcur.pools.update(
                                                        ri as int,
                                                        Pool {
                                                            sell_side: PoolSide {
                                                                target_balance: (rcur.pools[ri as int].sell_side.target_balance + bc) as u64,
                                                                ..rcur.pools[ri as int].sell_side
                                                            },
                                                            ..rcur.pools[ri as int]
                                                        },
                                                    ),
                                                    supply_in: (rcur.supply_in - bc) as u64,
                                                    ok: false,
                                                    ..rcur
                                                };
                                                let bad2 = FillState {
                                                    pools: rcur.pools.update(
                                                        ri as int,
                                                        Pool {
                                                            buy_side: PoolSide {
                                                                target_balance: (rcur.pools[ri as int].buy_side.target_balance + bc) as u64,
                                                                ..rcur.pools[ri as int].buy_side
                                                            },
                                                            ..rcur.pools[ri as int]
                                                        },
                                                    ),
                                                    supply_in: (rcur.supply_in - bc) as u64,
                                                    ok: false,
                                                    ..rcur
                                                };
                                                if is_sell {
                                                    assert(self.redist_from(
                                                        rcur,
                                                        leftover,
                                                        is_sell,
                                                        ri as int,
                                                        n as int,
                                                    ) == self.redist_from(
                                                        bad,
                                                        leftover,
                                                        is_sell,
                                                        ri as int + 1,
                                                        n as int,
                                                    ));
                                                    self.lemma_redist_ok_monotone(
                                                        bad,
                                                        leftover,
                                                        is_sell,
                                                        ri as int + 1,
                                                        n as int,
                                                    );
                                                } else {
                                                    assert(self.redist_from(
                                                        rcur,
                                                        leftover,
                                                        is_sell,
                                                        ri as int,
                                                        n as int,
                                                    ) == self.redist_from(
                                                        bad2,
                                                        leftover,
                                                        is_sell,
                                                        ri as int + 1,
                                                        n as int,
                                                    ));
                                                    self.lemma_redist_ok_monotone(
                                                        bad2,
                                                        leftover,
                                                        is_sell,
                                                        ri as int + 1,
                                                        n as int,
                                                    );
                                                }
                                                assert(!rgoal.ok);
                                                assert(!self.fill_step(cur, k as int, n as int, is_sell, exchange_rate).ok);
                                                self.lemma_fill_from_err(cur, k as int, n as int, is_sell, exchange_rate);
                                                assert(!fgoal.ok);
                                            }
                                                return Err(e);
                                            },
                                        };
                                        np.sell_side.target_balance = nt;
                                    } else {
                                        let nt = match math::checked_add_u64(
                                            np.buy_side.target_balance,
                                            bc,
                                        ) {
                                            Ok(v) => v,
                                            Err(e) => {
                                                proof {
                                                assert(!self.redist_from(
                                                    rcur,
                                                    leftover,
                                                    is_sell,
                                                    ri as int,
                                                    n as int,
                                                ).ok ==> !rgoal.ok);
                                                let bad = FillState {
                                                    pools: rcur.pools.update(
                                                        ri as int,
                                                        Pool {
                                                            sell_side: PoolSide {
                                                                target_balance: (rcur.pools[ri as int].sell_side.target_balance + bc) as u64,
                                                                ..rcur.pools[ri as int].sell_side
                                                            },
                                                            ..rcur.pools[ri as int]
                                                        },
                                                    ),
                                                    supply_in: (rcur.supply_in - bc) as u64,
                                                    ok: false,
                                                    ..rcur
                                                };
                                                let bad2 = FillState {
                                                    pools: rcur.pools.update(
                                                        ri as int,
                                                        Pool {
                                                            buy_side: PoolSide {
                                                                target_balance: (rcur.pools[ri as int].buy_side.target_balance + bc) as u64,
                                                                ..rcur.pools[ri as int].buy_side
                                                            },
                                                            ..rcur.pools[ri as int]
                                                        },
                                                    ),
                                                    supply_in: (rcur.supply_in - bc) as u64,
                                                    ok: false,
                                                    ..rcur
                                                };
                                                if is_sell {
                                                    assert(self.redist_from(
                                                        rcur,
                                                        leftover,
                                                        is_sell,
                                                        ri as int,
                                                        n as int,
                                                    ) == self.redist_from(
                                                        bad,
                                                        leftover,
                                                        is_sell,
                                                        ri as int + 1,
                                                        n as int,
                                                    ));
                                                    self.lemma_redist_ok_monotone(
                                                        bad,
                                                        leftover,
                                                        is_sell,
                                                        ri as int + 1,
                                                        n as int,
                                                    );
                                                } else {
                                                    assert(self.redist_from(
                                                        rcur,
                                                        leftover,
                                                        is_sell,
                                                        ri as int,
                                                        n as int,
                                                    ) == self.redist_from(
                                                        bad2,
                                                        leftover,
                                                        is_sell,
                                                        ri as int + 1,
                                                        n as int,
                                                    ));
                                                    self.lemma_redist_ok_monotone(
                                                        bad2,
                                                        leftover,
                                                        is_sell,
                                                        ri as int + 1,
                                                        n as int,
                                                    );
                                                }
                                                assert(!rgoal.ok);
                                                assert(!self.fill_step(cur, k as int, n as int, is_sell, exchange_rate).ok);
                                                self.lemma_fill_from_err(cur, k as int, n as int, is_sell, exchange_rate);
                                                assert(!fgoal.ok);
                                            }
                                                return Err(e);
                                            },
                                        };
                                        np.buy_side.target_balance = nt;
                                    }
                                    proof {
                                        lemma_sum_by_update(work@, ga, ri as int, np);
                                        lemma_sum_by_update(work@, gb, ri as int, np);
                                    }
                                    work[ri] = np;
                                    supply_amount_in = supply_amount_in - bc;
                                }
                                proof {
                                    assert(self.redist_from(rcur, leftover, is_sell, ri as int, n as int)
                                        == self.redist_from(
                                        FillState {
                                            pools: work@,
                                            out_a: out_a@,
                                            out_b: out_b@,
                                            filled: filled@,
                                            pool_out: pool_amount_out,
                                            supply_in: supply_amount_in,
                                            settled_num: settled_num,
                                            done: done,
                                            ok: true,
                                        },
                                        leftover,
                                        is_sell,
                                        ri as int + 1,
                                        n as int,
                                    ));
                                }
                            } else {
                                stop = true;
                                proof {
                                    assert(self.redist_from(rcur, leftover, is_sell, ri as int, n as int)
                                        == rcur);
                                }
                            }
                            ri = ri + 1;
                        }
                        proof {
                            assert((FillState {
                                pools: work@,
                                out_a: out_a@,
                                out_b: out_b@,
                                filled: filled@,
                                pool_out: pool_amount_out,
                                supply_in: supply_amount_in,
                                settled_num: settled_num,
                                done: done,
                                ok: true,
                            }) == rgoal);
                        }
                        if !(pool_amount_out == 0 && supply_amount_in == 0) {
                            proof {
                                assert(!self.fill_step(cur, k as int, n as int, is_sell, exchange_rate).ok);
                                self.lemma_fill_from_err(cur, k as int, n as int, is_sell, exchange_rate);
                                assert(!fgoal.ok);
                            }
                            return Err(TwammError::SettlementError);
                        }
                    }
                    done = true;
                }
                proof {
                    assert((FillState {
                        pools: work@,
                        out_a: out_a@,
                        out_b: out_b@,
                        filled: filled@,
                        pool_out: pool_amount_out,
                        supply_in: supply_amount_in,
                        settled_num: settled_num,
                        done: done,
                        ok: true,
                    }) == self.fill_step(cur, k as int, n as int, is_sell, exchange_rate));
                    assert(self.fill_from(cur, k as int, n as int, is_sell, exchange_rate)
                        == self.fill_from(
                        self.fill_step(cur, k as int, n as int, is_sell, exchange_rate),
                        k as int + 1,
                        n as int,
                        is_sell,
                        exchange_rate,
                    ));
                }
                k = k + 1;
            }
            proof {
                assert((FillState {
                    pools: work@,
                    out_a: out_a@,
                    out_b: out_b@,
                    filled: filled@,
                    pool_out: pool_amount_out,
                    supply_in: supply_amount_in,
                    settled_num: settled_num,
                    done: done,
                    ok: true,
                }) == fgoal);
            }
        }
        let ghost ff = self.spec_settle_fillf(
            s0,
            supply_side,
            token_a_change,
            token_b_change,
            exchange_rate,
            oracle_price,
            now,
        );
        proof {
            assert(work@ == ff.pools && out_a@ == ff.out_a && out_b@ == ff.out_b && ff.ok);
        }

        // Refresh every side's decay cache to the post-settlement residual.
        let ghost w4 = work@;
        let ghost fill_a = tok_a(work@);
        let ghost fill_b = tok_b(work@);
        let mut k2: usize = 0;
        while k2 < n
            invariant
                s0 == old(pools)@,
                now == current_time as int,
                fa == (|p: Pool| p.sell_side.spec_unsettled(p.expiration_time as int, now)),
                fb == (|p: Pool| p.buy_side.spec_unsettled(p.expiration_time as int, now)),
                ga == (|p: Pool| p.sell_side.source_balance + p.buy_side.target_balance),
                gb == (|p: Pool| p.buy_side.source_balance + p.sell_side.target_balance),
                noop_pre == spec_settle_noop(s0, token_a_change, token_b_change, now),
                n == s0.len(),
                1 <= n < 10,
                forall|i: int| 0 <= i < s0.len() ==> (#[trigger] s0[i]).wf(),
                0 <= current_time,
                out_a@.len() == n,
                out_b@.len() == n,
                w4.len() == n,
                k2 <= n,
                work@.len() == n,
                forall|q: int| k2 <= q < n ==> work@[q] == w4[q],
                forall|q: int|
                    0 <= q < k2 ==> work@[q] == (Pool {
                        sell_side: PoolSide {
                            settlement_debt_total: out_a@[q],
                            last_balance_change_time: current_time,
                            ..w4[q].sell_side
                        },
                        buy_side: PoolSide {
                            settlement_debt_total: out_b@[q],
                            last_balance_change_time: current_time,
                            ..w4[q].buy_side
                        },
                        ..w4[q]
                    }),
                tok_a(work@) == fill_a,
                tok_b(work@) == fill_b,
            decreases n - k2,
        {
            let pk = work[k2];
            let mut np = pk;
            np.sell_side.settlement_debt_total = out_a[k2];
            np.sell_side.last_balance_change_time = current_time;
            np.buy_side.settlement_debt_total = out_b[k2];
            np.buy_side.last_balance_change_time = current_time;
            proof {
                lemma_sum_by_update(work@, ga, k2 as int, np);
                lemma_sum_by_update(work@, gb, k2 as int, np);
            }
            work[k2] = np;
            k2 = k2 + 1;
        }
        proof {
            lemma_sum_by_eq_sum_u64(
                work@,
                |p: Pool| p.sell_side.settlement_debt_total as int,
                out_a@,
            );
            lemma_sum_by_eq_sum_u64(work@, |p: Pool| p.buy_side.settlement_debt_total as int, out_b@);
            if side == MatchingSide::Sell {
                lemma_sum_u64_all_zero(out_b@);
            }
            if side == MatchingSide::Buy {
                lemma_sum_u64_all_zero(out_a@);
            }
            if side == MatchingSide::Internal {
                lemma_sum_u64_all_zero(out_a@);
                lemma_sum_u64_all_zero(out_b@);
            }
            if spec_settle_noop(s0, token_a_change, token_b_change, now) {
                lemma_sum_by_ptwise_eq(s0, fa, |p: Pool| p.sell_side.settlement_debt_total as int);
                lemma_sum_by_ptwise_eq(s0, fb, |p: Pool| p.buy_side.settlement_debt_total as int);
            }
        }

        // Aggregate cleared volumes.
        proof {
            assert(res.net_amount_settled <= req || req == 0 && res.net_amount_settled == 0);
        }
        if res.settlement_side == MatchingSide::Sell {
            let d = match math::checked_sub_u64(total_a, net_a) {
                Ok(v) => v,
                Err(_) => {
                    proof {
                        assert(false);
                    }
                    return Err(TwammError::MathOverflow);
                },
            };
            res.total_amount_settled_a = match math::checked_add_u64(d, res.net_amount_settled) {
                Ok(v) => v,
                Err(_) => {
                    proof {
                        assert(false);
                    }
                    return Err(TwammError::MathOverflow);
                },
            };
            res.total_amount_settled_b = match math::checked_sub_u64(total_b, net_b) {
                Ok(v) => v,
                Err(_) => {
                    proof {
                        assert(false);
                    }
                    return Err(TwammError::MathOverflow);
                },
            };
        } else {
            res.total_amount_settled_a = match math::checked_sub_u64(total_a, net_a) {
                Ok(v) => v,
                Err(_) => {
                    proof {
                        assert(false);
                    }
                    return Err(TwammError::MathOverflow);
                },
            };
            let d = match math::checked_sub_u64(total_b, net_b) {
                Ok(v) => v,
                Err(_) => {
                    proof {
                        assert(false);
                    }
                    return Err(TwammError::MathOverflow);
                },
            };
            res.total_amount_settled_b = match math::checked_add_u64(d, res.net_amount_settled) {
                Ok(v) => v,
                Err(_) => {
                    proof {
                        assert(false);
                    }
                    return Err(TwammError::MathOverflow);
                },
            };
        }

        proof {
            assert forall|q: int| 0 <= q < n as int implies work@[q] == mm.pools[q] by {
                assert(work@[q] == (Pool {
                    sell_side: PoolSide {
                        settlement_debt_total: out_a@[q],
                        last_balance_change_time: current_time,
                        ..w4[q].sell_side
                    },
                    buy_side: PoolSide {
                        settlement_debt_total: out_b@[q],
                        last_balance_change_time: current_time,
                        ..w4[q].buy_side
                    },
                    ..w4[q]
                }));
            }
            assert(work@ =~= mm.pools);
            assert(res == mm.res);
        }
        *pools = work;
        Ok(res)
    }

    /// Matches one pool side's outstanding amount against externally
    /// supplied liquidity at `exchange_rate`.
    pub fn settle_side_with_supply(
        &self,
        side: &mut PoolSide,
        settlement_side: MatchingSide,
        outstanding_sell: u64,
        supply_amount: u64,
        exchange_rate: OraclePrice,
    ) -> (r: Result<(u64, u64), TwammError>)
        requires
            outstanding_sell <= old(side).source_balance,
        ensures
            self.spec_settle_supply_ok(
                *old(side),
                settlement_side,
                outstanding_sell,
                supply_amount,
                exchange_rate,
            ) ==> ({
                let m = self.spec_supply_cross(
                    settlement_side,
                    outstanding_sell,
                    supply_amount,
                    exchange_rate,
                );
                &&& r == Ok::<(u64, u64), TwammError>((m.0 as u64, m.1 as u64))
                &&& *final(side) == (PoolSide {
                    source_balance: (old(side).source_balance - m.0) as u64,
                    target_balance: (old(side).target_balance + m.1) as u64,
                    fills_volume: (old(side).fills_volume + m.0) as u64,
                    ..*old(side)
                })
            }),
            !self.spec_settle_supply_ok(
                *old(side),
                settlement_side,
                outstanding_sell,
                supply_amount,
                exchange_rate,
            ) ==> r == Err::<(u64, u64), TwammError>(TwammError::MathOverflow),
            r is Err ==> *final(side) == *old(side),
    {
        if outstanding_sell == 0 || supply_amount == 0 {
            return Ok((0, 0));
        }
        let expected_buy = if settlement_side == MatchingSide::Sell {
            self.get_token_b_amount(outstanding_sell, exchange_rate)?
        } else {
            self.get_token_a_amount(outstanding_sell, exchange_rate)?
        };
        proof {
            if settlement_side == MatchingSide::Sell {
                self.lemma_amounts_nonneg(outstanding_sell, exchange_rate);
            } else {
                self.lemma_a_amounts_nonneg(outstanding_sell, exchange_rate);
            }
        }
        let (matching_sell, matching_buy): (u64, u64) = if expected_buy <= supply_amount {
            (outstanding_sell, expected_buy)
        } else {
            let back = if settlement_side == MatchingSide::Sell {
                self.get_token_a_amount(supply_amount, exchange_rate)?
            } else {
                self.get_token_b_amount(supply_amount, exchange_rate)?
            };
            proof {
                if settlement_side == MatchingSide::Sell {
                    self.lemma_a_amounts_nonneg(supply_amount, exchange_rate);
                } else {
                    self.lemma_amounts_nonneg(supply_amount, exchange_rate);
                }
            }
            (back, supply_amount)
        };
        if matching_sell == 0 || matching_buy == 0 {
            return Ok((0, 0));
        }
        let new_source = math::checked_sub_u64(side.source_balance, matching_sell)?;
        let new_target = math::checked_add_u64(side.target_balance, matching_buy)?;
        let new_fills = math::checked_add_u64(side.fills_volume, matching_sell)?;
        side.source_balance = new_source;
        side.target_balance = new_target;
        side.fills_volume = new_fills;
        Ok((matching_sell, matching_buy))
    }
}

/// Parameters of an externally supplied settlement.
#[derive(Clone, Copy, Debug, PartialEq, Eq, Structural)]
pub struct SettleParams {
    pub supply_side: MatchingSide,
    pub min_token_amount_in: u64,
    pub max_token_amount_in: u64,
    pub worst_exchange_rate: u64,
}

impl TokenPair {
    /// Converts an externally offered amount into the token-A and token-B
    /// balance changes of a settlement at the oracle cross-rate, and the
    /// side the pools must have for the offer to fit; the offer is rejected
    /// when it is empty, when settlements are disabled, when no side is
    /// supplied, or when the converted change falls below the caller's
    /// worst acceptable exchange rate.
    pub fn prepare_settlement(&self, params: &SettleParams, oracle_price: OraclePrice) -> (r:
        Result<(u64, u64, MatchingSide), TwammError>)
        ensures
            params.max_token_amount_in == 0 ==> r == Err::<(u64, u64, MatchingSide), TwammError>(
                TwammError::InvalidTokenAmount,
            ),
            params.max_token_amount_in != 0 && !self.allow_settlements ==> r == Err::<
                (u64, u64, MatchingSide),
                TwammError,
            >(TwammError::SettlementsNotAllowed),
            params.max_token_amount_in != 0 && self.allow_settlements && params.supply_side
                == MatchingSide::Internal ==> r == Err::<(u64, u64, MatchingSide), TwammError>(
                TwammError::InvalidSettlementSide,
            ),
            params.max_token_amount_in != 0 && self.allow_settlements && params.supply_side
                == MatchingSide::Buy ==> ({
                if !self.spec_token_a_amount_ok(params.max_token_amount_in, oracle_price) {
                    r == Err::<(u64, u64, MatchingSide), TwammError>(TwammError::MathOverflow)
                } else {
                    let a = self.spec_token_a_amount(params.max_token_amount_in, oracle_price);
                    if a < params.worst_exchange_rate {
                        r == Err::<(u64, u64, MatchingSide), TwammError>(TwammError::MaxSlippage)
                    } else {
                        r == Ok::<(u64, u64, MatchingSide), TwammError>(
                            (a as u64, params.max_token_amount_in, MatchingSide::Sell),
                        )
                    }
                }
            }),
            params.max_token_amount_in != 0 && self.allow_settlements && params.supply_side
                == MatchingSide::Sell ==> ({
                if !self.spec_token_b_amount_ok(params.max_token_amount_in, oracle_price) {
                    r == Err::<(u64, u64, MatchingSide), TwammError>(TwammError::MathOverflow)
                } else {
                    let b = self.spec_token_b_amount(params.max_token_amount_in, oracle_price);
                    if b < params.worst_exchange_rate {
                        r == Err::<(u64, u64, MatchingSide), TwammError>(TwammError::MaxSlippage)
                    } else {
                        r == Ok::<(u64, u64, MatchingSide), TwammError>(
                            (params.max_token_amount_in, b as u64, MatchingSide::Buy),
                        )
                    }
                }
            }),
    {
        if params.max_token_amount_in == 0 {
            return Err(TwammError::InvalidTokenAmount);
        }
        if !self.allow_settlements {
            return Err(TwammError::SettlementsNotAllowed);
        }
        if params.supply_side == MatchingSide::Internal {
            return Err(TwammError::InvalidSettlementSide);
        }
        if params.supply_side == MatchingSide::Buy {
            let token_a_change = self.get_token_a_amount(params.max_token_amount_in, oracle_price)?;
            proof {
                self.lemma_a_amounts_nonneg(params.max_token_amount_in, oracle_price);
            }
            if token_a_change < params.worst_exchange_rate {
                return Err(TwammError::MaxSlippage);
            }
            Ok((token_a_change, params.max_token_amount_in, MatchingSide::Sell))
        } else {
            let token_b_change = self.get_token_b_amount(params.max_token_amount_in, oracle_price)?;
            proof {
                self.lemma_amounts_nonneg(params.max_token_amount_in, oracle_price);
            }
            if token_b_change < params.worst_exchange_rate {
                return Err(TwammError::MaxSlippage);
            }
            Ok((params.max_token_amount_in, token_b_change, MatchingSide::Buy))
        }
    }

    /// Validates a settlement result against the caller's offer, charges
    /// the settlement fee into the collected-fee statistics, and returns
    /// the net amount to pay the supplier together with the signed residual
    /// requirement, clamped to the signed 64-bit range.
    pub fn finish_settlement(&mut self, params: &SettleParams, res: &Settlement) -> (r: Result<
        (u64, i64),
        TwammError,
    >)
        requires
            params.max_token_amount_in > 0,
        ensures
            r is Err ==> *final(self) == *old(self),
            ({
                let expected = if params.supply_side == MatchingSide::Buy {
                    MatchingSide::Sell
                } else {
                    MatchingSide::Buy
                };
                let min_expected = res.source_amount_received * params.worst_exchange_rate
                    / params.max_token_amount_in as int;
                let fee = res.net_amount_settled * old(self).settle_fee_numerator / old(
                    self,
                ).settle_fee_denominator as int;
                if res.settlement_side != expected {
                    r == Err::<(u64, i64), TwammError>(TwammError::InvalidSettlementSide)
                } else if res.net_amount_settled == 0 {
                    r == Err::<(u64, i64), TwammError>(TwammError::SettlementAmountTooLarge)
                } else if res.source_amount_received > params.max_token_amount_in {
                    r == Err::<(u64, i64), TwammError>(TwammError::SettlementError)
                } else if res.net_amount_required < res.net_amount_settled {
                    r == Err::<(u64, i64), TwammError>(TwammError::SettlementError)
                } else if res.source_amount_received < params.min_token_amount_in {
                    r == Err::<(u64, i64), TwammError>(TwammError::SettlementAmountTooSmall)
                } else if min_expected > u64::MAX {
                    r == Err::<(u64, i64), TwammError>(TwammError::MathOverflow)
                } else if res.net_amount_settled < min_expected {
                    r == Err::<(u64, i64), TwammError>(TwammError::MaxSlippage)
                } else if old(self).settle_fee_denominator == 0 || fee > u64::MAX {
                    r == Err::<(u64, i64), TwammError>(TwammError::MathOverflow)
                } else if fee > res.net_amount_settled {
                    r == Err::<(u64, i64), TwammError>(TwammError::MathOverflow)
                } else {
                    let signed: i64 = if res.net_amount_required >= i64::MAX {
                        i64::MAX
                    } else {
                        res.net_amount_required as i64
                    };
                    &&& r == Ok::<(u64, i64), TwammError>(
                        (
                            (res.net_amount_settled - fee) as u64,
                            if res.settlement_side == MatchingSide::Buy {
                                signed
                            } else {
                                (-signed) as i64
                            },
                        ),
                    )
                    &&& (params.supply_side == MatchingSide::Buy ==> *final(self) == (TokenPair {
                        stats_a: TokenStats {
                            fees_collected: math::sat_add_val(
                                old(self).stats_a.fees_collected,
                                fee as u64,
                            ) as u64,
                            ..old(self).stats_a
                        },
                        ..*old(self)
                    }))
                    &&& (params.supply_side != MatchingSide::Buy ==> *final(self) == (TokenPair {
                        stats_b: TokenStats {
                            fees_collected: math::sat_add_val(
                                old(self).stats_b.fees_collected,
                                fee as u64,
                            ) as u64,
                            ..old(self).stats_b
                        },
                        ..*old(self)
                    }))
                }
            }),
    {
        let expected = if params.supply_side == MatchingSide::Buy {
            MatchingSide::Sell
        } else {
            MatchingSide::Buy
        };
        if res.settlement_side != expected {
            return Err(TwammError::InvalidSettlementSide);
        }
        if res.net_amount_settled == 0 {
            return Err(TwammError::SettlementAmountTooLarge);
        }
        if res.source_amount_received > params.max_token_amount_in {
            return Err(TwammError::SettlementError);
        }
        if res.net_amount_required < res.net_amount_settled {
            return Err(TwammError::SettlementError);
        }
        if res.source_amount_received < params.min_token_amount_in {
            return Err(TwammError::SettlementAmountTooSmall);
        }
        proof {
            assert(res.source_amount_received as int * params.worst_exchange_rate as int
                <= u128::MAX) by (nonlinear_arith)
                requires
                    res.source_amount_received <= u64::MAX && params.worst_exchange_rate
                        <= u64::MAX,
            ;
        }
        let min_expected = math::checked_as_u64(
            (res.source_amount_received as u128) * (params.worst_exchange_rate as u128) / (
            params.max_token_amount_in as u128),
        )?;
        if res.net_amount_settled < min_expected {
            return Err(TwammError::MaxSlippage);
        }
        proof {
            assert(res.net_amount_settled as int * self.settle_fee_numerator as int <= u128::MAX)
                by (nonlinear_arith)
                requires
                    res.net_amount_settled <= u64::MAX && self.settle_fee_numerator <= u64::MAX,
            ;
        }
        if self.settle_fee_denominator == 0 {
            return Err(TwammError::MathOverflow);
        }
        let settle_fee = math::checked_as_u64(
            (res.net_amount_settled as u128) * (self.settle_fee_numerator as u128) / (
            self.settle_fee_denominator as u128),
        )?;
        let net_after = math::checked_sub_u64(res.net_amount_settled, settle_fee)?;
        if params.supply_side == MatchingSide::Buy {
            self.stats_a.fees_collected = math::saturating_add_u64(
                self.stats_a.fees_collected,
                settle_fee,
            );
        } else {
            self.stats_b.fees_collected = math::saturating_add_u64(
                self.stats_b.fees_collected,
                settle_fee,
            );
        }
        let signed: i64 = if res.net_amount_required >= i64::MAX as u64 {
            i64::MAX
        } else {
            res.net_amount_required as i64
        };
        if res.settlement_side == MatchingSide::Buy {
            Ok((net_after, signed))
        } else {
            Ok((net_after, -signed))
        }
    }

    /// Validates a crank's swap outcome against the settlement result:
    /// cranks must be enabled and permitted to the caller, the swapped
    /// amounts must equal the settled amounts exactly, and the result is
    /// the signed residual requirement clamped to the signed 64-bit range.
    /// The floating-point unsettled-share policy check stays with the
    /// caller.
    pub fn validate_crank_settlement(
        &self,
        owner: u64,
        swap_amount: u64,
        receive_amount: u64,
        supply_side: MatchingSide,
        res: &Settlement,
    ) -> (r: Result<i64, TwammError>)
        ensures
            !self.allow_cranks ==> r == Err::<i64, TwammError>(TwammError::CranksNotAllowed),
            self.allow_cranks && self.crank_authority != 0 && self.crank_authority != owner ==> r
                == Err::<i64, TwammError>(TwammError::CranksNotAllowed),
            self.allow_cranks && (self.crank_authority == 0 || self.crank_authority == owner) ==> ({
                if swap_amount > 0 && res.settlement_side == supply_side {
                    r == Err::<i64, TwammError>(TwammError::InvalidSettlementSide)
                } else if swap_amount > 0 && res.net_amount_settled == 0 {
                    r == Err::<i64, TwammError>(TwammError::SettlementAmountTooLarge)
                } else if swap_amount != res.net_amount_settled {
                    r == Err::<i64, TwammError>(TwammError::SettlementAmountTooLarge)
                } else if receive_amount != res.source_amount_received {
                    r == Err::<i64, TwammError>(TwammError::SettlementError)
                } else if res.net_amount_required < res.net_amount_settled {
                    r == Err::<i64, TwammError>(TwammError::SettlementError)
                } else {
                    let signed: i64 = if res.net_amount_required >= i64::MAX {
                        i64::MAX
                    } else {
                        res.net_amount_required as i64
                    };
                    r == Ok::<i64, TwammError>(
                        if res.settlement_side == MatchingSide::Internal {
                            0
                        } else if res.settlement_side == MatchingSide::Buy {
                            signed
                        } else {
                            (-signed) as i64
                        },
                    )
                }
            }),
    {
        if !self.allow_cranks {
            return Err(TwammError::CranksNotAllowed);
        }
        if self.crank_authority != 0 && self.crank_authority != owner {
            return Err(TwammError::CranksNotAllowed);
        }
        if swap_amount > 0 {
            if res.settlement_side == supply_side {
                return Err(TwammError::InvalidSettlementSide);
            }
            if res.net_amount_settled == 0 {
                return Err(TwammError::SettlementAmountTooLarge);
            }
        }
        if swap_amount != res.net_amount_settled {
            return Err(TwammError::SettlementAmountTooLarge);
        }
        if receive_amount != res.source_amount_received {
            return Err(TwammError::SettlementError);
        }
        if res.net_amount_required < res.net_amount_settled {
            return Err(TwammError::SettlementError);
        }
        let signed: i64 = if res.net_amount_required >= i64::MAX as u64 {
            i64::MAX
        } else {
            res.net_amount_required as i64
        };
        match res.settlement_side {
            MatchingSide::Internal => Ok(0),
            MatchingSide::Buy => Ok(signed),
            MatchingSide::Sell => Ok(-signed),
        }
    }

    /// Takes the crank reward out of the collected fees: the caller hands
    /// in the reward already capped by its policy share, and no more than
    /// was collected is paid.
    pub fn take_crank_reward(&mut self, capped_reward: u64, token_a: bool) -> (r: u64)
        ensures
            token_a ==> r == min_int(
                old(self).stats_a.fees_collected as int,
                capped_reward as int,
            ) && *final(self) == (TokenPair {
                stats_a: TokenStats {
                    fees_collected: (old(self).stats_a.fees_collected - r) as u64,
                    ..old(self).stats_a
                },
                ..*old(self)
            }),
            !token_a ==> r == min_int(
                old(self).stats_b.fees_collected as int,
                capped_reward as int,
            ) && *final(self) == (TokenPair {
                stats_b: TokenStats {
                    fees_collected: (old(self).stats_b.fees_collected - r) as u64,
                    ..old(self).stats_b
                },
                ..*old(self)
            }),
    {
        if token_a {
            let r = if self.stats_a.fees_collected < capped_reward {
                self.stats_a.fees_collected
            } else {
                capped_reward
            };
            self.stats_a.fees_collected = self.stats_a.fees_collected - r;
            r
        } else {
            let r = if self.stats_b.fees_collected < capped_reward {
                self.stats_b.fees_collected
            } else {
                capped_reward
            };
            self.stats_b.fees_collected = self.stats_b.fees_collected - r;
            r
        }
    }

    /// The signed net outstanding amount reported to callers: zero for a
    /// balanced book or a requirement below the required side's minimum
    /// tradable amount, otherwise the requirement clamped to the signed
    /// 64-bit range, negative on the sell side.
    pub fn net_outstanding_signed(&self, res: &Settlement) -> (r: i64)
        ensures
            res.settlement_side == MatchingSide::Internal ==> r == 0,
            res.settlement_side == MatchingSide::Buy ==> r == (
            if res.net_amount_required < self.config_b.min_swap_amount {
                0
            } else if res.net_amount_required >= i64::MAX {
                i64::MAX as int
            } else {
                res.net_amount_required as int
            }),
            res.settlement_side == MatchingSide::Sell ==> r == (
            if res.net_amount_required < self.config_a.min_swap_amount {
                0
            } else if res.net_amount_required >= i64::MAX {
                -(i64::MAX as int)
            } else {
                -(res.net_amount_required as int)
            }),
    {
        let signed: i64 = if res.net_amount_required >= i64::MAX as u64 {
            i64::MAX
        } else {
            res.net_amount_required as i64
        };
        match res.settlement_side {
            MatchingSide::Internal => 0,
            MatchingSide::Buy => {
                if res.net_amount_required < self.config_b.min_swap_amount {
                    0
                } else {
                    signed
                }
            },
            MatchingSide::Sell => {
                if res.net_amount_required < self.config_a.min_swap_amount {
                    0
                } else {
                    -signed
                }
            },
        }
    }
}

} // verus!
