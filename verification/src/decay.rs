//! The time-decay model that converts a lump deposit into the quantity that
//! is currently eligible to be matched.
//!
//! The eligible amount grows linearly in the time elapsed since the last
//! balance change, relative to the total remaining lifetime of the pool,
//! floored at the cached debt and capped at the principal.  A fixed safety
//! margin is subtracted from the expiration boundary so that the whole
//! principal becomes eligible shortly before the pool expires.

use vstd::prelude::*;

use crate::error::TwammError;
use crate::math;

verus! {

/// Time units subtracted from the expiration boundary.
pub const DECAY_MARGIN: i64 = 30;

/// The smaller of two mathematical integers.
pub open spec fn min_int(a: int, b: int) -> int {
    if a < b {
        a
    } else {
        b
    }
}

/// Amount of `principal` eligible to be matched at time `now`, given the
/// cached debt and the time of the last balance change.
pub open spec fn unsettled_value(
    principal: u64,
    cached_debt: u64,
    last_change: int,
    expiration: int,
    now: int,
) -> int {
    if now < last_change {
        min_int(cached_debt as int, principal as int)
    } else if now >= expiration - DECAY_MARGIN {
        principal as int
    } else {
        min_int(
            principal * (now - last_change) / (expiration - DECAY_MARGIN - last_change)
                + cached_debt,
            principal as int,
        )
    }
}

/// The computation narrows back to 64 bits; it fails only when the decayed
/// amount plus the cached debt exceeds that width before the cap is applied.
pub open spec fn unsettled_ok(
    principal: u64,
    cached_debt: u64,
    last_change: int,
    expiration: int,
    now: int,
) -> bool {
    now < last_change || now >= expiration - DECAY_MARGIN || principal * (now - last_change) / (
    expiration - DECAY_MARGIN - last_change) + cached_debt <= u64::MAX
}

/// Computes the eligible ("unsettled") amount at `now`.
pub fn unsettled_amount(
    principal: u64,
    cached_debt: u64,
    last_change: i64,
    expiration: i64,
    now: i64,
) -> (r: Result<u64, TwammError>)
    requires
        0 <= last_change,
        0 <= expiration,
        0 <= now,
    ensures
        unsettled_ok(principal, cached_debt, last_change as int, expiration as int, now as int)
            ==> r == Ok::<u64, TwammError>(
            unsettled_value(
                principal,
                cached_debt,
                last_change as int,
                expiration as int,
                now as int,
            ) as u64,
        ),
        !unsettled_ok(principal, cached_debt, last_change as int, expiration as int, now as int)
            ==> r == Err::<u64, TwammError>(TwammError::MathOverflow),
{
    if now < last_change {
        // Clock went backward relative to the cached state: fall back to the
        // cached debt as a defensive floor.
        if cached_debt < principal {
            return Ok(cached_debt);
        } else {
            return Ok(principal);
        }
    }
    let adjusted_expiration = expiration - DECAY_MARGIN;
    if now >= adjusted_expiration {
        return Ok(principal);
    }
    let time_till_expiration = adjusted_expiration - now;
    let time_since_change = now - last_change;
    let denom = time_till_expiration + time_since_change;
    proof {
        assert(principal as int * time_since_change as int <= u128::MAX) by (nonlinear_arith)
            requires
                principal <= u64::MAX && 0 <= time_since_change <= i64::MAX,
        ;
    }
    let scaled: u128 = (principal as u128) * (time_since_change as u128);
    let q: u128 = scaled / (denom as u128);
    proof {
        assert(scaled as int / denom as int <= principal) by (nonlinear_arith)
            requires
                denom >= 1 && 0 <= time_since_change <= denom && scaled == principal as int
                    * time_since_change as int && principal >= 0,
        ;
    }
    let total = match math::checked_as_u64(q + cached_debt as u128) {
        Ok(v) => v,
        Err(e) => {
            return Err(e);
        },
    };
    if total < principal {
        Ok(total)
    } else {
        Ok(principal)
    }
}

/// With no principal and no cached debt the eligible amount is zero and the
/// computation cannot overflow.
pub proof fn lemma_unsettled_zero(last_change: int, expiration: int, now: int)
    ensures
        unsettled_ok(0, 0, last_change, expiration, now),
        unsettled_value(0, 0, last_change, expiration, now) == 0,
{
    if !(now < last_change) && !(now >= expiration - DECAY_MARGIN) {
        let d = expiration - DECAY_MARGIN - last_change;
        assert(0int * (now - last_change) == 0) by (nonlinear_arith);
        assert(0int / d == 0);
    }
}

/// The eligible amount never exceeds the principal.
pub proof fn lemma_unsettled_le_principal(
    principal: u64,
    cached_debt: u64,
    last_change: int,
    expiration: int,
    now: int,
)
    ensures
        unsettled_value(principal, cached_debt, last_change, expiration, now) <= principal,
        unsettled_value(principal, cached_debt, last_change, expiration, now) >= 0,
{
    if now < last_change {
    } else if now >= expiration - DECAY_MARGIN {
    } else {
        let d = expiration - DECAY_MARGIN - last_change;
        assert(principal * (now - last_change) >= 0) by (nonlinear_arith)
            requires
                principal >= 0 && now >= last_change,
        ;
        assert(principal * (now - last_change) / d >= 0) by (nonlinear_arith)
            requires
                principal * (now - last_change) >= 0 && d > 0,
        ;
    }
}

/// The eligible amount is non-decreasing in `now` for a fixed principal,
/// cached debt, last balance change and expiration.
pub proof fn lemma_unsettled_monotonic(
    principal: u64,
    cached_debt: u64,
    last_change: int,
    expiration: int,
    now1: int,
    now2: int,
)
    requires
        now1 <= now2,
    ensures
        unsettled_value(principal, cached_debt, last_change, expiration, now1) <= unsettled_value(
            principal,
            cached_debt,
            last_change,
            expiration,
            now2,
        ),
{
    let adj = expiration - DECAY_MARGIN;
    let d = adj - last_change;
    lemma_unsettled_le_principal(principal, cached_debt, last_change, expiration, now1);
    lemma_unsettled_le_principal(principal, cached_debt, last_change, expiration, now2);
    if now1 < last_change {
        if last_change <= now2 < adj {
            assert(principal * (now2 - last_change) / d >= 0) by (nonlinear_arith)
                requires
                    principal >= 0 && now2 >= last_change && d > 0,
            ;
        }
    } else if now1 >= adj {
        // both at the full principal
    } else {
        if now2 < adj {
            assert(principal * (now1 - last_change) / d <= principal * (now2 - last_change)
                / d) by (nonlinear_arith)
                requires
                    d > 0 && principal >= 0 && last_change <= now1 <= now2,
            ;
        }
    }
}

/// Once `now` reaches the margin-adjusted expiration and the clock has not
/// gone backward, the whole principal is eligible.
pub proof fn lemma_unsettled_full_at_expiration(
    principal: u64,
    cached_debt: u64,
    last_change: int,
    expiration: int,
    now: int,
)
    requires
        last_change <= now,
        now >= expiration - DECAY_MARGIN,
    ensures
        unsettled_value(principal, cached_debt, last_change, expiration, now) == principal,
{
}

} // verus!
