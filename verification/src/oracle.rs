//! Fixed-point oracle prices and conversion between them.
//!
//! A price is a `(mantissa, exponent)` pair denoting `price * 10^exponent`.

use vstd::prelude::*;

use crate::error::TwammError;
use crate::math;

verus! {

/// How a token's reference price is obtained.
#[derive(Clone, Copy, Debug, PartialEq, Eq, Structural)]
pub enum OracleType {
    NoOracle,
    Test,
    Pyth,
}

/// A decimal fixed-point price: `price * 10^exponent`.
#[derive(Clone, Copy, Debug, PartialEq, Eq, Structural)]
pub struct OraclePrice {
    pub price: u64,
    pub exponent: i32,
}

/// Exponent at which the quotient of two prices is expressed: nine decimal
/// digits of precision are added below the difference of the exponents.
pub open spec fn price_div_exponent(e1: int, e2: int) -> int {
    e1 - e2 - 9
}

impl OraclePrice {
    /// Exponent of the quotient of this price by `other`.
    pub open spec fn checked_div_exponent(self, other: OraclePrice) -> int {
        price_div_exponent(self.exponent as int, other.exponent as int)
    }

    /// Mantissa of the quotient of this price by `other`.
    pub open spec fn checked_div_price(self, other: OraclePrice) -> int {
        math::decimal_div_val(
            self.price,
            self.exponent as int,
            other.price,
            other.exponent as int,
            self.checked_div_exponent(other),
        )
    }

    /// Whether the quotient can be computed within the machine widths.
    pub open spec fn checked_div_spec_ok(self, other: OraclePrice) -> bool {
        i32::MIN <= self.checked_div_exponent(other) <= i32::MAX && math::decimal_div_ok(
            self.price,
            self.exponent as int,
            other.price,
            other.exponent as int,
            self.checked_div_exponent(other),
        )
    }

    pub fn new(price: u64, exponent: i32) -> (r: OraclePrice)
        ensures
            r == (OraclePrice { price, exponent }),
    {
        OraclePrice { price, exponent }
    }

    /// Divides this price by another, keeping nine extra decimal digits of
    /// precision: the result is `floor(p1 * 10^9 / p2)` at exponent
    /// `e1 - e2 - 9`.
    pub fn checked_div(&self, other: &OraclePrice) -> (r: Result<OraclePrice, TwammError>)
        ensures
            self.checked_div_spec_ok(*other) ==> r == Ok::<OraclePrice, TwammError>(
                OraclePrice {
                    price: self.checked_div_price(*other) as u64,
                    exponent: self.checked_div_exponent(*other) as i32,
                },
            ),
            !self.checked_div_spec_ok(*other) ==> r == Err::<OraclePrice, TwammError>(
                TwammError::MathOverflow,
            ),
    {
        let te64: i64 = self.exponent as i64 - other.exponent as i64 - 9;
        if te64 < i32::MIN as i64 || te64 > i32::MAX as i64 {
            return Err(TwammError::MathOverflow);
        }
        let te: i32 = te64 as i32;
        let price = math::checked_decimal_div(
            self.price,
            self.exponent,
            other.price,
            other.exponent,
            te,
        )?;
        Ok(OraclePrice { price, exponent: te })
    }
}

/// Decimals of the implied USD figure reported in the volume statistics.
pub open spec fn spec_asset_amount_usd(amount: u64, decimals: u8, price: OraclePrice) -> int {
    math::decimal_mul_val(amount, -(decimals as int), price.price, price.exponent as int, -6)
}

/// Whether the USD figure can be computed within the machine widths.
pub open spec fn spec_asset_amount_usd_ok(amount: u64, decimals: u8, price: OraclePrice) -> bool {
    math::decimal_mul_ok(amount, -(decimals as int), price.price, price.exponent as int, -6)
}

/// Converts a token amount to a USD figure with six implied decimals at the
/// given price.
pub fn get_asset_amount_usd(amount: u64, decimals: u8, price: OraclePrice) -> (r: Result<
    u64,
    TwammError,
>)
    ensures
        spec_asset_amount_usd_ok(amount, decimals, price) ==> r == Ok::<u64, TwammError>(
            spec_asset_amount_usd(amount, decimals, price) as u64,
        ),
        !spec_asset_amount_usd_ok(amount, decimals, price) ==> r == Err::<u64, TwammError>(
            TwammError::MathOverflow,
        ),
{
    math::checked_decimal_mul(amount, -(decimals as i32), price.price, price.exponent, -6)
}

} // verus!
