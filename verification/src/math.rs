//! Checked integer arithmetic and decimal-scaled conversions.
//!
//! All intermediate products use 128-bit precision; any value that does not
//! fit back into 64 bits on return fails with `MathOverflow`.

use vstd::prelude::*;

use crate::error::TwammError;

verus! {

/// Mathematical ceiling of `x / d` for non-negative `x` and positive `d`.
pub open spec fn ceil_div_val(x: int, d: int) -> int {
    if x == 0 {
        0
    } else {
        (x - 1) / d + 1
    }
}

/// 10 to the power `n`.
pub open spec fn pow10(n: nat) -> nat
    decreases n,
{
    if n == 0 {
        1
    } else {
        10 * pow10((n - 1) as nat)
    }
}

pub proof fn lemma_pow10_pos(n: nat)
    ensures
        pow10(n) >= 1,
    decreases n,
{
    if n > 0 {
        lemma_pow10_pos((n - 1) as nat);
    }
}

/// `pow10(38)` is the largest power of ten that fits in a `u128`.
pub proof fn lemma_pow10_38_fits()
    ensures
        pow10(38) <= u128::MAX,
        pow10(39) > u128::MAX,
{
    reveal_with_fuel(pow10, 40);
    assert(pow10(38) == 0x4b3b4ca85a86c47a098a224000000000);
    assert(pow10(39) == 10 * 0x4b3b4ca85a86c47a098a224000000000);
}

pub fn checked_add_u64(a: u64, b: u64) -> (r: Result<u64, TwammError>)
    ensures
        a + b <= u64::MAX ==> r == Ok::<u64, TwammError>((a + b) as u64),
        a + b > u64::MAX ==> r == Err::<u64, TwammError>(TwammError::MathOverflow),
{
    if a <= u64::MAX - b {
        Ok(a + b)
    } else {
        Err(TwammError::MathOverflow)
    }
}

pub fn checked_sub_u64(a: u64, b: u64) -> (r: Result<u64, TwammError>)
    ensures
        a >= b ==> r == Ok::<u64, TwammError>((a - b) as u64),
        a < b ==> r == Err::<u64, TwammError>(TwammError::MathOverflow),
{
    if a >= b {
        Ok(a - b)
    } else {
        Err(TwammError::MathOverflow)
    }
}

pub fn checked_add_i64(a: i64, b: i64) -> (r: Result<i64, TwammError>)
    ensures
        i64::MIN <= a + b <= i64::MAX ==> r == Ok::<i64, TwammError>((a + b) as i64),
        !(i64::MIN <= a + b <= i64::MAX) ==> r == Err::<i64, TwammError>(TwammError::MathOverflow),
{
    match a.checked_add(b) {
        Some(v) => Ok(v),
        None => Err(TwammError::MathOverflow),
    }
}

pub fn checked_sub_i64(a: i64, b: i64) -> (r: Result<i64, TwammError>)
    ensures
        i64::MIN <= a - b <= i64::MAX ==> r == Ok::<i64, TwammError>((a - b) as i64),
        !(i64::MIN <= a - b <= i64::MAX) ==> r == Err::<i64, TwammError>(TwammError::MathOverflow),
{
    match a.checked_sub(b) {
        Some(v) => Ok(v),
        None => Err(TwammError::MathOverflow),
    }
}

pub fn checked_mul_u128(a: u128, b: u128) -> (r: Result<u128, TwammError>)
    ensures
        a * b <= u128::MAX ==> r == Ok::<u128, TwammError>((a * b) as u128),
        a * b > u128::MAX ==> r == Err::<u128, TwammError>(TwammError::MathOverflow),
{
    match a.checked_mul(b) {
        Some(v) => Ok(v),
        None => Err(TwammError::MathOverflow),
    }
}

pub fn checked_div_u128(a: u128, b: u128) -> (r: Result<u128, TwammError>)
    ensures
        b != 0 ==> r == Ok::<u128, TwammError>((a / b) as u128),
        b == 0 ==> r == Err::<u128, TwammError>(TwammError::MathOverflow),
{
    if b != 0 {
        Ok(a / b)
    } else {
        Err(TwammError::MathOverflow)
    }
}

pub fn checked_ceil_div_u128(a: u128, b: u128) -> (r: Result<u128, TwammError>)
    ensures
        b != 0 ==> r == Ok::<u128, TwammError>(ceil_div_val(a as int, b as int) as u128),
        b == 0 ==> r == Err::<u128, TwammError>(TwammError::MathOverflow),
{
    if b == 0 {
        Err(TwammError::MathOverflow)
    } else if a == 0 {
        Ok(0)
    } else {
        assert((a - 1) as int / b as int + 1 <= a) by (nonlinear_arith)
            requires
                a >= 1 && b >= 1,
        ;
        Ok((a - 1) / b + 1)
    }
}

pub fn checked_ceil_div_u64(a: u64, b: u64) -> (r: Result<u64, TwammError>)
    ensures
        b != 0 ==> r == Ok::<u64, TwammError>(ceil_div_val(a as int, b as int) as u64),
        b == 0 ==> r == Err::<u64, TwammError>(TwammError::MathOverflow),
{
    if b == 0 {
        Err(TwammError::MathOverflow)
    } else if a == 0 {
        Ok(0)
    } else {
        assert((a - 1) as int / b as int + 1 <= a) by (nonlinear_arith)
            requires
                a >= 1 && b >= 1,
        ;
        Ok((a - 1) / b + 1)
    }
}

/// Narrows a 128-bit intermediate back to 64 bits.
pub fn checked_as_u64(a: u128) -> (r: Result<u64, TwammError>)
    ensures
        a <= u64::MAX ==> r == Ok::<u64, TwammError>(a as u64),
        a > u64::MAX ==> r == Err::<u64, TwammError>(TwammError::MathOverflow),
{
    if a <= u64::MAX as u128 {
        Ok(a as u64)
    } else {
        Err(TwammError::MathOverflow)
    }
}

/// `10^n` as a `u128`, failing once the power no longer fits.
pub fn checked_pow10(n: u32) -> (r: Result<u128, TwammError>)
    ensures
        n <= 38 ==> r == Ok::<u128, TwammError>(pow10(n as nat) as u128),
        n > 38 ==> r == Err::<u128, TwammError>(TwammError::MathOverflow),
{
    if n > 38 {
        proof {
            lemma_pow10_38_fits();
            lemma_pow10_increases(39, n as nat);
        }
        return Err(TwammError::MathOverflow);
    }
    let mut acc: u128 = 1;
    let mut i: u32 = 0;
    while i < n
        invariant
            i <= n <= 38,
            acc == pow10(i as nat),
            acc <= u128::MAX,
        decreases n - i,
    {
        proof {
            lemma_pow10_38_fits();
            lemma_pow10_increases((i + 1) as nat, 38);
        }
        acc = acc * 10;
        i = i + 1;
    }
    Ok(acc)
}

pub proof fn lemma_pow10_increases(m: nat, n: nat)
    requires
        m <= n,
    ensures
        pow10(m) <= pow10(n),
    decreases n,
{
    if m < n {
        lemma_pow10_increases(m, (n - 1) as nat);
        lemma_pow10_pos((n - 1) as nat);
    }
}

/// Power of ten by which a product of two decimal coefficients must be scaled
/// to land on the target exponent.
pub open spec fn dmul_power(e1: int, e2: int, te: int) -> int {
    e1 + e2 - te
}

/// Value of `c1·10^e1 × c2·10^e2` expressed at exponent `te`, rounded down.
pub open spec fn decimal_mul_val(c1: u64, e1: int, c2: u64, e2: int, te: int) -> int {
    let tp = dmul_power(e1, e2, te);
    if tp >= 0 {
        c1 * c2 * pow10(tp as nat)
    } else {
        (c1 * c2) / pow10((-tp) as nat) as int
    }
}

/// Same product rounded up at the final scaling division.
pub open spec fn decimal_mul_ceil_val(c1: u64, e1: int, c2: u64, e2: int, te: int) -> int {
    let tp = dmul_power(e1, e2, te);
    if tp >= 0 {
        c1 * c2 * pow10(tp as nat)
    } else {
        ceil_div_val(c1 * c2, pow10((-tp) as nat) as int)
    }
}

/// Conditions under which the decimal product can be computed without
/// exceeding the 128-bit intermediate or the 64-bit result width.
pub open spec fn decimal_mul_ok(c1: u64, e1: int, c2: u64, e2: int, te: int) -> bool {
    let tp = dmul_power(e1, e2, te);
    c1 == 0 || c2 == 0 || {
        if tp >= 0 {
            tp <= 38 && c1 * c2 * pow10(tp as nat) <= u64::MAX
        } else {
            -tp <= 38 && (c1 * c2) / pow10((-tp) as nat) as int <= u64::MAX
        }
    }
}

/// Like `decimal_mul_ok` for the ceiling variant.
pub open spec fn decimal_mul_ceil_ok(c1: u64, e1: int, c2: u64, e2: int, te: int) -> bool {
    let tp = dmul_power(e1, e2, te);
    c1 == 0 || c2 == 0 || {
        if tp >= 0 {
            tp <= 38 && c1 * c2 * pow10(tp as nat) <= u64::MAX
        } else {
            -tp <= 38 && ceil_div_val(c1 * c2, pow10((-tp) as nat) as int) <= u64::MAX
        }
    }
}

/// The decimal product of zero is zero in every rounding mode.
pub proof fn lemma_decimal_mul_zero(c1: u64, e1: int, c2: u64, e2: int, te: int)
    requires
        c1 == 0 || c2 == 0,
    ensures
        decimal_mul_val(c1, e1, c2, e2, te) == 0,
        decimal_mul_ceil_val(c1, e1, c2, e2, te) == 0,
        decimal_mul_ok(c1, e1, c2, e2, te),
        decimal_mul_ceil_ok(c1, e1, c2, e2, te),
{
    let tp = dmul_power(e1, e2, te);
    assert(c1 as int * c2 as int == 0) by (nonlinear_arith)
        requires
            c1 == 0 || c2 == 0,
    ;
    if tp >= 0 {
        assert(c1 as int * c2 as int * pow10(tp as nat) == 0) by (nonlinear_arith)
            requires
                c1 as int * c2 as int == 0,
        ;
    } else {
        lemma_pow10_pos((-tp) as nat);
        assert(0int / pow10((-tp) as nat) as int == 0);
    }
}

/// Multiplies two decimal-scaled integers and expresses the product at the
/// target exponent, rounding down.
pub fn checked_decimal_mul(c1: u64, e1: i32, c2: u64, e2: i32, te: i32) -> (r: Result<
    u64,
    TwammError,
>)
    ensures
        decimal_mul_ok(c1, e1 as int, c2, e2 as int, te as int) ==> r == Ok::<u64, TwammError>(
            decimal_mul_val(c1, e1 as int, c2, e2 as int, te as int) as u64,
        ),
        !decimal_mul_ok(c1, e1 as int, c2, e2 as int, te as int) ==> r == Err::<u64, TwammError>(
            TwammError::MathOverflow,
        ),
{
    if c1 == 0 || c2 == 0 {
        proof {
            lemma_decimal_mul_zero(c1, e1 as int, c2, e2 as int, te as int);
        }
        return Ok(0);
    }
    let tp: i64 = e1 as i64 + e2 as i64 - te as i64;
    proof {
        assert(c1 as int * c2 as int <= u128::MAX) by (nonlinear_arith)
            requires
                c1 <= u64::MAX && c2 <= u64::MAX,
        ;
        assert(c1 as int * c2 as int >= 1) by (nonlinear_arith)
            requires
                c1 >= 1 && c2 >= 1,
        ;
    }
    let prod: u128 = (c1 as u128) * (c2 as u128);
    if tp >= 0 {
        if tp > 38 {
            proof {
                lemma_pow10_38_fits();
                lemma_pow10_increases(39, tp as nat);
                assert(c1 as int * c2 as int * pow10(tp as nat) > u64::MAX) by (nonlinear_arith)
                    requires
                        c1 as int * c2 as int >= 1 && pow10(tp as nat) > u64::MAX,
                ;
            }
            return Err(TwammError::MathOverflow);
        }
        let p = match checked_pow10(tp as u32) {
            Ok(v) => v,
            Err(_) => {
                proof {
                    assert(false);
                }
                return Err(TwammError::MathOverflow);
            },
        };
        proof {
            assert(tp as u32 as nat == tp as nat);
            lemma_pow10_pos(tp as nat);
            lemma_pow10_38_fits();
            lemma_pow10_increases(tp as nat, 38);
            assert(p == pow10(tp as nat));
        }
        match checked_mul_u128(prod, p) {
            Ok(scaled) => checked_as_u64(scaled),
            Err(e) => {
                proof {
                    assert(prod as int * p as int > u128::MAX ==> prod as int * p as int
                        > u64::MAX);
                }
                Err(e)
            },
        }
    } else {
        let np: i64 = -tp;
        if np > 38 {
            return Err(TwammError::MathOverflow);
        }
        let p = match checked_pow10(np as u32) {
            Ok(v) => v,
            Err(_) => {
                proof {
                    assert(false);
                }
                return Err(TwammError::MathOverflow);
            },
        };
        proof {
            assert(np as u32 as nat == np as nat);
            lemma_pow10_pos(np as nat);
            lemma_pow10_38_fits();
            lemma_pow10_increases(np as nat, 38);
            assert(p == pow10(np as nat));
            assert(prod as int / p as int <= prod) by (nonlinear_arith)
                requires
                    p >= 1 && prod >= 0,
            ;
        }
        let q = prod / p;
        checked_as_u64(q)
    }
}

/// Multiplies two decimal-scaled integers, rounding the final scaling up.
pub fn checked_decimal_ceil_mul(c1: u64, e1: i32, c2: u64, e2: i32, te: i32) -> (r: Result<
    u64,
    TwammError,
>)
    ensures
        decimal_mul_ceil_ok(c1, e1 as int, c2, e2 as int, te as int) ==> r == Ok::<u64, TwammError>(
            decimal_mul_ceil_val(c1, e1 as int, c2, e2 as int, te as int) as u64,
        ),
        !decimal_mul_ceil_ok(c1, e1 as int, c2, e2 as int, te as int) ==> r == Err::<
            u64,
            TwammError,
        >(TwammError::MathOverflow),
{
    if c1 == 0 || c2 == 0 {
        proof {
            lemma_decimal_mul_zero(c1, e1 as int, c2, e2 as int, te as int);
        }
        return Ok(0);
    }
    let tp: i64 = e1 as i64 + e2 as i64 - te as i64;
    proof {
        assert(c1 as int * c2 as int <= u128::MAX) by (nonlinear_arith)
            requires
                c1 <= u64::MAX && c2 <= u64::MAX,
        ;
        assert(c1 as int * c2 as int >= 1) by (nonlinear_arith)
            requires
                c1 >= 1 && c2 >= 1,
        ;
    }
    let prod: u128 = (c1 as u128) * (c2 as u128);
    if tp >= 0 {
        if tp > 38 {
            proof {
                lemma_pow10_38_fits();
                lemma_pow10_increases(39, tp as nat);
                assert(c1 as int * c2 as int * pow10(tp as nat) > u64::MAX) by (nonlinear_arith)
                    requires
                        c1 as int * c2 as int >= 1 && pow10(tp as nat) > u64::MAX,
                ;
            }
            return Err(TwammError::MathOverflow);
        }
        let p = match checked_pow10(tp as u32) {
            Ok(v) => v,
            Err(_) => {
                proof {
                    assert(false);
                }
                return Err(TwammError::MathOverflow);
            },
        };
        proof {
            assert(tp as u32 as nat == tp as nat);
            lemma_pow10_pos(tp as nat);
            lemma_pow10_38_fits();
            lemma_pow10_increases(tp as nat, 38);
            assert(p == pow10(tp as nat));
        }
        match checked_mul_u128(prod, p) {
            Ok(scaled) => checked_as_u64(scaled),
            Err(e) => {
                proof {
                    assert(prod as int * p as int > u128::MAX ==> prod as int * p as int
                        > u64::MAX);
                }
                Err(e)
            },
        }
    } else {
        let np: i64 = -tp;
        if np > 38 {
            return Err(TwammError::MathOverflow);
        }
        let p = match checked_pow10(np as u32) {
            Ok(v) => v,
            Err(_) => {
                proof {
                    assert(false);
                }
                return Err(TwammError::MathOverflow);
            },
        };
        proof {
            assert(np as u32 as nat == np as nat);
            lemma_pow10_pos(np as nat);
            lemma_pow10_38_fits();
            lemma_pow10_increases(np as nat, 38);
            assert(p == pow10(np as nat));
            assert((prod - 1) as int / p as int + 1 <= prod) by (nonlinear_arith)
                requires
                    prod >= 1 && p >= 1,
            ;
        }
        let q = match checked_ceil_div_u128(prod, p) {
            Ok(v) => v,
            Err(e) => {
                return Err(e);
            },
        };
        checked_as_u64(q)
    }
}

/// Power of ten by which the dividend is scaled before a decimal division,
/// chosen so that no precision is lost on negative exponents.
pub open spec fn ddiv_scale(e1: int, e2: int, te: int) -> int {
    (if e1 > 0 {
        e1
    } else {
        0
    }) + (if e2 < 0 {
        -e2
    } else {
        0
    }) + (if te < 0 {
        -te
    } else {
        0
    })
}

/// Power of ten applied to the quotient after a decimal division.
pub open spec fn ddiv_power(e1: int, e2: int, te: int) -> int {
    (e1 - e2 - te) + (if e2 < 0 {
        e2
    } else {
        0
    }) + (if te < 0 {
        te
    } else {
        0
    })
}

/// Scaled quotient of a decimal division, rounded down.
pub open spec fn decimal_div_q(c1: u64, e1: int, c2: u64, e2: int, te: int) -> int {
    (c1 * pow10(ddiv_scale(e1, e2, te) as nat)) / (c2 as int)
}

/// Scaled quotient of a decimal division, rounded up.
pub open spec fn decimal_div_q_ceil(c1: u64, e1: int, c2: u64, e2: int, te: int) -> int {
    ceil_div_val(c1 * pow10(ddiv_scale(e1, e2, te) as nat), c2 as int)
}

/// Value of `c1·10^e1 / c2·10^e2` expressed at exponent `te`, rounded down.
pub open spec fn decimal_div_val(c1: u64, e1: int, c2: u64, e2: int, te: int) -> int {
    let tp = ddiv_power(e1, e2, te);
    if tp >= 0 {
        decimal_div_q(c1, e1, c2, e2, te) * pow10(tp as nat)
    } else {
        decimal_div_q(c1, e1, c2, e2, te) / pow10((-tp) as nat) as int
    }
}

/// Same quotient with the division by the divisor coefficient rounded up.
pub open spec fn decimal_div_ceil_val(c1: u64, e1: int, c2: u64, e2: int, te: int) -> int {
    let tp = ddiv_power(e1, e2, te);
    if tp >= 0 {
        decimal_div_q_ceil(c1, e1, c2, e2, te) * pow10(tp as nat)
    } else {
        decimal_div_q_ceil(c1, e1, c2, e2, te) / pow10((-tp) as nat) as int
    }
}

/// Conditions under which the decimal quotient can be computed without
/// exceeding the 128-bit intermediate or the 64-bit result width.
pub open spec fn decimal_div_ok(c1: u64, e1: int, c2: u64, e2: int, te: int) -> bool {
    c2 != 0 && (c1 == 0 || {
        let sf = ddiv_scale(e1, e2, te);
        let tp = ddiv_power(e1, e2, te);
        sf <= 38 && c1 * pow10(sf as nat) <= u128::MAX && (if tp >= 0 {
            tp <= 38 && decimal_div_val(c1, e1, c2, e2, te) <= u64::MAX
        } else {
            -tp <= 38 && decimal_div_val(c1, e1, c2, e2, te) <= u64::MAX
        })
    })
}

/// Like `decimal_div_ok` for the ceiling variant.
pub open spec fn decimal_div_ceil_ok(c1: u64, e1: int, c2: u64, e2: int, te: int) -> bool {
    c2 != 0 && (c1 == 0 || {
        let sf = ddiv_scale(e1, e2, te);
        let tp = ddiv_power(e1, e2, te);
        sf <= 38 && c1 * pow10(sf as nat) <= u128::MAX && (if tp >= 0 {
            tp <= 38 && decimal_div_ceil_val(c1, e1, c2, e2, te) <= u64::MAX
        } else {
            -tp <= 38 && decimal_div_ceil_val(c1, e1, c2, e2, te) <= u64::MAX
        })
    })
}

/// Divides two decimal-scaled integers and expresses the quotient at the
/// target exponent, rounding down.
pub fn checked_decimal_div(c1: u64, e1: i32, c2: u64, e2: i32, te: i32) -> (r: Result<
    u64,
    TwammError,
>)
    ensures
        decimal_div_ok(c1, e1 as int, c2, e2 as int, te as int) ==> r == Ok::<u64, TwammError>(
            decimal_div_val(c1, e1 as int, c2, e2 as int, te as int) as u64,
        ),
        !decimal_div_ok(c1, e1 as int, c2, e2 as int, te as int) ==> r == Err::<u64, TwammError>(
            TwammError::MathOverflow,
        ),
{
    if c2 == 0 {
        return Err(TwammError::MathOverflow);
    }
    if c1 == 0 {
        proof {
            let sf = ddiv_scale(e1 as int, e2 as int, te as int);
            let tp = ddiv_power(e1 as int, e2 as int, te as int);
            lemma_pow10_pos(sf as nat);
            assert(0int * pow10(sf as nat) == 0) by (nonlinear_arith);
            if tp >= 0 {
                assert(0int * pow10(tp as nat) == 0) by (nonlinear_arith);
            } else {
                lemma_pow10_pos((-tp) as nat);
            }
        }
        return Ok(0);
    }
    let mut sf: i64 = 0;
    let mut tp: i64 = e1 as i64 - e2 as i64 - te as i64;
    if e1 > 0 {
        sf = sf + e1 as i64;
    }
    if e2 < 0 {
        sf = sf - e2 as i64;
        tp = tp + e2 as i64;
    }
    if te < 0 {
        sf = sf - te as i64;
        tp = tp + te as i64;
    }
    if sf > 38 {
        proof {
            lemma_pow10_38_fits();
            lemma_pow10_increases(39, sf as nat);
            assert(c1 as int * pow10(sf as nat) > u128::MAX) by (nonlinear_arith)
                requires
                    c1 >= 1 && pow10(sf as nat) > u128::MAX,
            ;
        }
        return Err(TwammError::MathOverflow);
    }
    let psf = match checked_pow10(sf as u32) {
        Ok(v) => v,
        Err(_) => {
            proof {
                assert(false);
            }
            return Err(TwammError::MathOverflow);
        },
    };
    proof {
        assert(sf as u32 as nat == sf as nat);
        lemma_pow10_pos(sf as nat);
        lemma_pow10_38_fits();
        lemma_pow10_increases(sf as nat, 38);
        assert(psf == pow10(sf as nat));
    }
    let scaled = checked_mul_u128(c1 as u128, psf)?;
    let q: u128 = scaled / (c2 as u128);
    proof {
        assert(q == decimal_div_q(c1, e1 as int, c2, e2 as int, te as int));
        assert(scaled as int / c2 as int <= scaled) by (nonlinear_arith)
            requires
                c2 >= 1 && scaled >= 0,
        ;
    }
    if tp >= 0 {
        if tp > 38 {
            proof {
                lemma_pow10_38_fits();
                lemma_pow10_increases(39, tp as nat);
            }
            return Err(TwammError::MathOverflow);
        }
        let ptp = match checked_pow10(tp as u32) {
            Ok(v) => v,
            Err(_) => {
                proof {
                    assert(false);
                }
                return Err(TwammError::MathOverflow);
            },
        };
        proof {
            assert(tp as u32 as nat == tp as nat);
            lemma_pow10_pos(tp as nat);
            lemma_pow10_38_fits();
            lemma_pow10_increases(tp as nat, 38);
            assert(ptp == pow10(tp as nat));
        }
        match checked_mul_u128(q, ptp) {
            Ok(scaled_q) => checked_as_u64(scaled_q),
            Err(e) => {
                proof {
                    assert(q as int * ptp as int > u128::MAX ==> q as int * ptp as int > u64::MAX);
                }
                Err(e)
            },
        }
    } else {
        let np: i64 = -tp;
        if np > 38 {
            return Err(TwammError::MathOverflow);
        }
        let pnp = match checked_pow10(np as u32) {
            Ok(v) => v,
            Err(_) => {
                proof {
                    assert(false);
                }
                return Err(TwammError::MathOverflow);
            },
        };
        proof {
            assert(np as u32 as nat == np as nat);
            lemma_pow10_pos(np as nat);
            lemma_pow10_38_fits();
            lemma_pow10_increases(np as nat, 38);
            assert(pnp == pow10(np as nat));
            assert(q as int / pnp as int <= q) by (nonlinear_arith)
                requires
                    pnp >= 1 && q >= 0,
            ;
        }
        checked_as_u64(q / pnp)
    }
}

/// Divides two decimal-scaled integers, rounding the division by the divisor
/// coefficient up.
pub fn checked_decimal_ceil_div(c1: u64, e1: i32, c2: u64, e2: i32, te: i32) -> (r: Result<
    u64,
    TwammError,
>)
    ensures
        decimal_div_ceil_ok(c1, e1 as int, c2, e2 as int, te as int) ==> r == Ok::<u64, TwammError>(
            decimal_div_ceil_val(c1, e1 as int, c2, e2 as int, te as int) as u64,
        ),
        !decimal_div_ceil_ok(c1, e1 as int, c2, e2 as int, te as int) ==> r == Err::<
            u64,
            TwammError,
        >(TwammError::MathOverflow),
{
    if c2 == 0 {
        return Err(TwammError::MathOverflow);
    }
    if c1 == 0 {
        proof {
            let sf = ddiv_scale(e1 as int, e2 as int, te as int);
            let tp = ddiv_power(e1 as int, e2 as int, te as int);
            lemma_pow10_pos(sf as nat);
            assert(0int * pow10(sf as nat) == 0) by (nonlinear_arith);
            if tp >= 0 {
                assert(0int * pow10(tp as nat) == 0) by (nonlinear_arith);
            } else {
                lemma_pow10_pos((-tp) as nat);
            }
        }
        return Ok(0);
    }
    let mut sf: i64 = 0;
    let mut tp: i64 = e1 as i64 - e2 as i64 - te as i64;
    if e1 > 0 {
        sf = sf + e1 as i64;
    }
    if e2 < 0 {
        sf = sf - e2 as i64;
        tp = tp + e2 as i64;
    }
    if te < 0 {
        sf = sf - te as i64;
        tp = tp + te as i64;
    }
    if sf > 38 {
        proof {
            lemma_pow10_38_fits();
            lemma_pow10_increases(39, sf as nat);
            assert(c1 as int * pow10(sf as nat) > u128::MAX) by (nonlinear_arith)
                requires
                    c1 >= 1 && pow10(sf as nat) > u128::MAX,
            ;
        }
        return Err(TwammError::MathOverflow);
    }
    let psf = match checked_pow10(sf as u32) {
        Ok(v) => v,
        Err(_) => {
            proof {
                assert(false);
            }
            return Err(TwammError::MathOverflow);
        },
    };
    proof {
        assert(sf as u32 as nat == sf as nat);
        lemma_pow10_pos(sf as nat);
        lemma_pow10_38_fits();
        lemma_pow10_increases(sf as nat, 38);
        assert(psf == pow10(sf as nat));
    }
    let scaled = checked_mul_u128(c1 as u128, psf)?;
    let q: u128 = match checked_ceil_div_u128(scaled, c2 as u128) {
        Ok(v) => v,
        Err(_) => {
            proof {
                assert(false);
            }
            return Err(TwammError::MathOverflow);
        },
    };
    proof {
        assert(q == decimal_div_q_ceil(c1, e1 as int, c2, e2 as int, te as int));
    }
    if tp >= 0 {
        if tp > 38 {
            proof {
                lemma_pow10_38_fits();
                lemma_pow10_increases(39, tp as nat);
            }
            return Err(TwammError::MathOverflow);
        }
        let ptp = match checked_pow10(tp as u32) {
            Ok(v) => v,
            Err(_) => {
                proof {
                    assert(false);
                }
                return Err(TwammError::MathOverflow);
            },
        };
        proof {
            assert(tp as u32 as nat == tp as nat);
            lemma_pow10_pos(tp as nat);
            lemma_pow10_38_fits();
            lemma_pow10_increases(tp as nat, 38);
            assert(ptp == pow10(tp as nat));
        }
        match checked_mul_u128(q, ptp) {
            Ok(scaled_q) => checked_as_u64(scaled_q),
            Err(e) => {
                proof {
                    assert(q as int * ptp as int > u128::MAX ==> q as int * ptp as int > u64::MAX);
                }
                Err(e)
            },
        }
    } else {
        let np: i64 = -tp;
        if np > 38 {
            return Err(TwammError::MathOverflow);
        }
        let pnp = match checked_pow10(np as u32) {
            Ok(v) => v,
            Err(_) => {
                proof {
                    assert(false);
                }
                return Err(TwammError::MathOverflow);
            },
        };
        proof {
            assert(np as u32 as nat == np as nat);
            lemma_pow10_pos(np as nat);
            lemma_pow10_38_fits();
            lemma_pow10_increases(np as nat, 38);
            assert(pnp == pow10(np as nat));
            assert(q as int / pnp as int <= q) by (nonlinear_arith)
                requires
                    pnp >= 1 && q >= 0,
            ;
        }
        checked_as_u64(q / pnp)
    }
}

/// Decimal products and quotients of unsigned inputs are non-negative.
pub proof fn lemma_decimal_mul_nonneg(c1: u64, e1: int, c2: u64, e2: int, te: int)
    ensures
        decimal_mul_val(c1, e1, c2, e2, te) >= 0,
        decimal_mul_ceil_val(c1, e1, c2, e2, te) >= 0,
{
    let tp = dmul_power(e1, e2, te);
    assert(c1 as int * c2 as int >= 0) by (nonlinear_arith)
        requires
            c1 >= 0 && c2 >= 0,
    ;
    if tp >= 0 {
        lemma_pow10_pos(tp as nat);
        assert(c1 as int * c2 as int * pow10(tp as nat) >= 0) by (nonlinear_arith)
            requires
                c1 as int * c2 as int >= 0 && pow10(tp as nat) >= 1,
        ;
    } else {
        lemma_pow10_pos((-tp) as nat);
        assert((c1 as int * c2 as int) / (pow10((-tp) as nat) as int) >= 0) by (nonlinear_arith)
            requires
                c1 as int * c2 as int >= 0 && pow10((-tp) as nat) >= 1,
        ;
        if c1 as int * c2 as int != 0 {
            assert(((c1 as int * c2 as int) - 1) / (pow10((-tp) as nat) as int) + 1
                >= 0) by (nonlinear_arith)
                requires
                    c1 as int * c2 as int >= 1 && pow10((-tp) as nat) >= 1,
            ;
        }
    }
}

/// A zero dividend yields a zero decimal quotient.
pub proof fn lemma_decimal_div_zero_c1(c1: u64, e1: int, c2: u64, e2: int, te: int)
    requires
        c1 == 0,
        c2 != 0,
    ensures
        decimal_div_val(c1, e1, c2, e2, te) == 0,
        decimal_div_ceil_val(c1, e1, c2, e2, te) == 0,
{
    let sf = ddiv_scale(e1, e2, te);
    let tp = ddiv_power(e1, e2, te);
    lemma_pow10_pos(sf as nat);
    assert(0int * pow10(sf as nat) == 0) by (nonlinear_arith);
    assert(0int / (c2 as int) == 0);
    assert(decimal_div_q(c1, e1, c2, e2, te) == 0);
    assert(decimal_div_q_ceil(c1, e1, c2, e2, te) == 0);
    if tp >= 0 {
        assert(0int * pow10(tp as nat) == 0) by (nonlinear_arith);
    } else {
        lemma_pow10_pos((-tp) as nat);
        assert(0int / pow10((-tp) as nat) as int == 0);
    }
}

/// Decimal quotients of unsigned inputs are non-negative.
pub proof fn lemma_decimal_div_nonneg(c1: u64, e1: int, c2: u64, e2: int, te: int)
    requires
        c2 != 0,
    ensures
        decimal_div_val(c1, e1, c2, e2, te) >= 0,
        decimal_div_ceil_val(c1, e1, c2, e2, te) >= 0,
{
    let sf = ddiv_scale(e1, e2, te);
    let tp = ddiv_power(e1, e2, te);
    lemma_pow10_pos(sf as nat);
    let scaled = c1 * pow10(sf as nat);
    assert(scaled >= 0) by (nonlinear_arith)
        requires
            c1 >= 0 && pow10(sf as nat) >= 1 && scaled == c1 * pow10(sf as nat),
    ;
    let q = decimal_div_q(c1, e1, c2, e2, te);
    let qc = decimal_div_q_ceil(c1, e1, c2, e2, te);
    assert(q >= 0) by (nonlinear_arith)
        requires
            scaled >= 0 && c2 >= 1 && q == scaled / (c2 as int),
    ;
    if scaled != 0 {
        assert(qc >= 0) by (nonlinear_arith)
            requires
                scaled >= 1 && c2 >= 1 && qc == (scaled - 1) / (c2 as int) + 1,
        ;
    }
    if tp >= 0 {
        lemma_pow10_pos(tp as nat);
        assert(q * pow10(tp as nat) >= 0 && qc * pow10(tp as nat) >= 0) by (nonlinear_arith)
            requires
                q >= 0 && qc >= 0 && pow10(tp as nat) >= 1,
        ;
    } else {
        lemma_pow10_pos((-tp) as nat);
        assert(q / (pow10((-tp) as nat) as int) >= 0 && qc / (pow10((-tp) as nat) as int)
            >= 0) by (nonlinear_arith)
            requires
                q >= 0 && qc >= 0 && pow10((-tp) as nat) >= 1,
        ;
    }
}

/// Saturating addition on 64-bit values.
pub open spec fn sat_add_val(a: u64, b: u64) -> int {
    if a + b <= u64::MAX {
        a + b
    } else {
        u64::MAX as int
    }
}

/// Adds two amounts, clamping at the maximum representable value.
pub fn saturating_add_u64(a: u64, b: u64) -> (r: u64)
    ensures
        r == sat_add_val(a, b),
{
    if a <= u64::MAX - b {
        a + b
    } else {
        u64::MAX
    }
}

/// Subtracting then flooring a pro-rata share never exceeds the whole:
/// `a*b/c <= a` when `b <= c`.
pub proof fn lemma_mul_div_le(a: int, b: int, c: int)
    requires
        0 <= a,
        0 <= b <= c,
        0 < c,
    ensures
        a * b / c <= a,
{
    assert(a * b <= a * c) by (nonlinear_arith)
        requires
            0 <= a && b <= c,
    ;
    vstd::arithmetic::div_mod::lemma_div_is_ordered(a * b, a * c, c);
    vstd::arithmetic::div_mod::lemma_div_by_multiple(a, c);
}

/// The ceiling variant: `ceil(a*b/c) <= a` when `b <= c`.
pub proof fn lemma_mul_ceil_div_le(a: int, b: int, c: int)
    requires
        0 <= a,
        0 <= b <= c,
        0 < c,
    ensures
        ceil_div_val(a * b, c) <= a,
{
    if a * b != 0 {
        assert(a * b >= 0) by (nonlinear_arith)
            requires
                0 <= a && 0 <= b,
        ;
        assert(a >= 1 && b >= 1) by (nonlinear_arith)
            requires
                a * b != 0 && a >= 0 && b >= 0,
        ;
        assert(a * b <= a * c) by (nonlinear_arith)
            requires
                0 <= a && b <= c,
        ;
        vstd::arithmetic::div_mod::lemma_div_is_ordered(a * b - 1, a * c - 1, c);
        assert(a * c - 1 == c * (a - 1) + (c - 1)) by (nonlinear_arith);
        vstd::arithmetic::div_mod::lemma_div_multiples_vanish_fancy(a - 1, c - 1, c);
    }
}

/// Wrapping addition on 64-bit values.
pub open spec fn wrap_add_val(a: u64, b: u64) -> int {
    if a + b <= u64::MAX {
        a + b
    } else {
        a + b - 0x1_0000_0000_0000_0000
    }
}

/// Adds two amounts modulo the 64-bit width.
pub fn wrapping_add_u64(a: u64, b: u64) -> (r: u64)
    ensures
        r == wrap_add_val(a, b),
{
    if a <= u64::MAX - b {
        a + b
    } else {
        let s = a as u128 + b as u128;
        (s - 0x1_0000_0000_0000_0000u128) as u64
    }
}

/// Saturating subtraction on 64-bit values.
pub open spec fn sat_sub_val(a: u64, b: u64) -> int {
    if a >= b {
        a - b
    } else {
        0
    }
}

/// Subtracts, clamping at zero.
pub fn saturating_sub_u64(a: u64, b: u64) -> (r: u64)
    ensures
        r == sat_sub_val(a, b),
{
    if a >= b {
        a - b
    } else {
        0
    }
}

/// An exact non-negative rational, used for fractional configuration limits
/// such as fee rates and the lock window share of a pool's lifetime.
#[derive(Clone, Copy, Debug, PartialEq, Eq, Structural)]
pub struct Fraction {
    pub num: u64,
    pub den: u64,
}

impl Fraction {
    /// A fraction is meaningful only with a positive denominator.
    pub open spec fn wf(self) -> bool {
        self.den > 0
    }

    /// The fraction lies in the closed unit interval.
    pub open spec fn in_unit(self) -> bool {
        self.den > 0 && self.num <= self.den
    }

    /// Whether the ratio `a / b` is at most this fraction, compared exactly
    /// by cross-multiplication.
    pub open spec fn spec_ratio_le(self, a: u64, b: u64) -> bool {
        a * self.den <= self.num * b
    }

    pub fn new(num: u64, den: u64) -> (r: Fraction)
        ensures
            r == (Fraction { num, den }),
    {
        Fraction { num, den }
    }

    /// Compares the ratio `a / b` against this fraction without rounding.
    pub fn ratio_le(&self, a: u64, b: u64) -> (r: bool)
        ensures
            r == self.spec_ratio_le(a, b),
    {
        proof {
            assert(a as int * self.den as int <= u128::MAX && self.num as int * b as int
                <= u128::MAX) by (nonlinear_arith)
                requires
                    a <= u64::MAX && b <= u64::MAX && self.num <= u64::MAX && self.den <= u64::MAX,
            ;
        }
        (a as u128) * (self.den as u128) <= (self.num as u128) * (b as u128)
    }
}

} // verus!
