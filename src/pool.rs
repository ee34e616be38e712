//! The pool's accounting decisions for deposits, withdrawals and swaps. The
//! host reads balances, performs transfers and keeps state; these functions
//! decide the amounts from the values it reads.

use vstd::prelude::*;
use vstd::arithmetic::div_mod::lemma_fundamental_div_mod;
use crate::rational::{
    gcd, lemma_can_reduce, lemma_gcd_divides, reduced_den, reduced_num, safe_mul,
    safe_mul_fits, trunc_mul_div, Ratio,
};
use crate::sqrt::{floor_sqrt, is_floor_sqrt, lemma_floor_sqrt_unique, sqrt_u256};
use crate::wide::{carrying_mul, u256_value};

verus! {

/// Why a pool operation is refused.
#[derive(Clone, Copy, Debug, PartialEq, Eq, Structural)]
pub enum SwapError {
    AlreadyInitialized,
    NotInitialized,
    SameTokens,
    SwapAlreadyInitialized,
    SwapNotInitialized,
    IntegerOverflow,
    ZeroDeposit,
    DepositRejected,
    CannotFulfillSwap,
    SwapRejected,
    InvalidAdmin,
    InsufficientInputBalance,
    CannotFulfillWithdraw,
    WithdrawRejected,
}

/// The pool of two tokens; its operations are associated functions.
pub struct SwapContract;

/// The smaller of two values.
pub open spec fn min(x: int, y: int) -> int {
    if x < y {
        x
    } else {
        y
    }
}

/// The amounts a deposit takes, before the liquidity it mints. Each request
/// `(amount, floor)` is capped at what the depositor holds; a negative
/// amount is refused. The admin's amounts are taken as they are. A standard
/// depositor's amounts are cut to the pool's ratio `pool.0 / pool.1` (in
/// lowest terms; a pool holding none of token B, or a negative amount of
/// token A, has no ratio and refuses them): where they hold relatively more
/// of token A, its amount becomes `amount_b * pool.0 / pool.1`; where they
/// hold relatively more of token B, its amount becomes
/// `amount_a * pool.1 / pool.0`; each quotient is rounded toward zero. The
/// amounts after the cut are then held against the floors.
pub open spec fn deposit_amounts_spec(
    is_admin: bool,
    token_a: (i128, i128),
    token_b: (i128, i128),
    held: (i128, i128),
    pool: (i128, i128),
) -> Result<(int, int), SwapError> {
    let a = min(token_a.0 as int, held.0 as int);
    let b = min(token_b.0 as int, held.1 as int);
    if a < 0 || b < 0 {
        Err(SwapError::DepositRejected)
    } else if is_admin {
        Ok((a, b))
    } else if pool.0 < 0 || pool.1 <= 0 {
        Err(SwapError::DepositRejected)
    } else {
        let dn = reduced_num(pool.0 as int, pool.1 as int);
        let dd = reduced_den(pool.0 as int, pool.1 as int);
        let adjusted = if a * pool.1 > pool.0 * b {
            if safe_mul_fits(b, dn, dd) {
                Ok((trunc_mul_div(b, dn, dd), b))
            } else {
                Err(SwapError::IntegerOverflow)
            }
        } else if a * pool.1 < pool.0 * b {
            if safe_mul_fits(a, dd, dn) {
                Ok((a, trunc_mul_div(a, dd, dn)))
            } else {
                Err(SwapError::IntegerOverflow)
            }
        } else {
            Ok((a, b))
        };
        match adjusted {
            Ok(amounts) => if amounts.0 < token_a.1 || amounts.1 < token_b.1 {
                Err(SwapError::DepositRejected)
            } else {
                Ok(amounts)
            },
            Err(e) => Err(e),
        }
    }
}

/// What a deposit yields: the two amounts taken and the liquidity minted,
/// the floor square root of their product. After the floors, a product that
/// does not fit in `i128` is an overflow, and a product of zero is a zero
/// deposit.
pub open spec fn deposit_spec(
    is_admin: bool,
    token_a: (i128, i128),
    token_b: (i128, i128),
    held: (i128, i128),
    pool: (i128, i128),
) -> Result<(int, int, int), SwapError> {
    match deposit_amounts_spec(is_admin, token_a, token_b, held, pool) {
        Ok(amounts) => if amounts.0 * amounts.1 > i128::MAX {
            Err(SwapError::IntegerOverflow)
        } else if amounts.0 * amounts.1 == 0 {
            Err(SwapError::ZeroDeposit)
        } else {
            Ok((amounts.0, amounts.1, floor_sqrt(amounts.0 * amounts.1)))
        },
        Err(e) => Err(e),
    }
}

/// Relies on num_integer's `Roots::sqrt` for `i128`, documented to return
/// `r` with `r * r <= x < (r + 1) * (r + 1)` and to panic on a negative `x`.
#[verifier::external_body]
fn isqrt(x: i128) -> (r: i128)
    requires
        x >= 0,
    ensures
        is_floor_sqrt(r as int, x as int),
{
    num_integer::Roots::sqrt(&x)
}

/// The terms of a non-negative fraction in lowest terms keep its value.
proof fn lemma_reduced_cross(n: i128, d: i128)
    requires
        n >= 0,
        d > 0,
    ensures
        reduced_num(n as int, d as int) * d == n * reduced_den(n as int, d as int),
        reduced_num(n as int, d as int) >= 0,
        n > 0 ==> reduced_num(n as int, d as int) > 0,
        reduced_den(n as int, d as int) > 0,
{
    lemma_gcd_divides(n as nat, d as nat);
    let g = gcd(n as nat, d as nat) as int;
    lemma_fundamental_div_mod(n as int, g);
    lemma_fundamental_div_mod(d as int, g);
    let n2 = (n as int) / g;
    let d2 = (d as int) / g;
    assert(n2 * d == n * d2) by (nonlinear_arith)
        requires n == g * n2, d == g * d2;
    assert(n2 >= 0 && (n > 0 ==> n2 > 0) && d2 > 0) by (nonlinear_arith)
        requires n == g * n2, d == g * d2, n >= 0, d > 0, g > 0;
}

/// Comparing two non-negative fractions in lowest terms compares the
/// unreduced fractions.
proof fn lemma_reduced_order(a: i128, b: i128, pa: i128, pb: i128)
    requires
        a >= 0,
        b > 0,
        pa >= 0,
        pb > 0,
    ensures
        (reduced_num(a as int, b as int) * reduced_den(pa as int, pb as int) < reduced_num(
            pa as int,
            pb as int,
        ) * reduced_den(a as int, b as int)) == (a * pb < pa * b),
        (reduced_num(a as int, b as int) * reduced_den(pa as int, pb as int) > reduced_num(
            pa as int,
            pb as int,
        ) * reduced_den(a as int, b as int)) == (a * pb > pa * b),
{
    lemma_reduced_cross(a, b);
    lemma_reduced_cross(pa, pb);
    let a2 = reduced_num(a as int, b as int);
    let b2 = reduced_den(a as int, b as int);
    let p2 = reduced_num(pa as int, pb as int);
    let q2 = reduced_den(pa as int, pb as int);
    let k = b2 * q2;
    assert(k > 0) by (nonlinear_arith)
        requires b2 > 0, q2 > 0, k == b2 * q2;
    assert((a2 * q2) * (b * pb) == (a * pb) * k) by (nonlinear_arith)
        requires a2 * b == a * b2, k == b2 * q2;
    assert((p2 * b2) * (b * pb) == (pa * b) * k) by (nonlinear_arith)
        requires p2 * pb == pa * q2, k == b2 * q2;
    assert(b * pb > 0) by (nonlinear_arith)
        requires b > 0, pb > 0;
    let m = b * pb;
    assert((a2 * q2 < p2 * b2) == ((a2 * q2) * m < (p2 * b2) * m)) by (nonlinear_arith)
        requires m > 0;
    assert((a2 * q2 > p2 * b2) == ((a2 * q2) * m > (p2 * b2) * m)) by (nonlinear_arith)
        requires m > 0;
    assert(((a * pb) * k < (pa * b) * k) == (a * pb < pa * b)) by (nonlinear_arith)
        requires k > 0;
    assert(((a * pb) * k > (pa * b) * k) == (a * pb > pa * b)) by (nonlinear_arith)
        requires k > 0;
}

/// What a withdrawal of `input` shares yields, by a holder of `shares`, from
/// a pool holding `balance_a` and `balance_b`, with the floors `floor_a` and
/// `floor_b`. The token with the greater balance (token A on a tie) is
/// "greater", the other "lesser": the lesser amount is
/// `floor(sqrt(input * (input * lesser / greater)))` and the greater amount
/// `lesser_amount * greater / lesser`, each quotient rounded toward zero.
/// The amounts come back in the order of the tokens.
pub open spec fn withdraw_spec(
    input: int,
    shares: int,
    balance_a: int,
    balance_b: int,
    floor_a: int,
    floor_b: int,
) -> Result<(int, int), SwapError> {
    let a_greater = balance_a >= balance_b;
    let greater = if a_greater {
        balance_a
    } else {
        balance_b
    };
    let lesser = if a_greater {
        balance_b
    } else {
        balance_a
    };
    let floor_greater = if a_greater {
        floor_a
    } else {
        floor_b
    };
    let floor_lesser = if a_greater {
        floor_b
    } else {
        floor_a
    };
    if input < 1 {
        Ok((0, 0))
    } else if input > shares {
        Err(SwapError::InsufficientInputBalance)
    } else if lesser <= 0 {
        Err(SwapError::CannotFulfillWithdraw)
    } else if !safe_mul_fits(input, lesser, greater) {
        Err(SwapError::IntegerOverflow)
    } else {
        let amount_lesser = floor_sqrt(trunc_mul_div(input, lesser, greater) * input);
        if amount_lesser > i128::MAX || !safe_mul_fits(amount_lesser, greater, lesser) {
            Err(SwapError::IntegerOverflow)
        } else {
            let amount_greater = trunc_mul_div(amount_lesser, greater, lesser);
            if amount_greater > greater || amount_lesser > lesser {
                Err(SwapError::CannotFulfillWithdraw)
            } else if amount_greater < floor_greater || amount_lesser < floor_lesser {
                Err(SwapError::WithdrawRejected)
            } else if a_greater {
                Ok((amount_greater, amount_lesser))
            } else {
                Ok((amount_lesser, amount_greater))
            }
        }
    }
}

/// A deposit of non-negative amounts that already stand in the pool's
/// ratio, within what the depositor holds and not below its floors, is never
/// rejected, whoever makes it; where both amounts are positive it takes them
/// as they are.
pub proof fn lemma_matched_deposit_not_rejected(
    is_admin: bool,
    token_a: (i128, i128),
    token_b: (i128, i128),
    held: (i128, i128),
    pool: (i128, i128),
)
    requires
        0 <= token_a.0 <= held.0,
        0 <= token_b.0 <= held.1,
        token_a.1 <= token_a.0,
        token_b.1 <= token_b.0,
        pool.0 > 0,
        pool.1 > 0,
        token_a.0 * pool.1 == pool.0 * token_b.0,
    ensures
        deposit_amounts_spec(is_admin, token_a, token_b, held, pool) != Err::<(int, int), SwapError>(
            SwapError::DepositRejected,
        ),
        deposit_spec(is_admin, token_a, token_b, held, pool) != Err::<(int, int, int), SwapError>(
            SwapError::DepositRejected,
        ),
        token_a.0 > 0 && token_b.0 > 0 ==> deposit_amounts_spec(is_admin, token_a, token_b, held, pool)
            == Ok::<(int, int), SwapError>((token_a.0 as int, token_b.0 as int)),
{
}

/// A successful withdrawal never pays out more of either token than the
/// pool holds.
pub proof fn lemma_withdraw_within_balances(
    input: int,
    shares: int,
    balance_a: int,
    balance_b: int,
    floor_a: int,
    floor_b: int,
)
    requires
        balance_a >= 0,
        balance_b >= 0,
    ensures
        withdraw_spec(input, shares, balance_a, balance_b, floor_a, floor_b) matches Ok(amounts)
            ==> amounts.0 <= balance_a && amounts.1 <= balance_b,
{
}

impl SwapContract {
    /// Decides a deposit of `token_a = (amount, floor)` and `token_b`, by a
    /// depositor holding `held` of the two tokens, into a pool holding
    /// `pool`: the amounts to transfer in and the liquidity to mint.
    pub fn deposit_amounts(
        is_admin: bool,
        token_a: (i128, i128),
        token_b: (i128, i128),
        held: (i128, i128),
        pool: (i128, i128),
    ) -> (r: Result<(i128, i128, i128), SwapError>)
        ensures
            match r {
                Ok(v) => deposit_spec(is_admin, token_a, token_b, held, pool) == Ok::<
                    (int, int, int),
                    SwapError,
                >((v.0 as int, v.1 as int, v.2 as int)),
                Err(e) => deposit_spec(is_admin, token_a, token_b, held, pool) == Err::<
                    (int, int, int),
                    SwapError,
                >(e),
            },
    {
        let mut amount_a = if token_a.0 < held.0 {
            token_a.0
        } else {
            held.0
        };
        let mut amount_b = if token_b.0 < held.1 {
            token_b.0
        } else {
            held.1
        };
        if amount_a < 0 || amount_b < 0 {
            return Err(SwapError::DepositRejected);
        }
        if !is_admin {
            if pool.0 < 0 || pool.1 <= 0 {
                return Err(SwapError::DepositRejected);
            }
            proof {
                lemma_can_reduce(pool.0, pool.1);
                lemma_reduced_cross(pool.0, pool.1);
            }
            let desired = Ratio::new(pool.0, pool.1);
            let cmp: i32 = if amount_b == 0 {
                proof {
                    assert(amount_a * pool.1 > pool.0 * amount_b <==> amount_a > 0)
                        by (nonlinear_arith)
                        requires amount_b == 0, pool.1 > 0, amount_a >= 0;
                    assert(!(amount_a * pool.1 < pool.0 * amount_b)) by (nonlinear_arith)
                        requires amount_b == 0, pool.1 > 0, amount_a >= 0;
                }
                if amount_a > 0 {
                    1
                } else {
                    0
                }
            } else {
                proof {
                    lemma_can_reduce(amount_a, amount_b);
                    lemma_reduced_order(amount_a, amount_b, pool.0, pool.1);
                }
                let actual = Ratio::new(amount_a, amount_b);
                actual.compare(&desired)
            };
            proof {
                assert(cmp < 0 ==> pool.0 > 0) by (nonlinear_arith)
                    requires
                        cmp < 0 ==> amount_a * pool.1 < pool.0 * amount_b,
                        amount_a >= 0,
                        pool.1 > 0,
                        amount_b >= 0,
                        pool.0 >= 0;
            }
            if cmp > 0 {
                amount_a = match safe_mul(amount_b, desired.num, desired.den) {
                    Ok(v) => v,
                    Err(_) => return Err(SwapError::IntegerOverflow),
                };
            } else if cmp < 0 {
                let inverse = desired.reciprocal();
                amount_b = match safe_mul(amount_a, inverse.num, inverse.den) {
                    Ok(v) => v,
                    Err(_) => return Err(SwapError::IntegerOverflow),
                };
            }
            if amount_a < token_a.1 || amount_b < token_b.1 {
                return Err(SwapError::DepositRejected);
            }
        }
        let liquidity = match amount_a.checked_mul(amount_b) {
            Some(p) => p,
            None => return Err(SwapError::IntegerOverflow),
        };
        if liquidity == 0 {
            return Err(SwapError::ZeroDeposit);
        }
        proof {
            assert(liquidity > 0) by (nonlinear_arith)
                requires liquidity == amount_a * amount_b, liquidity != 0, amount_a >= 0, amount_b >= 0;
        }
        let shares = isqrt(liquidity);
        proof {
            lemma_floor_sqrt_unique(shares as int, liquidity as int);
        }
        Ok((amount_a, amount_b, shares))
    }

    /// Decides whether a swap of `input` by a holder of `held` goes on to the
    /// curve: `Ok(false)` where the input is below one and nothing is
    /// traded, an error where the holder has less than the input.
    pub fn check_swap_input(input: i128, held: i128) -> (r: Result<bool, SwapError>)
        ensures
            r == (if input < 1 {
                Ok::<bool, SwapError>(false)
            } else if input > held {
                Err::<bool, SwapError>(SwapError::InsufficientInputBalance)
            } else {
                Ok::<bool, SwapError>(true)
            }),
    {
        if input < 1 {
            return Ok(false);
        }
        if input > held {
            return Err(SwapError::InsufficientInputBalance);
        }
        Ok(true)
    }

    /// Accepts the curve's `output` for a swap unless it is below the
    /// trader's `min_output`.
    pub fn check_swap_output(output: i128, min_output: i128) -> (r: Result<i128, SwapError>)
        ensures
            r == (if output < min_output {
                Err::<i128, SwapError>(SwapError::SwapRejected)
            } else {
                Ok::<i128, SwapError>(output)
            }),
    {
        if output < min_output {
            Err(SwapError::SwapRejected)
        } else {
            Ok(output)
        }
    }

    /// Decides a withdrawal of `input` shares by a holder of `shares`, with
    /// the floors `token_a.1` and `token_b.1`, from a pool holding
    /// `token_a.0` and `token_b.0`: the amounts of the two tokens to pay
    /// out. An input below one share withdraws nothing. What is paid never
    /// exceeds what the pool holds.
    pub fn withdraw_amounts(input: i128, shares: i128, token_a: (i128, i128), token_b: (i128, i128)) -> (r: Result<
        (i128, i128),
        SwapError,
    >)
        ensures
            match r {
                Ok(v) => withdraw_spec(
                    input as int,
                    shares as int,
                    token_a.0 as int,
                    token_b.0 as int,
                    token_a.1 as int,
                    token_b.1 as int,
                ) == Ok::<(int, int), SwapError>((v.0 as int, v.1 as int)),
                Err(e) => withdraw_spec(
                    input as int,
                    shares as int,
                    token_a.0 as int,
                    token_b.0 as int,
                    token_a.1 as int,
                    token_b.1 as int,
                ) == Err::<(int, int), SwapError>(e),
            },
            r is Ok ==> r->Ok_0.0 <= token_a.0 || input < 1,
            r is Ok ==> r->Ok_0.1 <= token_b.0 || input < 1,
    {
        if input < 1 {
            return Ok((0, 0));
        }
        if input > shares {
            return Err(SwapError::InsufficientInputBalance);
        }
        let a_greater = token_a.0 >= token_b.0;
        let (greater, lesser) = if a_greater {
            (token_a, token_b)
        } else {
            (token_b, token_a)
        };
        if lesser.0 <= 0 {
            return Err(SwapError::CannotFulfillWithdraw);
        }
        let scaled = match safe_mul(input, lesser.0, greater.0) {
            Ok(v) => v,
            Err(_) => return Err(SwapError::IntegerOverflow),
        };
        proof {
            assert(input * lesser.0 >= 0) by (nonlinear_arith)
                requires input >= 1, lesser.0 > 0;
            assert((input * lesser.0) / (greater.0 as int) >= 0) by (nonlinear_arith)
                requires input * lesser.0 >= 0, greater.0 > 0;
        }
        let square = carrying_mul(scaled as u128, input as u128);
        let root = match sqrt_u256(square) {
            Ok(v) => v,
            Err(_) => return Err(SwapError::IntegerOverflow),
        };
        proof {
            lemma_floor_sqrt_unique(root as int, u256_value(square));
        }
        if root > i128::MAX as u128 {
            return Err(SwapError::IntegerOverflow);
        }
        let amount_lesser = root as i128;
        let amount_greater = match safe_mul(amount_lesser, greater.0, lesser.0) {
            Ok(v) => v,
            Err(_) => return Err(SwapError::IntegerOverflow),
        };
        if amount_greater > greater.0 || amount_lesser > lesser.0 {
            return Err(SwapError::CannotFulfillWithdraw);
        }
        if amount_greater < greater.1 || amount_lesser < lesser.1 {
            return Err(SwapError::WithdrawRejected);
        }
        if a_greater {
            Ok((amount_greater, amount_lesser))
        } else {
            Ok((amount_lesser, amount_greater))
        }
    }
}

} // verus!
