//! The earlier pool design: its constant-product curve reports a trade it
//! cannot fill as an output of -1, and its swaps take at most what the
//! trader holds and refuse a negative output.

use vstd::prelude::*;
use crate::curve::SwapCurveError;
use crate::pool::SwapError;
use crate::rational::{safe_mul, safe_mul_fits, trunc_mul_div};

verus! {

/// What this curve pays out of `balance_b` for `input` of token A:
/// `balance_b - balance_a * balance_b / (balance_a + input)`, the quotient
/// rounded toward zero, or -1 where that would exceed `balance_b`.
pub open spec fn sentinel_output(balance_a: int, balance_b: int, input: int) -> Result<
    int,
    SwapCurveError,
> {
    let divisor = balance_a + input;
    if divisor < i128::MIN || divisor > i128::MAX {
        Err(SwapCurveError::IntegerOverflow)
    } else if !safe_mul_fits(balance_a, balance_b, divisor) {
        Err(SwapCurveError::IntegerOverflow)
    } else {
        let delta = trunc_mul_div(balance_a, balance_b, divisor);
        if delta < 0 {
            Ok(-1)
        } else if balance_b - delta < i128::MIN {
            Err(SwapCurveError::IntegerOverflow)
        } else {
            Ok(balance_b - delta)
        }
    }
}

/// The output of a constant-product trade of `input` against the balances
/// `balance_a` and `balance_b`, with -1 for a trade that cannot be filled.
pub fn curve_fn(balance_a: i128, balance_b: i128, input: i128) -> (r: Result<i128, SwapCurveError>)
    requires
        balance_a + input != 0,
    ensures
        match r {
            Ok(v) => sentinel_output(balance_a as int, balance_b as int, input as int) == Ok::<
                int,
                SwapCurveError,
            >(v as int),
            Err(e) => sentinel_output(balance_a as int, balance_b as int, input as int) == Err::<
                int,
                SwapCurveError,
            >(e),
        },
{
    let divisor = match balance_a.checked_add(input) {
        Some(d) => d,
        None => return Err(SwapCurveError::IntegerOverflow),
    };
    let delta = match safe_mul(balance_a, balance_b, divisor) {
        Ok(d) => d,
        Err(_) => return Err(SwapCurveError::IntegerOverflow),
    };
    if delta < 0 {
        return Ok(-1);
    }
    match balance_b.checked_sub(delta) {
        Some(output) => Ok(output),
        None => Err(SwapCurveError::IntegerOverflow),
    }
}

/// The input a swap trades: the requested `input`, capped at what the
/// trader holds, or `None` where that is below one and nothing is traded.
pub fn swap_input(input: i128, held: i128) -> (r: Option<i128>)
    ensures
        r == (if (if input < held {
            input
        } else {
            held
        }) < 1 {
            None::<i128>
        } else {
            Some(
                if input < held {
                    input
                } else {
                    held
                },
            )
        }),
{
    let capped = if input < held {
        input
    } else {
        held
    };
    if capped < 1 {
        None
    } else {
        Some(capped)
    }
}

/// Accepts the curve's `output` unless it marks a trade that cannot be
/// filled or is below the trader's `min_output`.
pub fn swap_output(output: i128, min_output: i128) -> (r: Result<i128, SwapError>)
    ensures
        r == (if output < 0 {
            Err::<i128, SwapError>(SwapError::CannotFulfillSwap)
        } else if output < min_output {
            Err::<i128, SwapError>(SwapError::SwapRejected)
        } else {
            Ok::<i128, SwapError>(output)
        }),
{
    if output < 0 {
        return Err(SwapError::CannotFulfillSwap);
    }
    if output < min_output {
        return Err(SwapError::SwapRejected);
    }
    Ok(output)
}

} // verus!
