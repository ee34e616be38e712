//! The constant-product curve: `balance_a * balance_b` is kept across a
//! trade.

use vstd::prelude::*;
use crate::curve::SwapCurveError;
use crate::rational::{safe_mul, safe_mul_fits, trunc_mul_div};

verus! {

/// What the constant-product curve pays out of `balance_b` for `input` of
/// token A: `balance_b - balance_a * balance_b / (balance_a + input)`, the
/// quotient rounded toward zero.
pub open spec fn constant_product_output(balance_a: int, balance_b: int, input: int) -> Result<
    int,
    SwapCurveError,
> {
    let divisor = balance_a + input;
    if divisor < i128::MIN || divisor > i128::MAX {
        Err(SwapCurveError::IntegerOverflow)
    } else if !safe_mul_fits(balance_a, balance_b, divisor) {
        Err(SwapCurveError::IntegerOverflow)
    } else {
        let delta = trunc_mul_div(balance_a, balance_b, divisor);
        if delta < 0 {
            Err(SwapCurveError::CannotFulfillSwap)
        } else if balance_b - delta < i128::MIN {
            Err(SwapCurveError::IntegerOverflow)
        } else {
            Ok(balance_b - delta)
        }
    }
}

/// The output of a constant-product trade of `input` against the balances
/// `balance_a` and `balance_b`.
pub fn curve_fn(balance_a: i128, balance_b: i128, input: i128) -> (r: Result<i128, SwapCurveError>)
    requires
        balance_a + input != 0,
    ensures
        match r {
            Ok(v) => constant_product_output(balance_a as int, balance_b as int, input as int)
                == Ok::<int, SwapCurveError>(v as int),
            Err(e) => constant_product_output(balance_a as int, balance_b as int, input as int)
                == Err::<int, SwapCurveError>(e),
        },
{
    let divisor = match balance_a.checked_add(input) {
        Some(d) => d,
        None => return Err(SwapCurveError::IntegerOverflow),
    };
    let delta = match safe_mul(balance_a, balance_b, divisor) {
        Ok(d) => d,
        Err(_) => return Err(SwapCurveError::IntegerOverflow),
    };
    if delta < 0 {
        return Err(SwapCurveError::CannotFulfillSwap);
    }
    match balance_b.checked_sub(delta) {
        Some(output) => Ok(output),
        None => Err(SwapCurveError::IntegerOverflow),
    }
}

} // verus!
