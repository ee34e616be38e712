//! The constant-sum curve: one token is paid for one token, up to what the
//! pool holds.

use vstd::prelude::*;
use crate::curve::SwapCurveError;

verus! {

/// The output of a constant-sum trade: `input`, capped at `balance_b`; the
/// balance of token A plays no part.
pub fn curve_fn(_balance_a: i128, balance_b: i128, input: i128) -> (r: Result<i128, SwapCurveError>)
    ensures
        r == Ok::<i128, SwapCurveError>(if input < balance_b {
            input
        } else {
            balance_b
        }),
{
    if input < balance_b {
        Ok(input)
    } else {
        Ok(balance_b)
    }
}

} // verus!
