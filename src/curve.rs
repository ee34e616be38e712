//! What every swap curve may report instead of an output.

use vstd::prelude::*;

verus! {

/// Why a curve gives no output for a trade.
#[derive(Clone, Copy, Debug, PartialEq, Eq, Structural)]
pub enum SwapCurveError {
    IntegerOverflow,
    CannotFulfillSwap,
}

} // verus!
