use amm::curve::SwapCurveError;
use amm::pool::SwapError;
use amm::soroswap::{curve_fn, swap_input, swap_output};

#[test]
fn sentinel_curve_values() {
    assert_eq!(curve_fn(1_000_000_000, 3_000_000_000, 1_500_000), Ok(4_493_261));
    assert_eq!(curve_fn(-10, 10, 20), Ok(-1));
    assert_eq!(curve_fn(i128::MAX - 1_000_000_000, 3_000_000_000, 2_000_000_000), Err(SwapCurveError::IntegerOverflow));
}

#[test]
fn earlier_swap_rules() {
    assert_eq!(swap_input(1_000, 400), Some(400));
    assert_eq!(swap_input(1_000, 0), None);
    assert_eq!(swap_input(0, 400), None);
    assert_eq!(swap_output(-1, 0), Err(SwapError::CannotFulfillSwap));
    assert_eq!(swap_output(5, 10), Err(SwapError::SwapRejected));
    assert_eq!(swap_output(10, 10), Ok(10));
}
