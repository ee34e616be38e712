use amm::pool::{SwapContract, SwapError};

#[test]
fn admin_deposit_taken_as_is() {
    let r = SwapContract::deposit_amounts(true, (1_000, 0), (3_000, 0), (5_000, 5_000), (0, 0));
    assert_eq!(r, Ok((1_000, 3_000, 1_732)));
}

#[test]
fn matched_deposit_is_not_rejected() {
    for is_admin in [false, true] {
        let r = SwapContract::deposit_amounts(is_admin, (100, 100), (300, 300), (1_000, 1_000), (1_000, 3_000));
        assert_eq!(r, Ok((100, 300, 173)));
    }
}

#[test]
fn deposit_with_too_much_a_is_cut() {
    let r = SwapContract::deposit_amounts(false, (200, 0), (300, 0), (1_000, 1_000), (1_000, 3_000));
    assert_eq!(r, Ok((100, 300, 173)));
}

#[test]
fn deposit_with_too_much_b_is_cut() {
    let r = SwapContract::deposit_amounts(false, (100, 0), (600, 0), (1_000, 1_000), (1_000, 3_000));
    assert_eq!(r, Ok((100, 300, 173)));
}

#[test]
fn deposit_capped_by_holdings() {
    let r = SwapContract::deposit_amounts(false, (100, 0), (300, 0), (50, 1_000), (1_000, 3_000));
    assert_eq!(r, Ok((50, 150, 86)));
}

#[test]
fn deposit_below_floor_rejected() {
    let r = SwapContract::deposit_amounts(false, (200, 150), (300, 0), (1_000, 1_000), (1_000, 3_000));
    assert_eq!(r, Err(SwapError::DepositRejected));
}

#[test]
fn deposit_errors() {
    assert_eq!(
        SwapContract::deposit_amounts(false, (0, 0), (300, 0), (1_000, 1_000), (1_000, 3_000)),
        Err(SwapError::ZeroDeposit)
    );
    assert_eq!(
        SwapContract::deposit_amounts(false, (100, 0), (300, 0), (1_000, 1_000), (0, 0)),
        Err(SwapError::DepositRejected)
    );
    assert_eq!(
        SwapContract::deposit_amounts(true, (i128::MAX, 0), (2, 0), (i128::MAX, 2), (0, 0)),
        Err(SwapError::IntegerOverflow)
    );
    assert_eq!(
        SwapContract::deposit_amounts(false, (1, 0), (1, 0), (1, 1), (1, 1_000)),
        Err(SwapError::ZeroDeposit)
    );
}

#[test]
fn withdraw_nothing_for_zero_input() {
    assert_eq!(SwapContract::withdraw_amounts(0, 0, (1_000, 0), (3_000, 0)), Ok((0, 0)));
}

#[test]
fn withdraw_proportional_amounts() {
    let r = SwapContract::withdraw_amounts(100, 1_000, (1_000, 0), (3_000, 0));
    assert_eq!(r, Ok((57, 171)));
    let r = SwapContract::withdraw_amounts(100, 1_000, (3_000, 0), (1_000, 0));
    assert_eq!(r, Ok((171, 57)));
    let r = SwapContract::withdraw_amounts(10, 10, (500, 0), (500, 0));
    assert_eq!(r, Ok((10, 10)));
}

#[test]
fn withdraw_within_balances() {
    for (input, a, b) in [(1, 7, 9), (50, 1_000, 20), (999, 1_000, 1_000), (3, 2, 1_000_000)] {
        match SwapContract::withdraw_amounts(input, i128::MAX, (a, 0), (b, 0)) {
            Ok((x, y)) => assert!(x <= a && y <= b),
            Err(e) => assert_eq!(e, SwapError::CannotFulfillWithdraw),
        }
    }
}

#[test]
fn withdraw_errors() {
    assert_eq!(
        SwapContract::withdraw_amounts(100, 99, (1_000, 0), (3_000, 0)),
        Err(SwapError::InsufficientInputBalance)
    );
    assert_eq!(
        SwapContract::withdraw_amounts(100, 1_000, (1_000, 58), (3_000, 0)),
        Err(SwapError::WithdrawRejected)
    );
    assert_eq!(
        SwapContract::withdraw_amounts(100, 100, (10, 0), (10, 0)),
        Err(SwapError::CannotFulfillWithdraw)
    );
    assert_eq!(
        SwapContract::withdraw_amounts(1, 100, (0, 0), (10, 0)),
        Err(SwapError::CannotFulfillWithdraw)
    );
}

#[test]
fn swap_checks() {
    assert_eq!(SwapContract::check_swap_input(0, 100), Ok(false));
    assert_eq!(SwapContract::check_swap_input(101, 100), Err(SwapError::InsufficientInputBalance));
    assert_eq!(SwapContract::check_swap_input(100, 100), Ok(true));
    assert_eq!(SwapContract::check_swap_output(9, 10), Err(SwapError::SwapRejected));
    assert_eq!(SwapContract::check_swap_output(10, 10), Ok(10));
}

#[test]
fn deposit_floors_come_before_zero_product() {
    assert_eq!(
        SwapContract::deposit_amounts(false, (0, 1), (5, 0), (100, 100), (10, 10)),
        Err(SwapError::DepositRejected)
    );
    assert_eq!(
        SwapContract::deposit_amounts(false, (0, 0), (5, 0), (100, 100), (10, 10)),
        Err(SwapError::ZeroDeposit)
    );
}

#[test]
fn deposit_into_pool_without_token_a() {
    assert_eq!(
        SwapContract::deposit_amounts(false, (100, 0), (300, 0), (1_000, 1_000), (0, 3_000)),
        Err(SwapError::ZeroDeposit)
    );
    assert_eq!(
        SwapContract::deposit_amounts(false, (100, 1), (300, 0), (1_000, 1_000), (0, 3_000)),
        Err(SwapError::DepositRejected)
    );
}

#[test]
fn deposit_without_token_b() {
    assert_eq!(
        SwapContract::deposit_amounts(false, (100, 0), (0, 0), (1_000, 1_000), (1_000, 3_000)),
        Err(SwapError::ZeroDeposit)
    );
    assert_eq!(
        SwapContract::deposit_amounts(false, (100, 50), (0, 0), (1_000, 1_000), (1_000, 3_000)),
        Err(SwapError::DepositRejected)
    );
}

#[test]
fn deposit_negative_amount_refused() {
    assert_eq!(
        SwapContract::deposit_amounts(true, (-1, 0), (300, 0), (1_000, 1_000), (1_000, 3_000)),
        Err(SwapError::DepositRejected)
    );
}
