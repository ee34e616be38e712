use amm::vesting::{VestError, VestingContract};

#[test]
fn vesting_end_time() {
    assert_eq!(VestingContract::end_time(100, 86_400), Ok(86_500));
    assert_eq!(VestingContract::end_time(100, 0), Err(VestError::InvalidDuration));
    assert_eq!(VestingContract::end_time(u64::MAX, 1), Err(VestError::InvalidDuration));
}

#[test]
fn vesting_retrievable_over_time() {
    let start = 1_000;
    let end = start + 86_400;
    assert_eq!(VestingContract::retrievable_balance(1_000_000_000, 0, start, end, start), Ok(0));
    assert_eq!(VestingContract::retrievable_balance(1_000_000_000, 0, start, end, start + 43_200), Ok(500_000_000));
    assert_eq!(VestingContract::retrievable_balance(1_000_000_000, 0, start, end, start + 86_399), Ok(999_988_425));
    assert_eq!(VestingContract::retrievable_balance(1_000_000_000, 500_000_000, start, end, end + 5), Ok(500_000_000));
}

#[test]
fn vesting_add_and_pay_out() {
    assert_eq!(VestingContract::add_vest(1_000_000_000, 500_000_000), Ok(1_500_000_000));
    assert_eq!(VestingContract::add_vest(i128::MAX, 1), Err(VestError::ArithmeticError));
    assert_eq!(VestingContract::pay_out(2_000_000_000, 0, 0, 100, 50), Ok((1_000_000_000, 1_000_000_000)));
    assert_eq!(VestingContract::pay_out(2_000_000_000, 1_000_000_000, 0, 100, 50), Ok((0, 1_000_000_000)));
    assert_eq!(VestingContract::pay_out(i128::MAX, i128::MIN, 0, 100, 100), Err(VestError::ArithmeticError));
}
