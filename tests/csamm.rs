use amm::csamm::curve_fn;

#[test]
fn test_simple_test() {
    assert_eq!(curve_fn(1_000_000_000, 3_000_000_000, 1_000).unwrap(), 1_000);
    assert_eq!(curve_fn(3_000_000_000, 1_000_000_000, 2_000_000_000).unwrap(), 1_000_000_000);
}

#[test]
fn constant_sum_equal_amounts() {
    assert_eq!(curve_fn(0, 500, 500), Ok(500));
}
