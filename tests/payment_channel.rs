use amm::payment_channel::{PCError, PaymentChannel};

#[test]
fn channel_withdraw_and_close() {
    assert_eq!(PaymentChannel::withdraw(1_000, 0), (1_000, 1_000));
    assert_eq!(PaymentChannel::withdraw(1_700, 1_000), (700, 1_700));
    assert_eq!(PaymentChannel::close(5_000, 300), 4_700);
    assert_eq!(PaymentChannel::close(300, 300), 0);
    assert_eq!(PaymentChannel::modify_allowance(1_000, 1_700), 700);
}

#[test]
fn channel_expiration_rules() {
    assert_eq!(PaymentChannel::set_expiration(None, 10, 20), Err(PCError::ChannelWasCreatedAsNonExpiring));
    assert_eq!(PaymentChannel::set_expiration(Some(110), 100, 120), Err(PCError::ChannelStillHasNotExpired));
    assert_eq!(PaymentChannel::set_expiration(Some(110), 115, 115), Err(PCError::NewExpirationCannotBeInThePast));
    assert_eq!(PaymentChannel::set_expiration(Some(110), 115, 120), Ok(120));
    assert_eq!(PaymentChannel::claim_timeout(None, 10), Err(PCError::ExpirationNotSet));
    assert_eq!(PaymentChannel::claim_timeout(Some(110), 111), Ok(()));
}
