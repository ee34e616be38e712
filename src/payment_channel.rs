//! A payment channel: a sender escrows an allowance that a recipient
//! withdraws over time, until the channel is closed or expires.

use vstd::prelude::*;

verus! {

/// Why a payment-channel operation is refused.
#[derive(Clone, Copy, Debug, PartialEq, Eq, Structural)]
pub enum PCError {
    ExpirationNotSet,
    CouldNotRetrieveState,
    PaymentChannelAlreadyInitialized,
    ChannelStillHasNotExpired,
    NewExpirationCannotBeInThePast,
    ChannelWasCreatedAsNonExpiring,
}

/// A payment channel's operations, on the values its state holds.
pub struct PaymentChannel;

impl PaymentChannel {
    /// What closing pays the recipient: the part of the allowance not yet
    /// withdrawn, if any.
    pub fn close(allowance: i128, withdrawn: i128) -> (r: i128)
        requires
            allowance - withdrawn <= i128::MAX,
        ensures
            r == (if allowance > withdrawn {
                allowance - withdrawn
            } else {
                0
            }),
    {
        if allowance > withdrawn {
            allowance - withdrawn
        } else {
            0
        }
    }

    /// A withdrawal by the recipient: the amount paid and the new withdrawn
    /// total, which reaches the allowance.
    pub fn withdraw(allowance: i128, withdrawn: i128) -> (r: (i128, i128))
        requires
            allowance > withdrawn,
            allowance - withdrawn <= i128::MAX,
        ensures
            r.0 == allowance - withdrawn,
            r.1 == allowance,
    {
        let amount = allowance - withdrawn;
        (amount, withdrawn + amount)
    }

    /// The new expiration that the sender may set at ledger sequence `now`:
    /// only on an expiring channel that has expired, and only in the future.
    pub fn set_expiration(expiration: Option<u32>, now: u32, sequence: u32) -> (r: Result<
        u32,
        PCError,
    >)
        ensures
            r == (match expiration {
                None => Err::<u32, PCError>(PCError::ChannelWasCreatedAsNonExpiring),
                Some(e) => if now < e {
                    Err::<u32, PCError>(PCError::ChannelStillHasNotExpired)
                } else if sequence <= now {
                    Err::<u32, PCError>(PCError::NewExpirationCannotBeInThePast)
                } else {
                    Ok::<u32, PCError>(sequence)
                },
            }),
    {
        match expiration {
            Some(e) => {
                if now < e {
                    return Err(PCError::ChannelStillHasNotExpired);
                }
            },
            None => return Err(PCError::ChannelWasCreatedAsNonExpiring),
        }
        if sequence <= now {
            return Err(PCError::NewExpirationCannotBeInThePast);
        }
        Ok(sequence)
    }

    /// Whether the sender may take back the escrow at ledger sequence `now`:
    /// only on a channel with an expiration, which has passed.
    pub fn claim_timeout(expiration: Option<u32>, now: u32) -> (r: Result<(), PCError>)
        requires
            expiration matches Some(e) ==> now > e,
        ensures
            r == (if expiration is None {
                Err::<(), PCError>(PCError::ExpirationNotSet)
            } else {
                Ok::<(), PCError>(())
            }),
    {
        match expiration {
            Some(_) => Ok(()),
            None => Err(PCError::ExpirationNotSet),
        }
    }

    /// The amount the sender escrows to raise the allowance to `allowance`.
    pub fn modify_allowance(current: i128, allowance: i128) -> (r: i128)
        requires
            allowance > current,
            allowance - current <= i128::MAX,
        ensures
            r == allowance - current,
    {
        allowance - current
    }
}

} // verus!
