//! Whitelisted governance: members vote on proposed calls, and a closed
//! proposal is carried out when enough members voted and enough of them
//! voted for it.

use vstd::prelude::*;

verus! {

/// Why a governance operation is refused.
#[derive(Clone, Copy, Debug, PartialEq, Eq, Structural)]
pub enum GovError {
    InvalidSupermajorityPercentage,
    GovernanceAlreadyInitialized,
    InvalidQuorumValue,
    AddressNotInWhitelist,
    ProposalAlreadyExecuted,
    UserAlreadyVoted,
    InvalidProposalId,
    QuorumNotReached,
    GovernanceNotInitialized,
}

/// A member's vote on a proposal: whether it was cast, and for or against.
#[derive(Clone, Copy, Debug, PartialEq, Eq, Structural)]
pub struct Vote {
    pub active: bool,
    pub value: bool,
}

/// Governance's rules, on the values its state holds.
pub struct Governance;

/// Whether a configuration is accepted: a quorum from 1 to 100 percent and,
/// where a supermajority is asked for, a percentage above 50 and at most 100.
pub open spec fn config_spec(supermajority: bool, percentage: Option<u32>, quorum: u32) -> Result<
    (),
    GovError,
> {
    if quorum == 0 || quorum > 100 {
        Err(GovError::InvalidQuorumValue)
    } else if supermajority && (percentage matches Some(p) ==> !(50 < p <= 100)) {
        Err(GovError::InvalidSupermajorityPercentage)
    } else {
        Ok(())
    }
}

/// Whether a proposal that is closed gets carried out: `Ok(true)` to invoke
/// its call. At least `quorum` percent of the `members` must have voted;
/// then either `percentage` percent of the votes or a simple majority must
/// be for it.
pub open spec fn close_spec(
    executed: bool,
    positive: u32,
    negative: u32,
    members: u32,
    quorum: u32,
    supermajority: bool,
    percentage: u32,
) -> Result<bool, GovError> {
    let total = positive + negative;
    if executed {
        Err(GovError::ProposalAlreadyExecuted)
    } else if total * 100 < members * quorum {
        Err(GovError::QuorumNotReached)
    } else if supermajority {
        Ok(positive * 100 >= total * percentage)
    } else {
        Ok(positive > negative)
    }
}

impl Governance {
    /// Checks the configuration given at initialization.
    pub fn check_config(supermajority: bool, percentage: Option<u32>, quorum: u32) -> (r: Result<
        (),
        GovError,
    >)
        ensures
            r == config_spec(supermajority, percentage, quorum),
    {
        if quorum == 0 || quorum > 100 {
            return Err(GovError::InvalidQuorumValue);
        }
        if supermajority {
            match percentage {
                Some(p) => {
                    if !(p > 50 && p <= 100) {
                        return Err(GovError::InvalidSupermajorityPercentage);
                    }
                },
                None => return Err(GovError::InvalidSupermajorityPercentage),
            }
        }
        Ok(())
    }

    /// The tallies `(positive, negative)` after `vote` replaces a member's
    /// `existing` vote, which must not have been cast.
    pub fn vote_proposal(existing: Vote, positive: u32, negative: u32, vote: bool) -> (r: Result<
        (u32, u32),
        GovError,
    >)
        requires
            positive < u32::MAX,
            negative < u32::MAX,
        ensures
            r == (if existing.active {
                Err::<(u32, u32), GovError>(GovError::UserAlreadyVoted)
            } else if vote {
                Ok::<(u32, u32), GovError>(((positive + 1) as u32, negative))
            } else {
                Ok::<(u32, u32), GovError>((positive, (negative + 1) as u32))
            }),
    {
        if existing.active {
            return Err(GovError::UserAlreadyVoted);
        }
        if vote {
            Ok((positive + 1, negative))
        } else {
            Ok((positive, negative + 1))
        }
    }

    /// Decides the close of a proposal with `positive` and `negative` votes
    /// among `members` whitelisted members (see `close_spec`).
    pub fn close_proposal(
        executed: bool,
        positive: u32,
        negative: u32,
        members: u32,
        quorum: u32,
        supermajority: bool,
        percentage: u32,
    ) -> (r: Result<bool, GovError>)
        ensures
            r == close_spec(executed, positive, negative, members, quorum, supermajority, percentage),
    {
        if executed {
            return Err(GovError::ProposalAlreadyExecuted);
        }
        let total = positive as u64 + negative as u64;
        proof {
            assert(members * quorum <= u32::MAX * u32::MAX) by (nonlinear_arith)
                requires members <= u32::MAX, quorum <= u32::MAX, members >= 0, quorum >= 0;
            assert(total * percentage <= (2 * u32::MAX) * u32::MAX) by (nonlinear_arith)
                requires total <= 2 * u32::MAX, percentage <= u32::MAX, total >= 0,
                    percentage >= 0;
        }
        if (total as u128) * 100 < (members as u128) * (quorum as u128) {
            return Err(GovError::QuorumNotReached);
        }
        if supermajority {
            Ok((positive as u128) * 100 >= (total as u128) * (percentage as u128))
        } else {
            Ok(positive > negative)
        }
    }
}

} // verus!
