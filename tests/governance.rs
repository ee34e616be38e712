use amm::governance::{GovError, Governance, Vote};

#[test]
fn governance_config() {
    assert_eq!(Governance::check_config(false, None, 50), Ok(()));
    assert_eq!(Governance::check_config(false, None, 0), Err(GovError::InvalidQuorumValue));
    assert_eq!(Governance::check_config(false, None, 101), Err(GovError::InvalidQuorumValue));
    assert_eq!(Governance::check_config(true, None, 50), Err(GovError::InvalidSupermajorityPercentage));
    assert_eq!(Governance::check_config(true, Some(50), 50), Err(GovError::InvalidSupermajorityPercentage));
    assert_eq!(Governance::check_config(true, Some(80), 50), Ok(()));
}

#[test]
fn governance_votes() {
    let fresh = Vote { active: false, value: false };
    let cast = Vote { active: true, value: true };
    assert_eq!(Governance::vote_proposal(fresh, 2, 1, true), Ok((3, 1)));
    assert_eq!(Governance::vote_proposal(fresh, 2, 1, false), Ok((2, 2)));
    assert_eq!(Governance::vote_proposal(cast, 2, 1, false), Err(GovError::UserAlreadyVoted));
}

#[test]
fn governance_close() {
    assert_eq!(Governance::close_proposal(true, 5, 0, 5, 50, false, 0), Err(GovError::ProposalAlreadyExecuted));
    assert_eq!(Governance::close_proposal(false, 1, 1, 5, 50, false, 0), Err(GovError::QuorumNotReached));
    assert_eq!(Governance::close_proposal(false, 2, 1, 5, 50, false, 0), Ok(true));
    assert_eq!(Governance::close_proposal(false, 3, 2, 5, 50, true, 80), Ok(false));
    assert_eq!(Governance::close_proposal(false, 4, 1, 5, 50, true, 80), Ok(true));
    assert_eq!(Governance::close_proposal(false, 2, 2, 5, 50, false, 0), Ok(false));
}
