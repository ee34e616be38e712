use amm::multisig::{ChangeReqSigs, Confirmation, MemberModification, Multisig, MultisigErr, ReqSigsConf};

fn idle() -> MemberModification {
    MemberModification { modification_id: 0, active: false, addition: false, confirmation_count: 0 }
}

#[test]
fn multisig_owner_count() {
    assert_eq!(Multisig::initialize_multisig(3, 2), Ok(()));
    assert_eq!(Multisig::initialize_multisig(1, 2), Err(MultisigErr::OwnersLessThanRequiredSignatures));
    assert_eq!(Multisig::remove_owner(3, 2), Ok(()));
    assert_eq!(Multisig::remove_owner(2, 2), Err(MultisigErr::OwnersLessThanRequiredSignatures));
}

#[test]
fn multisig_addition_needs_required_approvals() {
    let (first, next, apply) = Multisig::approve_modification(idle(), false, 4, true, 2).unwrap();
    assert_eq!(first, MemberModification { modification_id: 4, active: true, addition: true, confirmation_count: 1 });
    assert_eq!((next, apply), (5, false));
    assert_eq!(
        Multisig::approve_modification(first, true, next, true, 2),
        Err(MultisigErr::OwnerAlreadyConfirmedModification)
    );
    assert_eq!(
        Multisig::approve_modification(first, false, next, false, 2),
        Err(MultisigErr::AdditionProposalOngoingForAddress)
    );
    let (second, next, apply) = Multisig::approve_modification(first, false, next, true, 2).unwrap();
    assert_eq!(second, MemberModification { modification_id: 4, active: false, addition: true, confirmation_count: 2 });
    assert_eq!((next, apply), (5, true));
}

#[test]
fn multisig_single_signature_applies_at_once() {
    let (m, next, apply) = Multisig::approve_modification(idle(), false, 0, false, 1).unwrap();
    assert_eq!(m, MemberModification { modification_id: 0, active: false, addition: false, confirmation_count: 1 });
    assert_eq!((next, apply), (1, true));
}

#[test]
fn multisig_transaction_confirmations() {
    let fresh = Confirmation { confirmed: false };
    assert_eq!(Multisig::confirm_transaction(false, fresh, 1), Ok((Confirmation { confirmed: true }, 2)));
    assert_eq!(Multisig::confirm_transaction(true, fresh, 1), Err(MultisigErr::ProposalAlreadyExecuted));
    assert_eq!(
        Multisig::confirm_transaction(false, Confirmation { confirmed: true }, 1),
        Err(MultisigErr::OwnerAlreadyConfirmedTx)
    );
}

#[test]
fn multisig_required_signatures_changes() {
    let open = ChangeReqSigs { new_requirement: 3, confirmation_count: 1, active: true, expiration: 100 };
    let fresh = ChangeReqSigs { new_requirement: 4, confirmation_count: 0, active: true, expiration: 150 };
    assert_eq!(
        Multisig::propose_require_signatures(Some(open), 50, 100, 4),
        Err(MultisigErr::AlreadyOpenSignaturesRequirementModificationProposal)
    );
    assert_eq!(
        Multisig::propose_require_signatures(Some(open), 100, 50, 4),
        Ok((Some(ChangeReqSigs { active: false, ..open }), fresh))
    );
    assert_eq!(Multisig::propose_require_signatures(None, 100, 50, 4), Ok((None, fresh)));

    let none = ReqSigsConf { change_req_sigs_id: 0, active: false };
    assert_eq!(
        Multisig::confirm_req_sigs_mod(open, 7, none, 50, 2),
        Ok((
            ChangeReqSigs { confirmation_count: 2, active: false, ..open },
            ReqSigsConf { change_req_sigs_id: 7, active: true },
            Some(3)
        ))
    );
    assert_eq!(
        Multisig::confirm_req_sigs_mod(open, 7, none, 50, 5),
        Ok((ChangeReqSigs { confirmation_count: 2, ..open }, ReqSigsConf { change_req_sigs_id: 7, active: true }, None))
    );
    assert_eq!(
        Multisig::confirm_req_sigs_mod(open, 7, ReqSigsConf { change_req_sigs_id: 7, active: true }, 50, 5),
        Err(MultisigErr::OwnerAlreadyConfirmedModification)
    );
    assert_eq!(Multisig::confirm_req_sigs_mod(open, 7, none, 100, 5), Err(MultisigErr::ProposalAlreadyExpired));
    assert_eq!(
        Multisig::confirm_req_sigs_mod(ChangeReqSigs { active: false, ..open }, 7, none, 50, 5),
        Err(MultisigErr::ProposalIsNotActive)
    );
}
