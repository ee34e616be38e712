//! A multisig wallet: owners confirm transfers, changes of membership and
//! changes of the number of signatures required, each taking effect once
//! enough owners have confirmed it.

use vstd::prelude::*;

verus! {

/// Why a multisig operation is refused.
#[derive(Clone, Copy, Debug, PartialEq, Eq, Structural)]
pub enum MultisigErr {
    InvalidProposalId,
    MultisigNotInitialized,
    OwnerAlreadyConfirmedTx,
    MultisigAlreadyInitialized,
    OwnersLessThanRequiredSignatures,
    RemovalProposalOngoingForAddress,
    OwnerAlreadyConfirmedModification,
    AdditionProposalOngoingForAddress,
    ProposalAlreadyExecuted,
    InvalidIdForRequiredSigsModification,
    AlreadyOpenSignaturesRequirementModificationProposal,
    CallerIsNotOwner,
    ProposalIsNotActive,
    ProposalAlreadyExpired,
}

/// An owner's confirmation of a change of the required signatures.
#[derive(Clone, Copy, Debug, PartialEq, Eq, Structural)]
pub struct ReqSigsConf {
    pub change_req_sigs_id: u32,
    pub active: bool,
}

/// A proposal to change the number of required signatures.
#[derive(Clone, Copy, Debug, PartialEq, Eq, Structural)]
pub struct ChangeReqSigs {
    pub new_requirement: u32,
    pub confirmation_count: u32,
    pub active: bool,
    pub expiration: u32,
}

/// An owner's confirmation of a change of membership.
#[derive(Clone, Copy, Debug, PartialEq, Eq, Structural)]
pub struct MemberConfirmation {
    pub active: bool,
}

/// A proposal to add or remove one address as an owner.
#[derive(Clone, Copy, Debug, PartialEq, Eq, Structural)]
pub struct MemberModification {
    pub modification_id: u32,
    pub active: bool,
    pub addition: bool,
    pub confirmation_count: u32,
}

/// An owner's confirmation of a proposed transfer.
#[derive(Clone, Copy, Debug, PartialEq, Eq, Structural)]
pub struct Confirmation {
    pub confirmed: bool,
}

/// The multisig's rules, on the values its state holds.
pub struct Multisig;

impl Multisig {
    /// Checks that `owners` owners can give `required_signatures` signatures.
    pub fn initialize_multisig(owners: u32, required_signatures: u32) -> (r: Result<(), MultisigErr>)
        ensures
            r == (if owners < required_signatures {
                Err::<(), MultisigErr>(MultisigErr::OwnersLessThanRequiredSignatures)
            } else {
                Ok::<(), MultisigErr>(())
            }),
    {
        if owners < required_signatures {
            Err(MultisigErr::OwnersLessThanRequiredSignatures)
        } else {
            Ok(())
        }
    }

    /// One owner's approval of adding (`addition`) or removing an address,
    /// whose pending proposal is `current`; `caller_confirmed` tells whether
    /// this owner already confirmed it, and `next_id` is the id the next new
    /// proposal gets. Returns the proposal after the approval, the next id,
    /// and whether the change takes effect now, which it does when the
    /// confirmations reach `required_signatures`.
    pub fn approve_modification(
        current: MemberModification,
        caller_confirmed: bool,
        next_id: u32,
        addition: bool,
        required_signatures: u32,
    ) -> (r: Result<(MemberModification, u32, bool), MultisigErr>)
        requires
            current.confirmation_count < u32::MAX,
            next_id < u32::MAX,
        ensures
            current.active && caller_confirmed ==> r == Err::<(MemberModification, u32, bool), MultisigErr>(
                MultisigErr::OwnerAlreadyConfirmedModification,
            ),
            current.active && !caller_confirmed && current.addition != addition ==> r == Err::<
                (MemberModification, u32, bool),
                MultisigErr,
            >(
                if addition {
                    MultisigErr::RemovalProposalOngoingForAddress
                } else {
                    MultisigErr::AdditionProposalOngoingForAddress
                },
            ),
            current.active && !caller_confirmed && current.addition == addition ==> r is Ok
                && r->Ok_0.0 == (MemberModification {
                    confirmation_count: (current.confirmation_count + 1) as u32,
                    active: current.confirmation_count + 1 != required_signatures,
                    ..current
                }) && r->Ok_0.1 == next_id && r->Ok_0.2 == (current.confirmation_count + 1
                == required_signatures),
            !current.active ==> r is Ok && r->Ok_0.0 == (MemberModification {
                modification_id: next_id,
                active: 1 != required_signatures,
                addition,
                confirmation_count: 1,
            }) && r->Ok_0.1 == next_id + 1 && r->Ok_0.2 == (1 == required_signatures),
    {
        let mut modification = current;
        let mut next = next_id;
        if current.active {
            if caller_confirmed {
                return Err(MultisigErr::OwnerAlreadyConfirmedModification);
            }
            if current.addition != addition {
                return Err(
                    if addition {
                        MultisigErr::RemovalProposalOngoingForAddress
                    } else {
                        MultisigErr::AdditionProposalOngoingForAddress
                    },
                );
            }
        } else {
            modification = MemberModification {
                modification_id: next_id,
                active: true,
                addition,
                confirmation_count: 0,
            };
            next = next_id + 1;
        }
        modification.confirmation_count = modification.confirmation_count + 1;
        let apply = modification.confirmation_count == required_signatures;
        if apply {
            modification.active = false;
        }
        Ok((modification, next, apply))
    }

    /// Checks that removing one of `owners` owners leaves enough owners for
    /// `required_signatures`.
    pub fn remove_owner(owners: u32, required_signatures: u32) -> (r: Result<(), MultisigErr>)
        requires
            owners >= 1,
        ensures
            r == (if owners - 1 < required_signatures {
                Err::<(), MultisigErr>(MultisigErr::OwnersLessThanRequiredSignatures)
            } else {
                Ok::<(), MultisigErr>(())
            }),
    {
        if owners - 1 < required_signatures {
            Err(MultisigErr::OwnersLessThanRequiredSignatures)
        } else {
            Ok(())
        }
    }

    /// An owner's confirmation of a proposed transfer with `count`
    /// confirmations: the owner's new confirmation and the new count.
    pub fn confirm_transaction(executed: bool, confirmation: Confirmation, count: u32) -> (r: Result<
        (Confirmation, u32),
        MultisigErr,
    >)
        requires
            count < u32::MAX,
        ensures
            r == (if executed {
                Err::<(Confirmation, u32), MultisigErr>(MultisigErr::ProposalAlreadyExecuted)
            } else if confirmation.confirmed {
                Err::<(Confirmation, u32), MultisigErr>(MultisigErr::OwnerAlreadyConfirmedTx)
            } else {
                Ok::<(Confirmation, u32), MultisigErr>(
                    (Confirmation { confirmed: true }, (count + 1) as u32),
                )
            }),
    {
        if executed {
            return Err(MultisigErr::ProposalAlreadyExecuted);
        }
        if confirmation.confirmed {
            return Err(MultisigErr::OwnerAlreadyConfirmedTx);
        }
        Ok((Confirmation { confirmed: true }, count + 1))
    }

    /// A new proposal, at ledger sequence `now`, to require
    /// `required_signatures` signatures, open for `period`. `current` is the
    /// latest earlier proposal, if any: while it is open no new one is
    /// accepted, and once expired it is closed. Returns the earlier proposal
    /// to store back where it was closed, and the new one.
    pub fn propose_require_signatures(
        current: Option<ChangeReqSigs>,
        now: u32,
        period: u32,
        required_signatures: u32,
    ) -> (r: Result<(Option<ChangeReqSigs>, ChangeReqSigs), MultisigErr>)
        requires
            now + period <= u32::MAX,
        ensures
            match current {
                Some(c) => if c.active && c.expiration > now {
                    r == Err::<(Option<ChangeReqSigs>, ChangeReqSigs), MultisigErr>(
                        MultisigErr::AlreadyOpenSignaturesRequirementModificationProposal,
                    )
                } else {
                    r is Ok && r->Ok_0.0 == (if c.active {
                        Some(ChangeReqSigs { active: false, ..c })
                    } else {
                        None
                    })
                },
                None => r is Ok && r->Ok_0.0 is None,
            },
            r is Ok ==> r->Ok_0.1 == (ChangeReqSigs {
                new_requirement: required_signatures,
                confirmation_count: 0,
                active: true,
                expiration: (now + period) as u32,
            }),
    {
        let proposal = ChangeReqSigs {
            new_requirement: required_signatures,
            confirmation_count: 0,
            active: true,
            expiration: now + period,
        };
        match current {
            Some(c) => {
                if c.active {
                    if c.expiration <= now {
                        Ok((Some(ChangeReqSigs { active: false, ..c }), proposal))
                    } else {
                        Err(MultisigErr::AlreadyOpenSignaturesRequirementModificationProposal)
                    }
                } else {
                    Ok((None, proposal))
                }
            },
            None => Ok((None, proposal)),
        }
    }

    /// An owner's confirmation, at ledger sequence `now`, of the proposal
    /// `proposal_id` to change the required signatures; `confirmation` is
    /// the owner's latest such confirmation. Returns the proposal and the
    /// confirmation to store, and the new requirement where the confirmations
    /// reach `required_signatures`.
    pub fn confirm_req_sigs_mod(
        proposal: ChangeReqSigs,
        proposal_id: u32,
        confirmation: ReqSigsConf,
        now: u32,
        required_signatures: u32,
    ) -> (r: Result<(ChangeReqSigs, ReqSigsConf, Option<u32>), MultisigErr>)
        requires
            proposal.confirmation_count < u32::MAX,
        ensures
            r == (if !proposal.active {
                Err::<(ChangeReqSigs, ReqSigsConf, Option<u32>), MultisigErr>(
                    MultisigErr::ProposalIsNotActive,
                )
            } else if now >= proposal.expiration {
                Err::<(ChangeReqSigs, ReqSigsConf, Option<u32>), MultisigErr>(
                    MultisigErr::ProposalAlreadyExpired,
                )
            } else if confirmation.change_req_sigs_id == proposal_id && confirmation.active {
                Err::<(ChangeReqSigs, ReqSigsConf, Option<u32>), MultisigErr>(
                    MultisigErr::OwnerAlreadyConfirmedModification,
                )
            } else {
                let count = (proposal.confirmation_count + 1) as u32;
                let reached = count == required_signatures;
                Ok::<(ChangeReqSigs, ReqSigsConf, Option<u32>), MultisigErr>(
                    (
                        ChangeReqSigs { confirmation_count: count, active: !reached, ..proposal },
                        ReqSigsConf { change_req_sigs_id: proposal_id, active: true },
                        if reached {
                            Some(proposal.new_requirement)
                        } else {
                            None
                        },
                    ),
                )
            }),
    {
        if !proposal.active {
            return Err(MultisigErr::ProposalIsNotActive);
        }
        if now >= proposal.expiration {
            return Err(MultisigErr::ProposalAlreadyExpired);
        }
        if confirmation.change_req_sigs_id == proposal_id && confirmation.active {
            return Err(MultisigErr::OwnerAlreadyConfirmedModification);
        }
        let count = proposal.confirmation_count + 1;
        let reached = count == required_signatures;
        let updated = ChangeReqSigs { confirmation_count: count, active: !reached, ..proposal };
        let new_requirement = if reached {
            Some(proposal.new_requirement)
        } else {
            None
        };
        Ok((updated, ReqSigsConf { change_req_sigs_id: proposal_id, active: true }, new_requirement))
    }
}

} // verus!
