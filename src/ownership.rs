//! Two-phase transfer of a contract's ownership: the owner proposes, the
//! proposed party accepts.
use vstd::prelude::*;
use crate::bytes::{bytes_eq, opt_bytes};
use crate::errors::ContractError;

verus! {

/// The owner of a contract instance and the owner it proposed, if any.
/// Addresses are canonical byte strings.
#[derive(Clone, Debug)]
pub struct Ownership {
    pub owner: Vec<u8>,
    pub pending_owner: Option<Vec<u8>>,
}

/// What a handshake holds, as byte sequences.
pub struct OwnershipModel {
    pub owner: Seq<u8>,
    pub pending_owner: Option<Seq<u8>>,
}

impl View for Ownership {
    type V = OwnershipModel;

    open spec fn view(&self) -> OwnershipModel {
        OwnershipModel { owner: self.owner@, pending_owner: opt_bytes(self.pending_owner) }
    }
}

/// Outcome of a proposal by `caller` of `new_owner`.
pub open spec fn propose_spec(m: OwnershipModel, caller: Seq<u8>, new_owner: Seq<u8>) -> Result<
    OwnershipModel,
    ContractError,
> {
    if caller != m.owner {
        Err(ContractError::Unauthorized)
    } else {
        Ok(OwnershipModel { owner: m.owner, pending_owner: Some(new_owner) })
    }
}

/// Outcome of an acceptance by `caller`.
pub open spec fn accept_spec(m: OwnershipModel, caller: Seq<u8>) -> Result<
    OwnershipModel,
    ContractError,
> {
    match m.pending_owner {
        None => Err(ContractError::PendingOwnerMissing),
        Some(p) => if caller != p {
            Err(ContractError::Unauthorized)
        } else {
            Ok(OwnershipModel { owner: p, pending_owner: None })
        },
    }
}

/// The model after an operation: the new one on success, the old one on an
/// error (the host rolls the message back).
pub open spec fn after(m: OwnershipModel, r: Result<OwnershipModel, ContractError>) -> OwnershipModel {
    match r {
        Ok(n) => n,
        Err(_) => m,
    }
}

impl Ownership {
    /// A fresh instance owned by `owner`, with nothing proposed.
    pub fn new(owner: Vec<u8>) -> (r: Ownership)
        ensures
            r@.owner == owner@,
            r@.pending_owner.is_none(),
    {
        Ownership { owner, pending_owner: None }
    }

    /// Succeeds exactly when `caller` is the current owner; a pending owner
    /// has no rights before it accepted.
    pub fn assert_owner_privilege(&self, caller: &[u8]) -> (r: Result<(), ContractError>)
        ensures
            r is Ok <==> caller@ == self@.owner,
            r is Err ==> r == Err::<(), ContractError>(ContractError::Unauthorized),
    {
        if bytes_eq(self.owner.as_slice(), caller) {
            Ok(())
        } else {
            Err(ContractError::Unauthorized)
        }
    }

    /// The owner names `new_owner` as its successor; a later proposal
    /// replaces an earlier one.
    pub fn propose_owner(&mut self, caller: &[u8], new_owner: Vec<u8>) -> (r: Result<(), ContractError>)
        ensures
            propose_spec(old(self)@, caller@, new_owner@) is Ok <==> r is Ok,
            r is Err ==> propose_spec(old(self)@, caller@, new_owner@) == Err::<OwnershipModel, ContractError>(r->Err_0),
            final(self)@ == after(old(self)@, propose_spec(old(self)@, caller@, new_owner@)),
    {
        let auth = self.assert_owner_privilege(caller);
        match auth {
            Err(e) => Err(e),
            Ok(()) => {
                self.pending_owner = Some(new_owner);
                Ok(())
            },
        }
    }

    /// The proposed owner takes over and the proposal is spent.
    pub fn accept_ownership(&mut self, caller: &[u8]) -> (r: Result<(), ContractError>)
        ensures
            accept_spec(old(self)@, caller@) is Ok <==> r is Ok,
            r is Err ==> accept_spec(old(self)@, caller@) == Err::<OwnershipModel, ContractError>(r->Err_0),
            final(self)@ == after(old(self)@, accept_spec(old(self)@, caller@)),
    {
        match &self.pending_owner {
            None => Err(ContractError::PendingOwnerMissing),
            Some(p) => {
                if !bytes_eq(p.as_slice(), caller) {
                    Err(ContractError::Unauthorized)
                } else {
                    let p = p.clone();
                    proof {
                        assert(p@ == caller@);
                    }
                    self.owner = p;
                    self.pending_owner = None;
                    Ok(())
                }
            },
        }
    }
}

/// Acceptance without a proposal is refused with `PendingOwnerMissing`;
/// after a proposal only the proposed address may accept, everyone else is
/// refused with `Unauthorized`, and the accepted proposal cannot be replayed.
pub proof fn lemma_handshake(m: OwnershipModel, new_owner: Seq<u8>, caller: Seq<u8>)
    ensures
        m.pending_owner is None ==> accept_spec(m, caller) == Err::<OwnershipModel, ContractError>(
            ContractError::PendingOwnerMissing,
        ),
        ({
            let proposed = after(m, propose_spec(m, m.owner, new_owner));
            &&& caller != new_owner ==> accept_spec(proposed, caller) == Err::<
                OwnershipModel,
                ContractError,
            >(ContractError::Unauthorized)
            &&& accept_spec(proposed, new_owner) == Ok::<OwnershipModel, ContractError>(
                OwnershipModel { owner: new_owner, pending_owner: None },
            )
            &&& accept_spec(after(proposed, accept_spec(proposed, new_owner)), new_owner)
                == Err::<OwnershipModel, ContractError>(ContractError::PendingOwnerMissing)
        }),
{
}

} // verus!
