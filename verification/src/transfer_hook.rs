//! The rule that the ownership registry asks about before it moves a token.

use crate::models::ContractError;
use crate::ShedaContract;
use vstd::prelude::*;

verus! {

/// The check that runs around a transfer of a property token.
pub struct TransferHook;

impl TransferHook {
    /// Whether the registry may move the token of the property: the property
    /// must exist and must not be under an active lease.
    pub fn hook(contract: &ShedaContract, property_id: u64) -> (r: Result<(), ContractError>)
        requires
            contract.wf(),
        ensures
            !contract@.has_property(property_id) ==> r == Err::<(), ContractError>(
                ContractError::PropertyNotFound,
            ),
            contract@.has_property(property_id) && contract@.property(property_id).active_lease
                is Some ==> r == Err::<(), ContractError>(ContractError::PropertyHasActiveLease),
            contract@.has_property(property_id) && contract@.property(property_id).active_lease
                is None ==> r is Ok,
    {
        match contract.property_ref(property_id) {
            None => Err(ContractError::PropertyNotFound),
            Some(p) => if p.active_lease.is_some() {
                Err(ContractError::PropertyHasActiveLease)
            } else {
                Ok(())
            },
        }
    }
}

} // verus!
