//! The rules of the operations on properties and of the administrative
//! operations.

use crate::accounts::{with_account, without_account, without_account_swapped};
use crate::models::{
    AccountId, ContractError, OwnershipTransfer, Property, TimeLockConfig, WithdrawRequest,
};
use crate::state::{order_without, State};
use vstd::prelude::*;

verus! {

impl State {
    // ----- delisting and deleting a property -----

    /// Why the owner can neither delist nor delete the property: it is not
    /// the owner's, a payout for one of its bids is under way, it is under
    /// lease, or it is sold.
    pub open spec fn owner_change_error(self, caller: Seq<char>, property_id: u64) -> Option<
        ContractError,
    > {
        if !self.has_property(property_id) {
            Some(ContractError::PropertyNotFound)
        } else if self.property(property_id).owner_id@ != caller {
            Some(ContractError::NotPropertyOwner)
        } else if self.property_locked(property_id) {
            Some(ContractError::ReentrancyLocked)
        } else if self.property(property_id).active_lease is Some {
            Some(ContractError::PropertyHasActiveLease)
        } else if self.property(property_id).sold is Some {
            Some(ContractError::PropertySold)
        } else {
            None
        }
    }

    /// The property is no longer for sale.
    pub open spec fn delist_state(self, property_id: u64) -> State {
        self.put_property(
            property_id,
            Some(Property { is_for_sale: false, ..self.property(property_id) }),
        )
    }

    /// The property is gone; its id is not used again, and the property that
    /// was listed last takes its place in the order.
    pub open spec fn delete_state(self, property_id: u64) -> State {
        State {
            property_order: order_without(self.property_order, property_id),
            ..self.put_property(property_id, None)
        }
    }

    /// The registry transfer that burns the token of a deleted property.
    pub open spec fn burn_transfer(self, property_id: u64, burn_account: AccountId) -> OwnershipTransfer {
        OwnershipTransfer {
            property_id,
            from: self.property(property_id).owner_id,
            to: burn_account,
        }
    }

    /// Why an admin cannot delist the property.
    pub open spec fn admin_delist_error(self, caller: Seq<char>, property_id: u64) -> Option<
        ContractError,
    > {
        if !self.is_admin(caller) {
            Some(ContractError::UnauthorizedAccess)
        } else if !self.has_property(property_id) {
            Some(ContractError::PropertyNotFound)
        } else if self.property_locked(property_id) {
            Some(ContractError::ReentrancyLocked)
        } else if self.property(property_id).is_for_sale {
            Some(ContractError::PropertyForSale)
        } else if self.property(property_id).active_lease is Some {
            Some(ContractError::PropertyHasActiveLease)
        } else if self.bid_list(property_id).len() > 0 {
            Some(ContractError::PropertyHasBids)
        } else if self.property(property_id).sold is None {
            Some(ContractError::PropertyNotSold)
        } else {
            None
        }
    }

    /// Why an admin cannot delete the property.
    pub open spec fn admin_delete_error(self, caller: Seq<char>, property_id: u64) -> Option<
        ContractError,
    > {
        if !self.is_admin(caller) {
            Some(ContractError::UnauthorizedAccess)
        } else if !self.has_property(property_id) {
            Some(ContractError::PropertyNotFound)
        } else if self.property_locked(property_id) {
            Some(ContractError::ReentrancyLocked)
        } else if self.property(property_id).active_lease is Some {
            Some(ContractError::PropertyHasActiveLease)
        } else if self.property(property_id).sold is Some {
            Some(ContractError::PropertySold)
        } else if self.bid_list(property_id).len() > 0 {
            Some(ContractError::PropertyHasBids)
        } else {
            None
        }
    }

    // ----- admins, tokens, configuration -----

    /// The account owns the store.
    pub open spec fn is_owner(self, caller: Seq<char>) -> bool {
        self.owner_id@ == caller
    }

    /// The state with one more admin.
    pub open spec fn with_admin(self, admin: AccountId) -> State {
        State { admins: with_account(self.admins, admin), ..self }
    }

    /// The state without this admin, whose place in the list the last admin
    /// takes.
    pub open spec fn without_admin(self, admin: Seq<char>) -> State {
        State { admins: without_account_swapped(self.admins, admin), ..self }
    }

    /// The state with one more accepted token.
    pub open spec fn with_stablecoin(self, token: AccountId) -> State {
        State { accepted_stablecoin: with_account(self.accepted_stablecoin, token), ..self }
    }

    /// The state without this accepted token.
    pub open spec fn without_stablecoin(self, token: Seq<char>) -> State {
        State { accepted_stablecoin: without_account(self.accepted_stablecoin, token), ..self }
    }

    /// The state with another arbiter, or none.
    pub open spec fn with_arbiter(self, arbiter: Option<AccountId>) -> State {
        State { dispute_arbiter: arbiter, ..self }
    }

    /// The state with other delays.
    pub open spec fn with_config(self, config: TimeLockConfig) -> State {
        State { config, ..self }
    }

    // ----- withdrawals -----

    /// Why the owner cannot withdraw the amount.
    pub open spec fn withdraw_error(self, caller: Seq<char>, token: Seq<char>, amount: u128) -> Option<
        ContractError,
    > {
        if !self.is_owner(caller) {
            Some(ContractError::UnauthorizedAccess)
        } else if self.balance(token) < amount {
            Some(ContractError::BalanceUnderflow)
        } else {
            None
        }
    }

    /// The emergency withdrawal over the accepted tokens from place `from`
    /// on: the whole balance of each token that has one leaves the ledger
    /// for `to`. The result is the state and the withdrawals in the order of
    /// the tokens.
    pub open spec fn drain(self, to: AccountId, from: int) -> (State, Seq<WithdrawRequest>)
        decreases self.accepted_stablecoin.len() - from,
    {
        if from < 0 || from >= self.accepted_stablecoin.len() {
            (self, Seq::empty())
        } else {
            let token = self.accepted_stablecoin[from];
            let all = self.balance(token@) as u128;
            if all > 0 {
                let rest = self.debit(token@, all).drain(to, from + 1);
                (rest.0, seq![WithdrawRequest { token, receiver_id: to, amount: all }] + rest.1)
            } else {
                self.drain(to, from + 1)
            }
        }
    }

    /// Why the outcome of a withdrawal is not taken: the ledger cannot take
    /// the amount back.
    pub open spec fn withdraw_callback_error(self, token: Seq<char>, amount: u128, success: bool) -> Option<
        ContractError,
    > {
        if !success && self.balance(token) + amount > u128::MAX {
            Some(ContractError::BalanceOverflow)
        } else {
            None
        }
    }
}

} // verus!
