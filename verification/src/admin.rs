//! The administrative operations of the store.

use crate::accounts::{
    clone_accounts, find_account, insert_account, remove_account, swap_remove_account,
};

use crate::models::{
    AccountId, ContractError, DisputeReport, DisputeResolution, DisputeStatus, DisputeWinner,
    Lease, OwnershipTransfer, Property, SweepReport, TimeLockConfig, Timestamp, TransferOutcome,
    WithdrawRequest,
};

use crate::state::State;
use crate::ShedaContract;
use vstd::prelude::*;

verus! {

impl ShedaContract {
    /// Whether the account is an admin.
    pub fn is_admin(&self, account_id: &AccountId) -> (r: bool)
        ensures
            r == self@.is_admin(account_id@),
    {
        find_account(&self.admins, account_id).is_some()
    }

    /// Whether the account owns the store.
    pub fn is_owner(&self, account_id: &AccountId) -> (r: bool)
        ensures
            r == self@.is_owner(account_id@),
    {
        self.owner_id == *account_id
    }

    /// An admin makes `new_admin_id` an admin. An account that is an admin
    /// already stays one.
    pub fn add_admin(&mut self, caller: &AccountId, new_admin_id: AccountId) -> (r: Result<
        (),
        ContractError,
    >)
        requires
            old(self).wf(),
        ensures
            final(self).wf(),
            !old(self)@.is_admin(caller@) ==> r == Err::<(), ContractError>(
                ContractError::UnauthorizedAccess,
            ) && final(self)@ == old(self)@,
            old(self)@.is_admin(caller@) ==> r is Ok && final(self)@ == old(self)@.with_admin(
                new_admin_id,
            ),
            r is Ok ==> final(self)@.is_admin(new_admin_id@),
    {
        if !self.is_admin(caller) {
            return Err(ContractError::UnauthorizedAccess);
        }
        proof {
            crate::accounts::lemma_with_account(self.admins@, new_admin_id);
        }
        let _added = insert_account(&mut self.admins, new_admin_id);
        proof {
            assert(self@.bids =~~= old(self)@.bids);
            assert(self@ =~= old(self)@.with_admin(new_admin_id));
        }
        Ok(())
    }

    /// The owner of the store takes an admin off the list; the admin that
    /// was added last takes its place.
    pub fn remove_admin(&mut self, caller: &AccountId, admin_id: &AccountId) -> (r: Result<
        (),
        ContractError,
    >)
        requires
            old(self).wf(),
        ensures
            final(self).wf(),
            !old(self)@.is_owner(caller@) ==> r == Err::<(), ContractError>(
                ContractError::UnauthorizedAccess,
            ) && final(self)@ == old(self)@,
            old(self)@.is_owner(caller@) ==> r is Ok && final(self)@ == old(self)@.without_admin(
                admin_id@,
            ),
            r is Ok ==> !final(self)@.is_admin(admin_id@),
    {
        if !self.is_owner(caller) {
            return Err(ContractError::UnauthorizedAccess);
        }
        proof {
            crate::accounts::lemma_without_account_swapped(self.admins@, admin_id@);
        }
        let _removed = swap_remove_account(&mut self.admins, admin_id);
        proof {
            assert(self@.bids =~~= old(self)@.bids);
            assert(self@ =~= old(self)@.without_admin(admin_id@));
        }
        Ok(())
    }

    /// The admins, for an admin to read.
    pub fn get_admins(&self, caller: &AccountId) -> (r: Result<Vec<AccountId>, ContractError>)
        ensures
            !self@.is_admin(caller@) ==> r == Err::<Vec<AccountId>, ContractError>(
                ContractError::UnauthorizedAccess,
            ),
            self@.is_admin(caller@) ==> r is Ok && r->Ok_0@ == self@.admins,
    {
        if !self.is_admin(caller) {
            return Err(ContractError::UnauthorizedAccess);
        }
        Ok(clone_accounts(&self.admins))
    }

    /// The owner of the store accepts deposits of another token.
    pub fn add_supported_stablecoin(&mut self, caller: &AccountId, token_account: AccountId) -> (r:
        Result<(), ContractError>)
        requires
            old(self).wf(),
        ensures
            final(self).wf(),
            !old(self)@.is_owner(caller@) ==> r == Err::<(), ContractError>(
                ContractError::UnauthorizedAccess,
            ) && final(self)@ == old(self)@,
            old(self)@.is_owner(caller@) ==> r is Ok && final(self)@ == old(self)@.with_stablecoin(
                token_account,
            ),
            r is Ok ==> final(self)@.accepts_token(token_account@),
    {
        if !self.is_owner(caller) {
            return Err(ContractError::UnauthorizedAccess);
        }
        proof {
            crate::accounts::lemma_with_account(self.accepted_stablecoin@, token_account);
        }
        let _added = insert_account(&mut self.accepted_stablecoin, token_account);
        proof {
            assert(self@.bids =~~= old(self)@.bids);
            assert(self@ =~= old(self)@.with_stablecoin(token_account));
        }
        Ok(())
    }

    /// The owner of the store stops accepting deposits of a token.
    pub fn remove_supported_stablecoin(&mut self, caller: &AccountId, token_account: &AccountId) -> (r:
        Result<(), ContractError>)
        requires
            old(self).wf(),
        ensures
            final(self).wf(),
            !old(self)@.is_owner(caller@) ==> r == Err::<(), ContractError>(
                ContractError::UnauthorizedAccess,
            ) && final(self)@ == old(self)@,
            old(self)@.is_owner(caller@) ==> r is Ok && final(self)@ == old(self)@.without_stablecoin(token_account@),
            r is Ok ==> !final(self)@.accepts_token(token_account@),
    {
        if !self.is_owner(caller) {
            return Err(ContractError::UnauthorizedAccess);
        }
        proof {
            crate::accounts::lemma_without_account(self.accepted_stablecoin@, token_account@);
        }
        let _removed = remove_account(&mut self.accepted_stablecoin, token_account);
        proof {
            assert(self@.bids =~~= old(self)@.bids);
            assert(self@ =~= old(self)@.without_stablecoin(token_account@));
        }
        Ok(())
    }

    /// The owner of the store sets the delays.
    pub fn set_time_lock_config(
        &mut self,
        caller: &AccountId,
        bid_expiry_ns: u64,
        escrow_release_delay_ns: u64,
        lost_bid_claim_delay_ns: u64,
    ) -> (r: Result<(), ContractError>)
        requires
            old(self).wf(),
        ensures
            final(self).wf(),
            !old(self)@.is_owner(caller@) ==> r == Err::<(), ContractError>(
                ContractError::UnauthorizedAccess,
            ) && final(self)@ == old(self)@,
            old(self)@.is_owner(caller@) ==> r is Ok && final(self)@ == old(self)@.with_config(
                TimeLockConfig { bid_expiry_ns, escrow_release_delay_ns, lost_bid_claim_delay_ns },
            ),
    {
        if !self.is_owner(caller) {
            return Err(ContractError::UnauthorizedAccess);
        }
        self.config = TimeLockConfig { bid_expiry_ns, escrow_release_delay_ns, lost_bid_claim_delay_ns };
        proof {
            assert(self@.bids =~~= old(self)@.bids);
            assert(self@ =~= old(self)@.with_config(self.config));
        }
        Ok(())
    }

    /// The owner of the store names the account whose arbitration results
    /// are taken, or switches arbitration off.
    pub fn set_dispute_arbiter(&mut self, caller: &AccountId, arbiter: Option<AccountId>) -> (r:
        Result<(), ContractError>)
        requires
            old(self).wf(),
        ensures
            final(self).wf(),
            !old(self)@.is_owner(caller@) ==> r == Err::<(), ContractError>(
                ContractError::UnauthorizedAccess,
            ) && final(self)@ == old(self)@,
            old(self)@.is_owner(caller@) ==> r is Ok && final(self)@ == old(self)@.with_arbiter(
                arbiter,
            ),
    {
        if !self.is_owner(caller) {
            return Err(ContractError::UnauthorizedAccess);
        }
        self.dispute_arbiter = arbiter;
        proof {
            assert(self@.bids =~~= old(self)@.bids);
            assert(self@ =~= old(self)@.with_arbiter(arbiter));
        }
        Ok(())
    }

    /// The account whose arbitration results are taken, if there is one.
    pub fn get_dispute_arbiter(&self) -> (r: Option<AccountId>)
        ensures
            r == self@.dispute_arbiter,
    {
        match &self.dispute_arbiter {
            Some(a) => Some(a.clone()),
            None => None,
        }
    }

    /// The timeout after which an accepted bid that has stalled is refunded
    /// to anyone who asks; none where the escrow release delay is switched
    /// off.
    pub fn escrow_timeout(&self) -> (r: Option<u64>)
        ensures
            r == (if self@.config.escrow_release_delay_ns == 0 {
                None
            } else {
                Some(self@.config.escrow_release_delay_ns)
            }),
    {
        if self.config.escrow_release_delay_ns == 0 {
            None
        } else {
            Some(self.config.escrow_release_delay_ns)
        }
    }

    /// The delays: bid expiry, escrow release delay, lost-bid claim delay.
    pub fn get_time_lock_config(&self) -> (r: (u64, u64, u64))
        ensures
            r == (
                self@.config.bid_expiry_ns,
                self@.config.escrow_release_delay_ns,
                self@.config.lost_bid_claim_delay_ns,
            ),
    {
        (
            self.config.bid_expiry_ns,
            self.config.escrow_release_delay_ns,
            self.config.lost_bid_claim_delay_ns,
        )
    }

    /// The owner of the store withdraws `amount` of a token. The ledger is
    /// debited at once; the outcome of the transfer goes to `withdraw_callback`.
    pub fn withdraw_stablecoin(&mut self, caller: &AccountId, token_account: &AccountId, amount: u128) -> (r:
        Result<WithdrawRequest, ContractError>)
        requires
            old(self).wf(),
        ensures
            final(self).wf(),
            match old(self)@.withdraw_error(caller@, token_account@, amount) {
                Some(e) => r == Err::<WithdrawRequest, ContractError>(e) && final(self)@ == old(self)@,
                None => r == Ok::<WithdrawRequest, ContractError>(
                    WithdrawRequest { token: *token_account, receiver_id: *caller, amount },
                ) && final(self)@ == old(self)@.debit(token_account@, amount),
            },
    {
        if !self.is_owner(caller) {
            return Err(ContractError::UnauthorizedAccess);
        }
        match self.debit_balance(token_account, amount) {
            Err(e) => Err(e),
            Ok(()) => Ok(
                WithdrawRequest {
                    token: token_account.clone(),
                    receiver_id: caller.clone(),
                    amount,
                },
            ),
        }
    }

    /// The owner of the store withdraws the whole balance of every accepted
    /// token to `to_account`. The ledger is debited at once; the outcome of
    /// each transfer goes to `withdraw_callback`.
    pub fn emergency_withdraw(&mut self, caller: &AccountId, to_account: &AccountId) -> (r: Result<
        Vec<WithdrawRequest>,
        ContractError,
    >)
        requires
            old(self).wf(),
        ensures
            final(self).wf(),
            !old(self)@.is_owner(caller@) ==> r == Err::<Vec<WithdrawRequest>, ContractError>(
                ContractError::UnauthorizedAccess,
            ) && final(self)@ == old(self)@,
            old(self)@.is_owner(caller@) ==> r is Ok && final(self)@ == old(self)@.drain(
                *to_account,
                0,
            ).0 && r->Ok_0@ == old(self)@.drain(*to_account, 0).1,
    {
        if !self.is_owner(caller) {
            return Err(ContractError::UnauthorizedAccess);
        }
        let mut requests: Vec<WithdrawRequest> = Vec::new();
        let len: usize = self.accepted_stablecoin.len();
        let mut i: usize = 0;
        while i < len
            invariant
                self.wf(),
                len == self@.accepted_stablecoin.len(),
                i <= len,
                old(self)@.drain(*to_account, 0) == ({
                    let rest = self@.drain(*to_account, i as int);
                    (rest.0, requests@ + rest.1)
                }),
            decreases len - i,
        {
            let token: AccountId = self.accepted_stablecoin[i].clone();
            let all: u128 = self.stable_coin_balances.balance(&token);
            let ghost done = requests@;
            if all > 0 {
                let _debited = self.debit_balance(&token, all);
                requests.push(
                    WithdrawRequest { token, receiver_id: to_account.clone(), amount: all },
                );
                proof {
                    let rest = self@.drain(*to_account, i + 1);
                    assert(requests@ + rest.1 =~= done + (seq![
                        WithdrawRequest { token, receiver_id: *to_account, amount: all },
                    ] + rest.1));
                }
            }
            i = i + 1;
        }
        proof {
            let rest = self@.drain(*to_account, i as int);
            assert(requests@ + rest.1 =~= requests@);
        }
        Ok(requests)
    }

    /// The outcome of a withdrawal or of the payout of a dispute. On failure
    /// the ledger is credited with the amount again and the result is
    /// `TransferFailed`; on success nothing changes.
    pub fn withdraw_callback(&mut self, token: &AccountId, amount: u128, outcome: TransferOutcome) -> (r:
        Result<(), ContractError>)
        requires
            old(self).wf(),
        ensures
            final(self).wf(),
            match old(self)@.withdraw_callback_error(
                token@,
                amount,
                outcome == TransferOutcome::Success,
            ) {
                Some(e) => r == Err::<(), ContractError>(e) && final(self)@ == old(self)@,
                None => if outcome == TransferOutcome::Success {
                    r is Ok && final(self)@ == old(self)@
                } else {
                    r == Err::<(), ContractError>(ContractError::TransferFailed) && final(self)@
                        == old(self)@.credit(token@, amount)
                },
            },
    {
        match outcome {
            TransferOutcome::Success => Ok(()),
            TransferOutcome::Failure => match self.credit_balance(token, amount) {
                Err(e) => Err(e),
                Ok(()) => Err(ContractError::TransferFailed),
            },
        }
    }

    /// Why an admin cannot start a batch of refunds.
    pub open spec fn refund_bids_error(
        s: State,
        caller: Seq<char>,
        property_id: u64,
        from: u64,
        budget: u64,
    ) -> Option<ContractError> {
        if !s.is_admin(caller) {
            Some(ContractError::UnauthorizedAccess)
        } else {
            s.sweep_error(property_id, from as int, budget as nat, None)
        }
    }

    /// An admin starts the refund of the pending bids of a property, from
    /// place `from` of its bids on and for at most `budget` bids: the sweep
    /// over the bids that an acceptance left behind. A bid that a saga holds
    /// is passed over. Where the ledger does not cover one of the refunds,
    /// the call is refused with `BalanceUnderflow` and nothing is written.
    pub fn refund_bids(&mut self, caller: &AccountId, property_id: u64, from: u64, budget: u64) -> (r:
        Result<SweepReport, ContractError>)
        requires
            old(self).wf(),
        ensures
            final(self).wf(),
            match Self::refund_bids_error(old(self)@, caller@, property_id, from, budget) {
                Some(e) => r == Err::<SweepReport, ContractError>(e) && final(self)@ == old(self)@,
                None => {
                    let swept = old(self)@.sweep(property_id, from as int, budget as nat, None);
                    &&& r is Ok
                    &&& final(self)@ == swept.0
                    &&& r->Ok_0.refunds@ == swept.1
                    &&& r->Ok_0.next_index == swept.2
                },
            },
    {
        if !self.is_admin(caller) {
            return Err(ContractError::UnauthorizedAccess);
        }
        self.sweep_bids(property_id, from, budget, None)
    }

    /// Resolves the dispute on the lease, whose checks but that of the
    /// payout have been made.
    fn settle_dispute(
        &mut self,
        resolver: &AccountId,
        lease_id: u64,
        winner: DisputeWinner,
        payout_amount: u128,
        now: Timestamp,
        arbitration: bool,
    ) -> (r: Result<DisputeReport, ContractError>)
        requires
            old(self).wf(),
            old(self)@.has_lease(lease_id),
        ensures
            final(self).wf(),
            match old(self)@.dispute_payout_error(lease_id, winner, payout_amount) {
                Some(e) => r == Err::<DisputeReport, ContractError>(e) && final(self)@ == old(self)@,
                None => r == Ok::<DisputeReport, ContractError>(
                    DisputeReport {
                        payout: old(self)@.resolve_dispute_request(lease_id, winner, payout_amount),
                        ownership: old(self)@.resolve_dispute_transfer(lease_id),
                    },
                ) && final(self)@ == old(self)@.resolve_dispute_state(
                    *resolver,
                    lease_id,
                    winner,
                    payout_amount,
                    now,
                    arbitration,
                ),
            },
    {
        let mut lease: Lease = match self.lease_ref(lease_id) {
            None => {
                return Err(ContractError::LeaseNotFound);
            },
            Some(l) => l.clone(),
        };
        let owner: Option<AccountId> = match self.property_ref(lease.property_id) {
            None => None,
            Some(p) => Some(p.owner_id.clone()),
        };
        let receiver_id: AccountId = match winner {
            DisputeWinner::Tenant => lease.tenant_id.clone(),
            DisputeWinner::Owner => match &owner {
                None => {
                    return Err(ContractError::PropertyNotFound);
                },
                Some(o) => o.clone(),
            },
        };
        let payout: u128 = if payout_amount <= lease.escrow_held {
            payout_amount
        } else {
            lease.escrow_held
        };
        match self.debit_balance(&lease.escrow_token, payout) {
            Err(e) => {
                return Err(e);
            },
            Ok(()) => {},
        }
        let request = WithdrawRequest {
            token: lease.escrow_token.clone(),
            receiver_id,
            amount: payout,
        };
        let ownership: Option<OwnershipTransfer> = if lease.active {
            match owner {
                Some(o) => Some(
                    OwnershipTransfer {
                        property_id: lease.property_id,
                        from: lease.tenant_id.clone(),
                        to: o,
                    },
                ),
                None => None,
            }
        } else {
            None
        };
        if arbitration {
            match &mut lease.dispute {
                Some(info) => {
                    info.oracle_result = Some(winner);
                },
                None => {},
            }
        }
        lease.dispute_status = DisputeStatus::Resolved;
        lease.resolution = Some(
            DisputeResolution { winner, payout, resolved_by: resolver.clone(), resolved_at: now },
        );
        lease.escrow_held = lease.escrow_held - payout;
        self.replace_lease(lease);
        self.retire_lease(lease_id);
        Ok(DisputeReport { payout: request, ownership })
    }

    /// An admin resolves the dispute that was raised on a lease. The payout
    /// is what was asked for, at most the escrow that the lease holds; it
    /// leaves the escrow and the ledger and goes to the tenant or to the
    /// owner of the property, as the winner is. The lease keeps the winner,
    /// the payout, the resolver and the time, and is over: it becomes
    /// inactive and its property shows it no more. The outcome of the payout
    /// goes to `withdraw_callback`.
    pub fn resolve_dispute(
        &mut self,
        caller: &AccountId,
        lease_id: u64,
        winner: DisputeWinner,
        payout_amount: u128,
        now: Timestamp,
    ) -> (r: Result<DisputeReport, ContractError>)
        requires
            old(self).wf(),
        ensures
            final(self).wf(),
            match old(self)@.resolve_dispute_error(caller@, lease_id, winner, payout_amount) {
                Some(e) => r == Err::<DisputeReport, ContractError>(e) && final(self)@ == old(self)@,
                None => r == Ok::<DisputeReport, ContractError>(
                    DisputeReport {
                        payout: old(self)@.resolve_dispute_request(lease_id, winner, payout_amount),
                        ownership: old(self)@.resolve_dispute_transfer(lease_id),
                    },
                ) && final(self)@ == old(self)@.resolve_dispute_state(
                    *caller,
                    lease_id,
                    winner,
                    payout_amount,
                    now,
                    false,
                ),
            },
            r is Ok ==> r->Ok_0.payout.amount <= old(self)@.lease(lease_id).escrow_held
                && r->Ok_0.payout.amount <= payout_amount,
    {
        let raised: bool = match self.lease_ref(lease_id) {
            None => {
                return Err(ContractError::LeaseNotFound);
            },
            Some(l) => l.dispute_status == DisputeStatus::Raised,
        };
        if !raised {
            return Err(ContractError::DisputeAlreadyRaised);
        }
        if !self.is_admin(caller) {
            return Err(ContractError::UnauthorizedAccess);
        }
        self.settle_dispute(caller, lease_id, winner, payout_amount, now, false)
    }

    /// The result of an external arbitration resolves the dispute that was
    /// raised on a lease, as an admin would. It is taken only from the
    /// arbiter that the owner of the store has named, whom the lease keeps
    /// as resolver. The lease also keeps the result with what is known of
    /// the dispute.
    pub fn resolve_dispute_by_arbitration(
        &mut self,
        arbiter: &AccountId,
        lease_id: u64,
        winner: DisputeWinner,
        payout_amount: u128,
        now: Timestamp,
    ) -> (r: Result<DisputeReport, ContractError>)
        requires
            old(self).wf(),
        ensures
            final(self).wf(),
            match old(self)@.arbitration_error(arbiter@, lease_id, winner, payout_amount) {
                Some(e) => r == Err::<DisputeReport, ContractError>(e) && final(self)@ == old(self)@,
                None => r == Ok::<DisputeReport, ContractError>(
                    DisputeReport {
                        payout: old(self)@.resolve_dispute_request(lease_id, winner, payout_amount),
                        ownership: old(self)@.resolve_dispute_transfer(lease_id),
                    },
                ) && final(self)@ == old(self)@.resolve_dispute_state(
                    *arbiter,
                    lease_id,
                    winner,
                    payout_amount,
                    now,
                    true,
                ),
            },
            r is Ok ==> r->Ok_0.payout.amount <= old(self)@.lease(lease_id).escrow_held
                && r->Ok_0.payout.amount <= payout_amount,
    {
        let raised: bool = match self.lease_ref(lease_id) {
            None => {
                return Err(ContractError::LeaseNotFound);
            },
            Some(l) => l.dispute_status == DisputeStatus::Raised,
        };
        if !raised {
            return Err(ContractError::DisputeAlreadyRaised);
        }
        let named: bool = match &self.dispute_arbiter {
            Some(a) => *a == *arbiter,
            None => false,
        };
        if !named {
            return Err(ContractError::UnauthorizedAccess);
        }
        self.settle_dispute(arbiter, lease_id, winner, payout_amount, now, true)
    }

    /// An admin takes a property off the market for good: the property must
    /// not be for sale, must have neither an active lease nor bids, and must
    /// be sold.
    pub fn admin_delist_property(&mut self, caller: &AccountId, property_id: u64) -> (r: Result<
        (),
        ContractError,
    >)
        requires
            old(self).wf(),
        ensures
            final(self).wf(),
            match old(self)@.admin_delist_error(caller@, property_id) {
                Some(e) => r == Err::<(), ContractError>(e) && final(self)@ == old(self)@,
                None => r is Ok && final(self)@ == old(self)@.delist_state(property_id),
            },
    {
        if !self.is_admin(caller) {
            return Err(ContractError::UnauthorizedAccess);
        }
        let mut property: Property = match self.property_ref(property_id) {
            None => {
                return Err(ContractError::PropertyNotFound);
            },
            Some(p) => p.clone(),
        };
        if self.is_property_locked(property_id) {
            return Err(ContractError::ReentrancyLocked);
        }
        if property.is_for_sale {
            return Err(ContractError::PropertyForSale);
        }
        if property.active_lease.is_some() {
            return Err(ContractError::PropertyHasActiveLease);
        }
        if self.bid_count(property_id) > 0 {
            return Err(ContractError::PropertyHasBids);
        }
        if property.sold.is_none() {
            return Err(ContractError::PropertyNotSold);
        }
        property.is_for_sale = false;
        self.replace_property(property_id, Some(property));
        Ok(())
    }

    /// An admin deletes a property that has neither an active lease nor
    /// bids and is not sold. The result is the registry transfer that burns
    /// its token.
    pub fn admin_delete_property(
        &mut self,
        caller: &AccountId,
        property_id: u64,
        burn_account: AccountId,
    ) -> (r: Result<OwnershipTransfer, ContractError>)
        requires
            old(self).wf(),
        ensures
            final(self).wf(),
            match old(self)@.admin_delete_error(caller@, property_id) {
                Some(e) => r == Err::<OwnershipTransfer, ContractError>(e) && final(self)@ == old(self)@,
                None => r == Ok::<OwnershipTransfer, ContractError>(
                    old(self)@.burn_transfer(property_id, burn_account),
                ) && final(self)@ == old(self)@.delete_state(property_id),
            },
    {
        if !self.is_admin(caller) {
            return Err(ContractError::UnauthorizedAccess);
        }
        let held: bool = self.is_property_locked(property_id);
        let owner: AccountId = match self.property_ref(property_id) {
            None => {
                return Err(ContractError::PropertyNotFound);
            },
            Some(p) => {
                if held {
                    return Err(ContractError::ReentrancyLocked);
                }
                if p.active_lease.is_some() {
                    return Err(ContractError::PropertyHasActiveLease);
                }
                if p.sold.is_some() {
                    return Err(ContractError::PropertySold);
                }
                p.owner_id.clone()
            },
        };
        if self.bid_count(property_id) > 0 {
            return Err(ContractError::PropertyHasBids);
        }
        self.remove_property(property_id);
        Ok(OwnershipTransfer { property_id, from: owner, to: burn_account })
    }

    /// How many bids the property has received.
    pub fn bid_count(&self, property_id: u64) -> (r: usize)
        requires
            self.wf(),
        ensures
            r == self@.bid_list(property_id).len(),
    {
        if property_id >= self.bids.len() as u64 {
            return 0;
        }
        self.bids[crate::as_index(property_id, self.bids.len())].len()
    }
}

} // verus!
