//! The rules of the bid state machine: when each step is refused, and what it
//! makes of the store where it is not.
//!
//! A step that pays money out debits the ledger and locks the bid before the
//! transfer is asked for. The callback that reports the outcome gives the
//! lock back and either finalizes the step or credits the ledger again.

use crate::guard::{Intent, LockKey};
use crate::models::{
    Action, Bid, BidStatus, ContractError, DisputeStatus, Lease, OwnershipTransfer, Property,
    Sold, Timestamp, TransferRequest,
};
use crate::state::{
    bids_ok, elapsed, lemma_bid_index, is_payout_intent, is_refund_intent, lease_end, list_has_in_flight,
    refund_status, settle_error, settled_to_other, settlement_time, State,
};
use vstd::prelude::*;

verus! {

/// The transfer that returns the amount of a bid to its bidder.
pub open spec fn refund_request(b: Bid) -> TransferRequest {
    TransferRequest {
        token: b.stablecoin_token,
        receiver_id: b.bidder,
        amount: b.amount,
        property_id: b.property_id,
        bid_id: b.id,
    }
}

/// The transfer that pays the amount of a bid to the owner of the property.
pub open spec fn payout_request(p: Property, b: Bid) -> TransferRequest {
    TransferRequest {
        token: b.stablecoin_token,
        receiver_id: p.owner_id,
        amount: b.amount,
        property_id: b.property_id,
        bid_id: b.id,
    }
}

/// The bid at a later moment and in another status.
pub open spec fn moved(b: Bid, status: BidStatus, now: Timestamp) -> Bid {
    Bid { status, updated_at: now, ..b }
}

/// The bid once its money has left the ledger for good.
pub open spec fn closed(b: Bid, status: BidStatus, now: Timestamp) -> Bid {
    Bid { status, updated_at: now, settled_at: Some(now), ..b }
}

/// The status in which a bid waits for the payout of this intent.
pub open spec fn payout_wait_status(intent: Intent) -> BidStatus {
    if intent == Intent::Accept {
        BidStatus::Accepted
    } else {
        BidStatus::DocsConfirmed
    }
}

/// The status in which a confirmed payout of this intent leaves the bid.
pub open spec fn payout_done_status(intent: Intent) -> BidStatus {
    if intent == Intent::Accept {
        BidStatus::Completed
    } else {
        BidStatus::PaymentReleased
    }
}

/// The status to which a failed payout of this intent returns the bid.
pub open spec fn payout_failed_status(intent: Intent) -> BidStatus {
    if intent == Intent::Accept {
        BidStatus::Pending
    } else {
        BidStatus::DocsConfirmed
    }
}

impl State {
    // ----- taking the money of a bid out of the ledger -----

    /// Why the amount of a bid cannot be taken out of the ledger: a saga
    /// holds the bid, or the ledger does not cover the amount.
    pub open spec fn hold_error(self, b: Bid) -> Option<ContractError> {
        if self.locked(b.property_id, b.id) {
            Some(ContractError::ReentrancyLocked)
        } else if self.balance(b.stablecoin_token@) < b.amount {
            Some(ContractError::BalanceUnderflow)
        } else {
            None
        }
    }

    /// The ledger is debited by the amount of the bid and the bid is locked.
    pub open spec fn hold(self, b: Bid, intent: Intent) -> State {
        self.debit(b.stablecoin_token@, b.amount).lock(b.property_id, b.id, intent)
    }

    /// Why the amount of a bid cannot be taken out of the ledger for a
    /// payout to the owner: a saga holds the bid or its property, or the
    /// ledger does not cover the amount.
    pub open spec fn hold_payout_error(self, b: Bid) -> Option<ContractError> {
        if self.locked(b.property_id, b.id) || self.property_locked(b.property_id) {
            Some(ContractError::ReentrancyLocked)
        } else if self.balance(b.stablecoin_token@) < b.amount {
            Some(ContractError::BalanceUnderflow)
        } else {
            None
        }
    }

    /// The ledger is debited by the amount of the bid, and the bid and its
    /// property are locked: while the payout is under way the property can
    /// neither be delisted nor deleted.
    pub open spec fn hold_payout(self, b: Bid, intent: Intent) -> State {
        self.hold(b, intent).lock_property(b.property_id, intent)
    }

    /// The bid and its property are free again.
    pub open spec fn release(self, property_id: u64, bid_id: u64) -> State {
        self.unlock(property_id, bid_id).unlock_property(property_id)
    }

    // ----- reject, cancel, timeout refund, lost bid -----

    /// Why the owner cannot reject the bid.
    pub open spec fn reject_error(self, caller: Seq<char>, property_id: u64, bid_id: u64) -> Option<
        ContractError,
    > {
        if !self.has_property(property_id) {
            Some(ContractError::PropertyNotFound)
        } else if !self.has_bid(property_id, bid_id) {
            Some(ContractError::BidNotFound)
        } else if self.property(property_id).owner_id@ != caller {
            Some(ContractError::NotPropertyOwner)
        } else if self.bid(property_id, bid_id).status != BidStatus::Pending {
            Some(ContractError::InvalidBidStatus)
        } else {
            self.hold_error(self.bid(property_id, bid_id))
        }
    }

    /// Why the bidder cannot cancel the bid.
    pub open spec fn cancel_error(self, caller: Seq<char>, property_id: u64, bid_id: u64) -> Option<
        ContractError,
    > {
        if !self.has_bid(property_id, bid_id) {
            Some(ContractError::BidNotFound)
        } else if self.bid(property_id, bid_id).bidder@ != caller {
            Some(ContractError::NotBidder)
        } else if self.bid(property_id, bid_id).status != BidStatus::Pending {
            Some(ContractError::InvalidBidStatus)
        } else {
            self.hold_error(self.bid(property_id, bid_id))
        }
    }

    /// Why the bid cannot be refunded for having stalled.
    pub open spec fn timeout_error(
        self,
        property_id: u64,
        bid_id: u64,
        timeout: u64,
        now: Timestamp,
    ) -> Option<ContractError> {
        if !self.has_bid(property_id, bid_id) {
            Some(ContractError::BidNotFound)
        } else if self.bid(property_id, bid_id).status != BidStatus::Accepted && self.bid(
            property_id,
            bid_id,
        ).status != BidStatus::DocsReleased {
            Some(ContractError::InvalidBidStatus)
        } else if !elapsed(self.bid(property_id, bid_id).updated_at, now, timeout) {
            Some(ContractError::TimeoutNotReached)
        } else {
            self.hold_error(self.bid(property_id, bid_id))
        }
    }

    /// Why the bidder cannot claim the bid back as lost: the bid must be
    /// pending or rejected with its amount still in the ledger, the property
    /// must have gone to someone else, and the claim delay must have passed.
    pub open spec fn claim_error(
        self,
        caller: Seq<char>,
        property_id: u64,
        bid_id: u64,
        now: Timestamp,
    ) -> Option<ContractError> {
        if !self.has_property(property_id) {
            Some(ContractError::PropertyNotFound)
        } else if !self.has_bid(property_id, bid_id) {
            Some(ContractError::BidNotFound)
        } else if self.bid(property_id, bid_id).bidder@ != caller {
            Some(ContractError::NotBidder)
        } else if self.bid(property_id, bid_id).status != BidStatus::Pending && self.bid(
            property_id,
            bid_id,
        ).status != BidStatus::Rejected {
            Some(ContractError::InvalidBidStatus)
        } else if self.bid(property_id, bid_id).settled_at is Some {
            Some(ContractError::BidAlreadySettled)
        } else if !settled_to_other(self.property(property_id), caller) {
            Some(ContractError::PropertyNotSettled)
        } else if self.config.lost_bid_claim_delay_ns > 0 && !elapsed(
            settlement_time(self.property(property_id)),
            now,
            self.config.lost_bid_claim_delay_ns,
        ) {
            Some(ContractError::TimeoutNotReached)
        } else {
            self.hold_error(self.bid(property_id, bid_id))
        }
    }

    /// Why the outcome of a refund is not taken: no refund of the bid is
    /// under way, or the ledger cannot take the amount back.
    pub open spec fn refund_callback_error(
        self,
        property_id: u64,
        bid_id: u64,
        success: bool,
    ) -> Option<ContractError> {
        if !self.has_bid(property_id, bid_id) {
            Some(ContractError::BidNotFound)
        } else if !self.locked(property_id, bid_id) || !is_refund_intent(
            self.lock_intent(property_id, bid_id),
        ) {
            Some(ContractError::NoPendingTransfer)
        } else if !success && self.balance(self.bid(property_id, bid_id).stablecoin_token@)
            + self.bid(property_id, bid_id).amount > u128::MAX {
            Some(ContractError::BalanceOverflow)
        } else {
            None
        }
    }

    /// A confirmed refund: the bid is rejected or cancelled, as the saga
    /// intended, and free again.
    pub open spec fn refund_done(self, property_id: u64, bid_id: u64, now: Timestamp) -> State {
        self.put_bid(
            property_id,
            bid_id,
            closed(
                self.bid(property_id, bid_id),
                refund_status(self.lock_intent(property_id, bid_id)),
                now,
            ),
        ).unlock(property_id, bid_id)
    }

    /// A failed refund: the ledger has the amount again, the bid is as it was
    /// and free again.
    pub open spec fn refund_reverted(self, property_id: u64, bid_id: u64) -> State {
        self.credit(
            self.bid(property_id, bid_id).stablecoin_token@,
            self.bid(property_id, bid_id).amount,
        ).unlock(property_id, bid_id)
    }
}

// ----- refunding the bids that lost -----

impl State {
    /// The bid is one that a batch refunds: it is pending and free, and it
    /// is not the bid that the batch keeps.
    pub open spec fn refundable(self, b: Bid, keep: Option<u64>) -> bool {
        b.status == BidStatus::Pending && !self.locked(b.property_id, b.id) && keep != Some(b.id)
    }

    /// Why a batch of refunds is refused as a whole: when the batch reaches
    /// a bid that it refunds, the ledger, less the refunds of the bids
    /// before, does not cover the amount. The store then holds less than its
    /// bids stand for, and nothing is written.
    pub open spec fn sweep_error(
        self,
        property_id: u64,
        from: int,
        budget: nat,
        keep: Option<u64>,
    ) -> Option<ContractError>
        decreases budget,
    {
        if budget == 0 || from < 0 || from >= self.bid_list(property_id).len() {
            None
        } else {
            let b = self.bid_list(property_id)[from];
            if self.refundable(b, keep) {
                if self.balance(b.stablecoin_token@) < b.amount {
                    Some(ContractError::BalanceUnderflow)
                } else {
                    self.hold(b, Intent::Reject).sweep_error(
                        property_id,
                        from + 1,
                        (budget - 1) as nat,
                        keep,
                    )
                }
            } else {
                self.sweep_error(property_id, from + 1, (budget - 1) as nat, keep)
            }
        }
    }

    /// A batch of refunds over the bids of a property, from place `from` on
    /// and for at most `budget` bids, where the batch is not refused. Each
    /// bid that it looks at costs one unit of the budget. A bid that is
    /// pending and free, and not the one that the batch keeps, gets its
    /// refund started as a rejection; a bid that is not pending or that a
    /// saga holds is passed over. The result is the state, the refunds in
    /// the order of the bids, and the place of the first bid that was not
    /// looked at.
    pub open spec fn sweep(self, property_id: u64, from: int, budget: nat, keep: Option<u64>) -> (
        State,
        Seq<TransferRequest>,
        int,
    )
        decreases budget,
    {
        if budget == 0 || from < 0 || from >= self.bid_list(property_id).len() {
            (self, Seq::empty(), from)
        } else {
            let b = self.bid_list(property_id)[from];
            if self.refundable(b, keep) {
                let rest = self.hold(b, Intent::Reject).sweep(
                    property_id,
                    from + 1,
                    (budget - 1) as nat,
                    keep,
                );
                (rest.0, seq![refund_request(b)] + rest.1, rest.2)
            } else {
                self.sweep(property_id, from + 1, (budget - 1) as nat, keep)
            }
        }
    }
}

// ----- accepting a bid -----

impl State {
    /// Why the owner cannot accept the bid, the ledger left aside.
    pub open spec fn accept_guard_error(
        self,
        caller: Seq<char>,
        property_id: u64,
        bid_id: u64,
    ) -> Option<ContractError> {
        if !self.has_property(property_id) {
            Some(ContractError::PropertyNotFound)
        } else if !self.has_bid(property_id, bid_id) {
            Some(ContractError::BidNotFound)
        } else if self.property(property_id).owner_id@ != caller {
            Some(ContractError::NotPropertyOwner)
        } else if self.bid(property_id, bid_id).status != BidStatus::Pending {
            Some(ContractError::InvalidBidStatus)
        } else if list_has_in_flight(self.bid_list(property_id)) {
            Some(ContractError::BidAlreadyAccepted)
        } else {
            settle_error(self.property(property_id), self.bid(property_id, bid_id).action)
        }
    }

    /// Why the owner cannot accept the bid for direct settlement.
    pub open spec fn accept_error(self, caller: Seq<char>, property_id: u64, bid_id: u64) -> Option<
        ContractError,
    > {
        match self.accept_guard_error(caller, property_id, bid_id) {
            Some(e) => Some(e),
            None => self.hold_payout_error(self.bid(property_id, bid_id)),
        }
    }

    /// Direct settlement has begun: the bid is accepted, the bid and its
    /// property are locked, and the ledger is debited by the payout.
    pub open spec fn accept_state(self, property_id: u64, bid_id: u64, now: Timestamp) -> State {
        self.hold_payout(self.bid(property_id, bid_id), Intent::Accept).put_bid(
            property_id,
            bid_id,
            moved(self.bid(property_id, bid_id), BidStatus::Accepted, now),
        )
    }

    /// Why the owner cannot accept the bid for escrow with documents.
    pub open spec fn accept_escrow_error(
        self,
        caller: Seq<char>,
        property_id: u64,
        bid_id: u64,
    ) -> Option<ContractError> {
        match self.accept_guard_error(caller, property_id, bid_id) {
            Some(e) => Some(e),
            None => if self.locked(property_id, bid_id) {
                Some(ContractError::ReentrancyLocked)
            } else {
                None
            },
        }
    }

    /// Why the owner cannot accept the bid for escrow with documents, the
    /// refunds of the other bids included.
    pub open spec fn accept_escrow_refusal(
        self,
        caller: Seq<char>,
        property_id: u64,
        bid_id: u64,
        budget: u64,
    ) -> Option<ContractError> {
        match self.accept_escrow_error(caller, property_id, bid_id) {
            Some(e) => Some(e),
            None => self.sweep_error(property_id, 0, budget as nat, Some(bid_id)),
        }
    }

    /// The bid is accepted; the ledger still holds its amount.
    pub open spec fn accept_escrow_marked(self, property_id: u64, bid_id: u64, now: Timestamp) -> State {
        self.put_bid(
            property_id,
            bid_id,
            moved(self.bid(property_id, bid_id), BidStatus::Accepted, now),
        )
    }

    /// The other bids of the property have their refund started, as far as
    /// the budget reaches, and the bid is accepted.
    pub open spec fn accept_escrow_state(
        self,
        property_id: u64,
        bid_id: u64,
        now: Timestamp,
        budget: u64,
    ) -> State {
        self.sweep(property_id, 0, budget as nat, Some(bid_id)).0.accept_escrow_marked(
            property_id,
            bid_id,
            now,
        )
    }
}

// ----- documents and escrow release -----

impl State {
    /// Why the owner cannot confirm that the documents are released.
    pub open spec fn document_release_error(
        self,
        caller: Seq<char>,
        property_id: u64,
        bid_id: u64,
    ) -> Option<ContractError> {
        if !self.has_property(property_id) {
            Some(ContractError::PropertyNotFound)
        } else if !self.has_bid(property_id, bid_id) {
            Some(ContractError::BidNotFound)
        } else if self.property(property_id).owner_id@ != caller {
            Some(ContractError::NotPropertyOwner)
        } else if self.bid(property_id, bid_id).status != BidStatus::Accepted {
            Some(ContractError::InvalidBidStatus)
        } else if self.locked(property_id, bid_id) {
            Some(ContractError::ReentrancyLocked)
        } else {
            None
        }
    }

    /// The documents of the bid are released and their place is kept.
    pub open spec fn document_release_state(
        self,
        property_id: u64,
        bid_id: u64,
        document_ref: String,
        now: Timestamp,
    ) -> State {
        self.put_bid(
            property_id,
            bid_id,
            Bid {
                document_ref: Some(document_ref),
                ..moved(self.bid(property_id, bid_id), BidStatus::DocsReleased, now)
            },
        )
    }

    /// Why the bidder cannot confirm that the documents have arrived.
    pub open spec fn document_receipt_error(
        self,
        caller: Seq<char>,
        property_id: u64,
        bid_id: u64,
    ) -> Option<ContractError> {
        if !self.has_bid(property_id, bid_id) {
            Some(ContractError::BidNotFound)
        } else if self.bid(property_id, bid_id).bidder@ != caller {
            Some(ContractError::NotBidder)
        } else if self.bid(property_id, bid_id).status != BidStatus::DocsReleased {
            Some(ContractError::InvalidBidStatus)
        } else if self.locked(property_id, bid_id) {
            Some(ContractError::ReentrancyLocked)
        } else {
            None
        }
    }

    /// The documents of the bid are confirmed.
    pub open spec fn document_receipt_state(self, property_id: u64, bid_id: u64, now: Timestamp) -> State {
        self.put_bid(
            property_id,
            bid_id,
            moved(self.bid(property_id, bid_id), BidStatus::DocsConfirmed, now),
        )
    }

    /// Why the bidder cannot release the escrow.
    pub open spec fn release_escrow_error(
        self,
        caller: Seq<char>,
        property_id: u64,
        bid_id: u64,
    ) -> Option<ContractError> {
        if !self.has_property(property_id) {
            Some(ContractError::PropertyNotFound)
        } else if !self.has_bid(property_id, bid_id) {
            Some(ContractError::BidNotFound)
        } else if self.bid(property_id, bid_id).bidder@ != caller {
            Some(ContractError::NotBidder)
        } else if self.bid(property_id, bid_id).status != BidStatus::DocsConfirmed {
            Some(ContractError::InvalidBidStatus)
        } else if self.property(property_id).sold is Some {
            Some(ContractError::PropertySold)
        } else if self.property(property_id).active_lease is Some {
            Some(ContractError::PropertyHasActiveLease)
        } else {
            self.hold_payout_error(self.bid(property_id, bid_id))
        }
    }

    /// Why the change of owner cannot be confirmed for the bid.
    pub open spec fn ownership_confirmed_error(self, property_id: u64, bid_id: u64) -> Option<
        ContractError,
    > {
        if !self.has_bid(property_id, bid_id) {
            Some(ContractError::BidNotFound)
        } else if self.bid(property_id, bid_id).status != BidStatus::PaymentReleased {
            Some(ContractError::InvalidBidStatus)
        } else if self.locked(property_id, bid_id) {
            Some(ContractError::ReentrancyLocked)
        } else {
            None
        }
    }

    /// The bid is completed.
    pub open spec fn ownership_confirmed_state(self, property_id: u64, bid_id: u64, now: Timestamp) -> State {
        self.put_bid(
            property_id,
            bid_id,
            moved(self.bid(property_id, bid_id), BidStatus::Completed, now),
        )
    }

    /// Why the bidder cannot raise a dispute on the bid.
    pub open spec fn bid_dispute_error(self, caller: Seq<char>, property_id: u64, bid_id: u64) -> Option<
        ContractError,
    > {
        if !self.has_bid(property_id, bid_id) {
            Some(ContractError::BidNotFound)
        } else if self.bid(property_id, bid_id).bidder@ != caller {
            Some(ContractError::NotBidder)
        } else if self.bid(property_id, bid_id).status != BidStatus::Accepted && self.bid(
            property_id,
            bid_id,
        ).status != BidStatus::DocsReleased && self.bid(property_id, bid_id).status
            != BidStatus::DocsConfirmed {
            Some(ContractError::InvalidBidStatus)
        } else if self.locked(property_id, bid_id) {
            Some(ContractError::ReentrancyLocked)
        } else {
            None
        }
    }

    /// The bid is disputed and keeps the reason.
    pub open spec fn bid_dispute_state(
        self,
        property_id: u64,
        bid_id: u64,
        reason: String,
        now: Timestamp,
    ) -> State {
        self.put_bid(
            property_id,
            bid_id,
            Bid {
                dispute_reason: Some(reason),
                ..moved(self.bid(property_id, bid_id), BidStatus::Disputed, now)
            },
        )
    }
}

// ----- the outcome of a payout -----

impl State {
    /// The months that a lease of the property lasts, none where the
    /// property names no duration.
    pub open spec fn lease_months(self, property_id: u64) -> u64 {
        match self.property(property_id).lease_duration_months {
            Some(m) => m,
            None => 0,
        }
    }

    /// The lease that the settlement of a lease bid creates.
    pub open spec fn new_lease(self, property_id: u64, bid_id: u64, now: Timestamp) -> Lease {
        let b = self.bid(property_id, bid_id);
        Lease {
            id: self.leases.len() as u64,
            property_id,
            tenant_id: b.bidder,
            start_time: now,
            end_time: lease_end(now, self.lease_months(property_id))->0,
            active: true,
            dispute_status: DisputeStatus::NoDispute,
            dispute: None,
            resolution: None,
            escrow_held: b.amount,
            escrow_token: b.stablecoin_token,
        }
    }

    /// The property once the bid is settled: sold to the bidder, or leased to
    /// the bidder.
    pub open spec fn settled_property(self, property_id: u64, bid_id: u64, now: Timestamp) -> Property {
        let p = self.property(property_id);
        let b = self.bid(property_id, bid_id);
        if b.action == Action::Purchase {
            Property {
                sold: Some(
                    Sold {
                        property_id,
                        buyer_id: b.bidder,
                        amount: b.amount,
                        previous_owner_id: p.owner_id,
                        sold_at: now,
                    },
                ),
                is_for_sale: false,
                ..p
            }
        } else {
            Property { active_lease: Some(self.new_lease(property_id, bid_id, now)), ..p }
        }
    }

    /// The registry transfer that a settlement asks for: from the owner to
    /// the bidder.
    pub open spec fn settlement_transfer(self, property_id: u64, bid_id: u64) -> OwnershipTransfer {
        OwnershipTransfer {
            property_id,
            from: self.property(property_id).owner_id,
            to: self.bid(property_id, bid_id).bidder,
        }
    }

    /// Why the outcome of a payout is not taken: no payout of the bid is
    /// under way, the ledger cannot take the amount back, the property has
    /// gone to someone else in the meantime, the lease ids are used up, or
    /// the end of the lease is beyond what a timestamp holds.
    pub open spec fn settlement_error(
        self,
        property_id: u64,
        bid_id: u64,
        success: bool,
        now: Timestamp,
    ) -> Option<ContractError> {
        if !self.has_property(property_id) {
            Some(ContractError::PropertyNotFound)
        } else if !self.has_bid(property_id, bid_id) {
            Some(ContractError::BidNotFound)
        } else if !self.locked(property_id, bid_id) || !is_payout_intent(
            self.lock_intent(property_id, bid_id),
        ) {
            Some(ContractError::NoPendingTransfer)
        } else if self.bid(property_id, bid_id).status != payout_wait_status(
            self.lock_intent(property_id, bid_id),
        ) {
            Some(ContractError::InvalidBidStatus)
        } else if !success && self.balance(self.bid(property_id, bid_id).stablecoin_token@)
            + self.bid(property_id, bid_id).amount > u128::MAX {
            Some(ContractError::BalanceOverflow)
        } else if success && self.property(property_id).sold is Some {
            Some(ContractError::PropertySold)
        } else if success && self.property(property_id).active_lease is Some {
            Some(ContractError::PropertyHasActiveLease)
        } else if success && self.bid(property_id, bid_id).action == Action::Lease
            && self.leases.len() >= u64::MAX {
            Some(ContractError::CounterOverflow)
        } else if success && self.bid(property_id, bid_id).action == Action::Lease && lease_end(
            now,
            self.lease_months(property_id),
        ) is None {
            Some(ContractError::TimestampOverflow)
        } else {
            None
        }
    }

    /// The leases, with the new one where the bid is for a lease.
    pub open spec fn leases_after(self, property_id: u64, bid_id: u64, now: Timestamp) -> Seq<Lease> {
        if self.bid(property_id, bid_id).action == Action::Lease {
            self.leases.push(self.new_lease(property_id, bid_id, now))
        } else {
            self.leases
        }
    }

    /// The lease counter, one further where the bid is for a lease.
    pub open spec fn lease_counter_after(self, property_id: u64, bid_id: u64) -> u64 {
        if self.bid(property_id, bid_id).action == Action::Lease {
            (self.lease_counter + 1) as u64
        } else {
            self.lease_counter
        }
    }

    /// A confirmed payout, before the bids that lost are refunded: the
    /// property is sold or leased, the bid is completed (direct settlement)
    /// or has its payment released (escrow), and is free again.
    pub open spec fn settled(self, property_id: u64, bid_id: u64, now: Timestamp) -> State {
        State {
            leases: self.leases_after(property_id, bid_id, now),
            lease_counter: self.lease_counter_after(property_id, bid_id),
            ..self.put_property(property_id, Some(self.settled_property(property_id, bid_id, now)))
        }.put_bid(
            property_id,
            bid_id,
            closed(
                self.bid(property_id, bid_id),
                payout_done_status(self.lock_intent(property_id, bid_id)),
                now,
            ),
        ).release(property_id, bid_id)
    }

    /// The budget that a confirmed payout spends on refunds: all of it after
    /// a direct settlement, none after an escrow release, whose acceptance
    /// already refunded.
    pub open spec fn settlement_budget(self, property_id: u64, bid_id: u64, budget: u64) -> nat {
        if self.lock_intent(property_id, bid_id) == Intent::Accept {
            budget as nat
        } else {
            0
        }
    }

    /// Why the outcome of a payout is not taken, the refunds of the bids
    /// that lost included.
    pub open spec fn settlement_refusal(
        self,
        property_id: u64,
        bid_id: u64,
        success: bool,
        now: Timestamp,
        budget: u64,
    ) -> Option<ContractError> {
        match self.settlement_error(property_id, bid_id, success, now) {
            Some(e) => Some(e),
            None => if success {
                self.sweep_error(
                    property_id,
                    0,
                    self.settlement_budget(property_id, bid_id, budget),
                    None,
                )
            } else {
                None
            },
        }
    }

    /// A confirmed payout: the bids that lost have their refund started, as
    /// far as the budget reaches, and the bid is settled.
    pub open spec fn settlement_done(
        self,
        property_id: u64,
        bid_id: u64,
        now: Timestamp,
        budget: u64,
    ) -> State {
        self.sweep(
            property_id,
            0,
            self.settlement_budget(property_id, bid_id, budget),
            None,
        ).0.settled(property_id, bid_id, now)
    }

    /// A failed payout: the ledger has the amount again, the bid is back
    /// where it was before the payout began, and free again.
    pub open spec fn settlement_reverted(self, property_id: u64, bid_id: u64, now: Timestamp) -> State {
        self.credit(
            self.bid(property_id, bid_id).stablecoin_token@,
            self.bid(property_id, bid_id).amount,
        ).put_bid(
            property_id,
            bid_id,
            moved(
                self.bid(property_id, bid_id),
                payout_failed_status(self.lock_intent(property_id, bid_id)),
                now,
            ),
        ).release(property_id, bid_id)
    }
}

/// A batch of refunds changes no bid, property or lease and keeps the state
/// consistent. A bid that it leaves locked was locked before, with the same
/// intent, or was pending and is not the bid that the batch keeps.
pub proof fn lemma_sweep_keeps_bids(
    s: State,
    property_id: u64,
    from: int,
    budget: nat,
    keep: Option<u64>,
)
    requires
        s.wf(),
    ensures
        s.sweep(property_id, from, budget, keep).0.bids == s.bids,
        s.sweep(property_id, from, budget, keep).0.properties == s.properties,
        s.sweep(property_id, from, budget, keep).0.leases == s.leases,
        s.sweep(property_id, from, budget, keep).0.bid_counter == s.bid_counter,
        s.sweep(property_id, from, budget, keep).0.admins == s.admins,
        s.sweep(property_id, from, budget, keep).0.owner_id == s.owner_id,
        s.sweep(property_id, from, budget, keep).0.accepted_stablecoin == s.accepted_stablecoin,
        s.sweep(property_id, from, budget, keep).0.config == s.config,
        s.sweep(property_id, from, budget, keep).0.wf(),
        forall|p: u64, id: u64|
            #![trigger s.sweep(property_id, from, budget, keep).0.locked(p, id)]
            s.sweep(property_id, from, budget, keep).0.locked(p, id) ==> s.locked(p, id) || (p
                == property_id && s.has_bid(p, id) && s.bid(p, id).status == BidStatus::Pending
                && keep != Some(id) && s.sweep(property_id, from, budget, keep).0.lock_intent(p, id)
                == Intent::Reject),
        forall|p: u64, id: u64|
            #![trigger s.sweep(property_id, from, budget, keep).0.locked(p, id)]
            s.locked(p, id) ==> s.sweep(property_id, from, budget, keep).0.locked(p, id) && s.sweep(
                property_id,
                from,
                budget,
                keep,
            ).0.lock_intent(p, id) == s.lock_intent(p, id),
    decreases budget,
{
    if budget == 0 || from < 0 || from >= s.bid_list(property_id).len() {
    } else {
        let b = s.bid_list(property_id)[from];
        assert(property_id < s.bids.len());
        assert(bids_ok(s.bids[property_id as int], property_id, s.bid_counter));
        lemma_bid_index(s.bid_list(property_id), property_id, s.bid_counter, from);
        if s.refundable(b, keep) {
            let held = s.hold(b, Intent::Reject);
            assert(held.balances.dom() =~= Set::<Seq<char>>::full());
            assert(held.wf());
            lemma_sweep_keeps_bids(held, property_id, from + 1, (budget - 1) as nat, keep);
            let end = held.sweep(property_id, from + 1, (budget - 1) as nat, keep).0;
            assert(end == s.sweep(property_id, from, budget, keep).0);
            assert forall|p: u64, id: u64| #![trigger end.locked(p, id)] end.locked(p, id) implies s.locked(p, id)
                || (p == property_id && s.has_bid(p, id) && s.bid(p, id).status
                == BidStatus::Pending && keep != Some(id) && end.lock_intent(p, id)
                == Intent::Reject) by {
                if held.locked(p, id) {
                    if !s.locked(p, id) {
                        assert(LockKey { property_id: p, bid_id: Some(id) } == LockKey {
                            property_id: b.property_id,
                            bid_id: Some(b.id),
                        });
                    }
                } else {
                    assert(held.has_bid(p, id) == s.has_bid(p, id));
                }
            }
            assert forall|p: u64, id: u64| #![trigger end.locked(p, id)] s.locked(p, id) implies end.locked(p, id)
                && end.lock_intent(p, id) == s.lock_intent(p, id) by {
                assert(!s.locked(b.property_id, b.id));
                assert(LockKey { property_id: p, bid_id: Some(id) } != LockKey {
                    property_id: b.property_id,
                    bid_id: Some(b.id),
                });
                assert(held.locked(p, id));
                assert(held.lock_intent(p, id) == s.lock_intent(p, id));
                assert(end.locked(p, id));
                assert(end.lock_intent(p, id) == held.lock_intent(p, id));
            }
        } else {
            lemma_sweep_keeps_bids(s, property_id, from + 1, (budget - 1) as nat, keep);
        }
    }
}

} // verus!
