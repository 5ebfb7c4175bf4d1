//! The steps of the bid, lease and property sagas.

use crate::bid_rules::{moved, payout_request, refund_request};
use crate::bid_rules::lemma_sweep_keeps_bids;
use crate::guard::{Intent, LockKey, ReentrancyGuard};
use crate::ledger::Ledger;
use crate::models::{
    AccountId, Action, Bid, BidStatus, ContractError, DisputeInfo, DisputeStatus, Lease,
    LeaseSweepReport, OwnershipTransfer, Property, SettlementReport, Sold, SweepReport, Timestamp,
    TransferOutcome, TransferRequest, NANOS_PER_MONTH,
};
use crate::state::{ended_bids_free, lease_end, settle_error, State};
use crate::text::{chars_of, ends_with, find, find_from, find_nth, has_suffix, nth_occurrence};
use crate::{as_index, ShedaContract};
use vstd::prelude::*;

verus! {

impl ShedaContract {
    /// A copy of the bid at `index` among the bids of the property.
    pub fn bid_copy(&self, property_id: u64, index: usize) -> (r: Bid)
        requires
            property_id < self.bids@.len(),
            index < self.bids@[property_id as int]@.len(),
        ensures
            r == self.bids@[property_id as int]@[index as int],
    {
        let p: usize = as_index(property_id, self.bids.len());
        self.bids[p][index].clone()
    }

    /// Debits the ledger by the amount of the bid and locks the bid for the
    /// saga, unless the bid is held or the ledger does not cover the amount.
    pub(crate) fn hold_bid(&mut self, b: &Bid, intent: Intent) -> (r: Result<(), ContractError>)
        requires
            old(self).wf(),
            old(self)@.has_bid(b.property_id, b.id) ==> !old(self)@.bid(
                b.property_id,
                b.id,
            ).status.is_terminal(),
        ensures
            final(self).wf(),
            match old(self)@.hold_error(*b) {
                Some(e) => r == Err::<(), ContractError>(e) && final(self)@ == old(self)@,
                None => r is Ok && final(self)@ == old(self)@.hold(*b, intent),
            },
    {
        if self.is_bid_locked(b.property_id, b.id) {
            return Err(ContractError::ReentrancyLocked);
        }
        match self.debit_balance(&b.stablecoin_token, b.amount) {
            Err(e) => {
                return Err(e);
            },
            Ok(()) => {},
        }
        self.lock_bid(b.property_id, b.id, intent);
        Ok(())
    }
}

impl ShedaContract {
    /// Debits the ledger by the amount of the bid and locks the bid and its
    /// property for a payout, unless a saga holds one of them or the ledger
    /// does not cover the amount.
    pub(crate) fn hold_payout(&mut self, b: &Bid, intent: Intent) -> (r: Result<(), ContractError>)
        requires
            old(self).wf(),
            old(self)@.has_bid(b.property_id, b.id) ==> !old(self)@.bid(
                b.property_id,
                b.id,
            ).status.is_terminal(),
        ensures
            final(self).wf(),
            match old(self)@.hold_payout_error(*b) {
                Some(e) => r == Err::<(), ContractError>(e) && final(self)@ == old(self)@,
                None => r is Ok && final(self)@ == old(self)@.hold_payout(*b, intent),
            },
    {
        if self.is_bid_locked(b.property_id, b.id) || self.is_property_locked(b.property_id) {
            return Err(ContractError::ReentrancyLocked);
        }
        match self.hold_bid(b, intent) {
            Err(e) => {
                return Err(e);
            },
            Ok(()) => {},
        }
        self.lock_property(b.property_id, intent);
        Ok(())
    }
}

/// The transfer that returns the amount of `b` to its bidder.
pub fn make_refund_request(b: &Bid) -> (r: TransferRequest)
    ensures
        r == refund_request(*b),
{
    TransferRequest {
        token: b.stablecoin_token.clone(),
        receiver_id: b.bidder.clone(),
        amount: b.amount,
        property_id: b.property_id,
        bid_id: b.id,
    }
}

/// The owner of a property turns a pending bid down. The ledger is debited
/// and the bid is locked; the result is the refund that the host has to
/// issue, whose outcome goes to `refund_callback`.
pub fn internal_reject_bid(
    contract: &mut ShedaContract,
    caller: &AccountId,
    property_id: u64,
    bid_id: u64,
) -> (r: Result<TransferRequest, ContractError>)
    requires
        old(contract).wf(),
    ensures
        final(contract).wf(),
        match old(contract)@.reject_error(caller@, property_id, bid_id) {
            Some(e) => r == Err::<TransferRequest, ContractError>(e) && final(contract)@ == old(contract)@,
            None => r == Ok::<TransferRequest, ContractError>(
                refund_request(old(contract)@.bid(property_id, bid_id)),
            ) && final(contract)@ == old(contract)@.hold(
                old(contract)@.bid(property_id, bid_id),
                Intent::Reject,
            ),
        },
{
    let is_owner: bool = match contract.property_ref(property_id) {
        None => {
            return Err(ContractError::PropertyNotFound);
        },
        Some(p) => p.owner_id == *caller,
    };
    let index: usize = match contract.bid_position(property_id, bid_id) {
        None => {
            return Err(ContractError::BidNotFound);
        },
        Some(i) => i,
    };
    if !is_owner {
        return Err(ContractError::NotPropertyOwner);
    }
    let b: Bid = contract.bid_copy(property_id, index);
    if b.status != BidStatus::Pending {
        return Err(ContractError::InvalidBidStatus);
    }
    match contract.hold_bid(&b, Intent::Reject) {
        Err(e) => Err(e),
        Ok(()) => Ok(make_refund_request(&b)),
    }
}

/// The bidder withdraws a pending bid. The ledger is debited and the bid is
/// locked; the result is the refund that the host has to issue, whose outcome
/// goes to `refund_callback`.
pub fn internal_cancel_bid(
    contract: &mut ShedaContract,
    caller: &AccountId,
    property_id: u64,
    bid_id: u64,
) -> (r: Result<TransferRequest, ContractError>)
    requires
        old(contract).wf(),
    ensures
        final(contract).wf(),
        match old(contract)@.cancel_error(caller@, property_id, bid_id) {
            Some(e) => r == Err::<TransferRequest, ContractError>(e) && final(contract)@ == old(contract)@,
            None => r == Ok::<TransferRequest, ContractError>(
                refund_request(old(contract)@.bid(property_id, bid_id)),
            ) && final(contract)@ == old(contract)@.hold(
                old(contract)@.bid(property_id, bid_id),
                Intent::Cancel,
            ),
        },
{
    let index: usize = match contract.bid_position(property_id, bid_id) {
        None => {
            return Err(ContractError::BidNotFound);
        },
        Some(i) => i,
    };
    let b: Bid = contract.bid_copy(property_id, index);
    if b.bidder != *caller {
        return Err(ContractError::NotBidder);
    }
    if b.status != BidStatus::Pending {
        return Err(ContractError::InvalidBidStatus);
    }
    match contract.hold_bid(&b, Intent::Cancel) {
        Err(e) => Err(e),
        Ok(()) => Ok(make_refund_request(&b)),
    }
}

/// Whether at least `delay` has passed between `since` and `now`.
pub fn has_elapsed(since: Timestamp, now: Timestamp, delay: u64) -> (r: bool)
    ensures
        r == crate::state::elapsed(since, now, delay),
{
    now >= since && now - since >= delay
}

/// Anyone may ask for the refund of an accepted bid that has not moved for
/// `timeout`: the bid must be accepted or have its documents released, and
/// must not have been touched since `now - timeout`. The outcome of the
/// refund goes to `refund_callback`, which cancels the bid.
pub fn refund_escrow_timeout(
    contract: &mut ShedaContract,
    property_id: u64,
    bid_id: u64,
    timeout: u64,
    now: Timestamp,
) -> (r: Result<TransferRequest, ContractError>)
    requires
        old(contract).wf(),
    ensures
        final(contract).wf(),
        match old(contract)@.timeout_error(property_id, bid_id, timeout, now) {
            Some(e) => r == Err::<TransferRequest, ContractError>(e) && final(contract)@ == old(contract)@,
            None => r == Ok::<TransferRequest, ContractError>(
                refund_request(old(contract)@.bid(property_id, bid_id)),
            ) && final(contract)@ == old(contract)@.hold(
                old(contract)@.bid(property_id, bid_id),
                Intent::TimeoutRefund,
            ),
        },
{
    let index: usize = match contract.bid_position(property_id, bid_id) {
        None => {
            return Err(ContractError::BidNotFound);
        },
        Some(i) => i,
    };
    let b: Bid = contract.bid_copy(property_id, index);
    if b.status != BidStatus::Accepted && b.status != BidStatus::DocsReleased {
        return Err(ContractError::InvalidBidStatus);
    }
    if !has_elapsed(b.updated_at, now, timeout) {
        return Err(ContractError::TimeoutNotReached);
    }
    match contract.hold_bid(&b, Intent::TimeoutRefund) {
        Err(e) => Err(e),
        Ok(()) => Ok(make_refund_request(&b)),
    }
}

/// The bidder of a bid that lost claims the deposit back: the bid is pending
/// or rejected and its amount has not left the ledger for good, the property
/// has gone to someone else by sale or lease, and the configured delay since
/// then has passed. The outcome of the refund goes
/// to `refund_callback`, which cancels the bid.
pub fn claim_lost_bid(
    contract: &mut ShedaContract,
    caller: &AccountId,
    property_id: u64,
    bid_id: u64,
    now: Timestamp,
) -> (r: Result<TransferRequest, ContractError>)
    requires
        old(contract).wf(),
    ensures
        final(contract).wf(),
        match old(contract)@.claim_error(caller@, property_id, bid_id, now) {
            Some(e) => r == Err::<TransferRequest, ContractError>(e) && final(contract)@ == old(contract)@,
            None => r == Ok::<TransferRequest, ContractError>(
                refund_request(old(contract)@.bid(property_id, bid_id)),
            ) && final(contract)@ == old(contract)@.hold(
                old(contract)@.bid(property_id, bid_id),
                Intent::ClaimLostBid,
            ),
        },
{
    let (gone, since): (bool, Timestamp) = match contract.property_ref(property_id) {
        None => {
            return Err(ContractError::PropertyNotFound);
        },
        Some(p) => match &p.sold {
            Some(s) => (s.buyer_id != *caller, s.sold_at),
            None => match &p.active_lease {
                Some(l) => (l.tenant_id != *caller, l.start_time),
                None => (false, 0),
            },
        },
    };
    let index: usize = match contract.bid_position(property_id, bid_id) {
        None => {
            return Err(ContractError::BidNotFound);
        },
        Some(i) => i,
    };
    let b: Bid = contract.bid_copy(property_id, index);
    if b.bidder != *caller {
        return Err(ContractError::NotBidder);
    }
    if b.status != BidStatus::Pending && b.status != BidStatus::Rejected {
        return Err(ContractError::InvalidBidStatus);
    }
    if b.settled_at.is_some() {
        return Err(ContractError::BidAlreadySettled);
    }
    if !gone {
        return Err(ContractError::PropertyNotSettled);
    }
    if contract.config.lost_bid_claim_delay_ns > 0 && !has_elapsed(
        since,
        now,
        contract.config.lost_bid_claim_delay_ns,
    ) {
        return Err(ContractError::TimeoutNotReached);
    }
    match contract.hold_bid(&b, Intent::ClaimLostBid) {
        Err(e) => Err(e),
        Ok(()) => Ok(make_refund_request(&b)),
    }
}

/// The outcome of a refund. On success the bid becomes rejected (after a
/// rejection) or cancelled (after a withdrawal, a timeout or a lost-bid
/// claim). On failure the ledger is credited again, the bid stays as it was,
/// and the result is `TransferFailed`. Either way the bid is free again.
pub fn refund_callback(
    contract: &mut ShedaContract,
    property_id: u64,
    bid_id: u64,
    outcome: TransferOutcome,
    now: Timestamp,
) -> (r: Result<(), ContractError>)
    requires
        old(contract).wf(),
    ensures
        final(contract).wf(),
        match old(contract)@.refund_callback_error(
            property_id,
            bid_id,
            outcome == TransferOutcome::Success,
        ) {
            Some(e) => r == Err::<(), ContractError>(e) && final(contract)@ == old(contract)@,
            None => if outcome == TransferOutcome::Success {
                r is Ok && final(contract)@ == old(contract)@.refund_done(property_id, bid_id, now)
            } else {
                r == Err::<(), ContractError>(ContractError::TransferFailed) && final(contract)@
                    == old(contract)@.refund_reverted(property_id, bid_id)
            },
        },
{
    let index: usize = match contract.bid_position(property_id, bid_id) {
        None => {
            return Err(ContractError::BidNotFound);
        },
        Some(i) => i,
    };
    let intent: Intent = match contract.locks.holder(&crate::guard::LockKey::bid(property_id, bid_id)) {
        None => {
            return Err(ContractError::NoPendingTransfer);
        },
        Some(i) => i,
    };
    let final_status: BidStatus = match intent {
        Intent::Reject => BidStatus::Rejected,
        Intent::Cancel | Intent::TimeoutRefund | Intent::ClaimLostBid => BidStatus::Cancelled,
        _ => {
            return Err(ContractError::NoPendingTransfer);
        },
    };
    let mut b: Bid = contract.bid_copy(property_id, index);
    match outcome {
        TransferOutcome::Success => {
            b.status = final_status;
            b.updated_at = now;
            b.settled_at = Some(now);
            contract.unlock_bid(property_id, bid_id);
            contract.replace_bid(property_id, index, b);
            proof {
                assert(contract@ =~= old(contract)@.refund_done(property_id, bid_id, now));
            }
            Ok(())
        },
        TransferOutcome::Failure => {
            match contract.credit_balance(&b.stablecoin_token, b.amount) {
                Err(e) => {
                    return Err(e);
                },
                Ok(()) => {},
            }
            contract.unlock_bid(property_id, bid_id);
            Err(ContractError::TransferFailed)
        },
    }
}

impl ShedaContract {
    /// Starts the refund of the bids of a property that are pending and
    /// free, from place `from` of its bids on, and looks at no more than
    /// `budget` bids; the bid `keep` is left alone. The bids stay pending
    /// until the refund callback rejects them. The report names the place at
    /// which a later batch goes on. Where the ledger does not cover a refund
    /// of the batch, the batch is refused with `BalanceUnderflow` and
    /// nothing is written.
    pub(crate) fn sweep_bids(
        &mut self,
        property_id: u64,
        from: u64,
        budget: u64,
        keep: Option<u64>,
    ) -> (r: Result<SweepReport, ContractError>)
        requires
            old(self).wf(),
        ensures
            final(self).wf(),
            match old(self)@.sweep_error(property_id, from as int, budget as nat, keep) {
                Some(e) => r == Err::<SweepReport, ContractError>(e) && final(self)@ == old(self)@,
                None => {
                    let swept = old(self)@.sweep(property_id, from as int, budget as nat, keep);
                    &&& r is Ok
                    &&& final(self)@ == swept.0
                    &&& r->Ok_0.refunds@ == swept.1
                    &&& r->Ok_0.next_index == swept.2
                },
            },
    {
        let mut refunds: Vec<TransferRequest> = Vec::new();
        if property_id >= self.bids.len() as u64 {
            return Ok(SweepReport { refunds, next_index: from });
        }
        let p: usize = as_index(property_id, self.bids.len());
        let len: usize = self.bids[p].len();
        // the batch works on a copy of the ledger and of the locks, which
        // take the place of the old ones once the whole batch is covered
        let mut ledger: Ledger = self.stable_coin_balances.clone();
        let mut locks: ReentrancyGuard = self.locks.clone();
        let ghost mut st: State = self@;
        let mut i: u64 = from;
        let mut left: u64 = budget;
        while left > 0 && i < len as u64
            invariant
                self.wf(),
                *self == *old(self),
                property_id < self.bids@.len(),
                p == property_id,
                len == self@.bid_list(property_id).len(),
                from <= i,
                st.wf(),
                st == (State { balances: ledger@, locks: locks@, ..self@ }),
                ledger.wf(),
                locks.wf(),
                old(self)@.sweep_error(property_id, from as int, budget as nat, keep) == st.sweep_error(
                    property_id,
                    i as int,
                    left as nat,
                    keep,
                ),
                old(self)@.sweep(property_id, from as int, budget as nat, keep) == ({
                    let rest = st.sweep(property_id, i as int, left as nat, keep);
                    (rest.0, refunds@ + rest.1, rest.2)
                }),
            decreases left,
        {
            let index: usize = as_index(i, len);
            let b: &Bid = &self.bids[p][index];
            let ghost done = refunds@;
            let ghost before = st;
            proof {
                assert(*b == st.bid_list(property_id)[i as int]);
                assert(b.property_id == property_id);
            }
            let kept: bool = match keep {
                Some(k) => k == b.id,
                None => false,
            };
            if b.status == BidStatus::Pending && !kept && !locks.is_locked(
                &LockKey::bid(b.property_id, b.id),
            ) {
                match ledger.debit(&b.stablecoin_token, b.amount) {
                    Err(e) => {
                        return Err(e);
                    },
                    Ok(()) => {},
                }
                let _taken = locks.acquire(LockKey::bid(b.property_id, b.id), Intent::Reject);
                refunds.push(make_refund_request(b));
                proof {
                    st = before.hold(*b, Intent::Reject);
                    assert(st.balances.dom() =~= Set::<Seq<char>>::full());
                    assert(st =~= (State { balances: ledger@, locks: locks@, ..self@ }));
                    let rest = st.sweep(property_id, i + 1, (left - 1) as nat, keep);
                    assert(refunds@ + rest.1 =~= done + (seq![refund_request(*b)] + rest.1));
                }
            }
            i = i + 1;
            left = left - 1;
        }
        proof {
            let rest = st.sweep(property_id, i as int, left as nat, keep);
            assert(rest.1 =~= Seq::<TransferRequest>::empty());
            assert(refunds@ + rest.1 =~= refunds@);
        }
        self.stable_coin_balances = ledger;
        self.locks = locks;
        proof {
            assert(self@.bids =~~= old(self)@.bids);
            assert(self@ =~= st);
        }
        Ok(SweepReport { refunds, next_index: i })
    }

    /// Why a bid of this kind cannot be accepted and settled on the property.
    pub fn check_settle(p: &Property, action: Action) -> (r: Result<(), ContractError>)
        ensures
            match settle_error(*p, action) {
                Some(e) => r == Err::<(), ContractError>(e),
                None => r is Ok,
            },
    {
        if p.sold.is_some() {
            return Err(ContractError::PropertySold);
        }
        if p.active_lease.is_some() {
            return Err(ContractError::PropertyHasActiveLease);
        }
        match action {
            Action::Lease => if p.lease_duration_months.is_none() {
                return Err(ContractError::PropertyNotListed);
            },
            Action::Purchase => {},
        }
        Ok(())
    }

    /// The checks that both ways of accepting share. Gives the place of the bid.
    fn accept_guard(&self, caller: &AccountId, property_id: u64, bid_id: u64) -> (r: Result<
        usize,
        ContractError,
    >)
        requires
            self.wf(),
        ensures
            match self@.accept_guard_error(caller@, property_id, bid_id) {
                Some(e) => r == Err::<usize, ContractError>(e),
                None => r is Ok && r->Ok_0 == self@.bid_index(property_id, bid_id) && r->Ok_0
                    < self.bids@[property_id as int]@.len() && property_id < self.bids@.len()
                    && self.bids@[property_id as int]@[r->Ok_0 as int] == self@.bid(
                    property_id,
                    bid_id,
                ) && self@.bid(property_id, bid_id).id == bid_id && self@.bid(
                    property_id,
                    bid_id,
                ).property_id == property_id,
            },
    {
        let property: &Property = match self.property_ref(property_id) {
            None => {
                return Err(ContractError::PropertyNotFound);
            },
            Some(p) => p,
        };
        let index: usize = match self.bid_position(property_id, bid_id) {
            None => {
                return Err(ContractError::BidNotFound);
            },
            Some(i) => i,
        };
        if property.owner_id != *caller {
            return Err(ContractError::NotPropertyOwner);
        }
        let p: usize = as_index(property_id, self.bids.len());
        let b: &Bid = &self.bids[p][index];
        if b.status != BidStatus::Pending {
            return Err(ContractError::InvalidBidStatus);
        }
        if self.has_in_flight_bid(property_id) {
            return Err(ContractError::BidAlreadyAccepted);
        }
        match Self::check_settle(property, b.action) {
            Err(e) => Err(e),
            Ok(()) => Ok(index),
        }
    }
}

/// The transfer that pays the amount of `b` to the owner of `p`.
pub fn make_payout_request(p: &Property, b: &Bid) -> (r: TransferRequest)
    ensures
        r == payout_request(*p, *b),
{
    TransferRequest {
        token: b.stablecoin_token.clone(),
        receiver_id: p.owner_id.clone(),
        amount: b.amount,
        property_id: b.property_id,
        bid_id: b.id,
    }
}

/// The owner accepts a pending bid for direct settlement. No other bid of
/// the property may be accepted and unsettled, and the property must be
/// neither sold nor under lease; it need not be for sale any more. The bid
/// becomes accepted, the bid and its property are locked and the ledger is
/// debited; the result is the payout to the owner that the host
/// has to issue, whose outcome goes to `settlement_callback`.
pub fn internal_accept_bid(
    contract: &mut ShedaContract,
    caller: &AccountId,
    property_id: u64,
    bid_id: u64,
    now: Timestamp,
) -> (r: Result<TransferRequest, ContractError>)
    requires
        old(contract).wf(),
    ensures
        final(contract).wf(),
        match old(contract)@.accept_error(caller@, property_id, bid_id) {
            Some(e) => r == Err::<TransferRequest, ContractError>(e) && final(contract)@ == old(contract)@,
            None => r == Ok::<TransferRequest, ContractError>(
                payout_request(
                    old(contract)@.property(property_id),
                    old(contract)@.bid(property_id, bid_id),
                ),
            ) && final(contract)@ == old(contract)@.accept_state(property_id, bid_id, now),
        },
{
    let index: usize = match contract.accept_guard(caller, property_id, bid_id) {
        Err(e) => {
            return Err(e);
        },
        Ok(i) => i,
    };
    let mut b: Bid = contract.bid_copy(property_id, index);
    let request: TransferRequest = match contract.property_ref(property_id) {
        Some(p) => make_payout_request(p, &b),
        None => {
            return Err(ContractError::PropertyNotFound);
        },
    };
    match contract.hold_payout(&b, Intent::Accept) {
        Err(e) => {
            return Err(e);
        },
        Ok(()) => {},
    }
    b.status = BidStatus::Accepted;
    b.updated_at = now;
    contract.replace_bid(property_id, index, b);
    Ok(request)
}

/// The owner accepts a pending bid for escrow with documents, under the same
/// conditions as for direct settlement. The other pending bids of the
/// property get their refund started, as far as `budget` reaches, and the bid
/// becomes accepted; its amount stays in the ledger. Where the ledger does
/// not cover one of the refunds, the call is refused with `BalanceUnderflow`
/// and nothing is written.
pub fn accept_bid_escrow(
    contract: &mut ShedaContract,
    caller: &AccountId,
    property_id: u64,
    bid_id: u64,
    now: Timestamp,
    budget: u64,
) -> (r: Result<SweepReport, ContractError>)
    requires
        old(contract).wf(),
    ensures
        final(contract).wf(),
        match old(contract)@.accept_escrow_refusal(caller@, property_id, bid_id, budget) {
            Some(e) => r == Err::<SweepReport, ContractError>(e) && final(contract)@ == old(contract)@,
            None => {
                let swept = old(contract)@.sweep(property_id, 0, budget as nat, Some(bid_id));
                &&& r is Ok
                &&& final(contract)@ == old(contract)@.accept_escrow_state(
                    property_id,
                    bid_id,
                    now,
                    budget,
                )
                &&& r->Ok_0.refunds@ == swept.1
                &&& r->Ok_0.next_index == swept.2
            },
        },
{
    let index: usize = match contract.accept_guard(caller, property_id, bid_id) {
        Err(e) => {
            return Err(e);
        },
        Ok(i) => i,
    };
    if contract.is_bid_locked(property_id, bid_id) {
        return Err(ContractError::ReentrancyLocked);
    }
    let mut b: Bid = contract.bid_copy(property_id, index);
    proof {
        lemma_sweep_keeps_bids(contract@, property_id, 0, budget as nat, Some(bid_id));
    }
    let report: SweepReport = match contract.sweep_bids(property_id, 0, budget, Some(bid_id)) {
        Err(e) => {
            return Err(e);
        },
        Ok(r) => r,
    };
    b.status = BidStatus::Accepted;
    b.updated_at = now;
    contract.replace_bid(property_id, index, b);
    Ok(report)
}

/// The owner confirms that the documents of an accepted bid are released and
/// records where they are. The bid must be accepted and free.
pub fn confirm_document_release(
    contract: &mut ShedaContract,
    caller: &AccountId,
    property_id: u64,
    bid_id: u64,
    document_ref: String,
    now: Timestamp,
) -> (r: Result<(), ContractError>)
    requires
        old(contract).wf(),
    ensures
        final(contract).wf(),
        match old(contract)@.document_release_error(caller@, property_id, bid_id) {
            Some(e) => r == Err::<(), ContractError>(e) && final(contract)@ == old(contract)@,
            None => r is Ok && final(contract)@ == old(contract)@.document_release_state(
                property_id,
                bid_id,
                document_ref,
                now,
            ),
        },
{
    let is_owner: bool = match contract.property_ref(property_id) {
        None => {
            return Err(ContractError::PropertyNotFound);
        },
        Some(p) => p.owner_id == *caller,
    };
    let index: usize = match contract.bid_position(property_id, bid_id) {
        None => {
            return Err(ContractError::BidNotFound);
        },
        Some(i) => i,
    };
    if !is_owner {
        return Err(ContractError::NotPropertyOwner);
    }
    let mut b: Bid = contract.bid_copy(property_id, index);
    if b.status != BidStatus::Accepted {
        return Err(ContractError::InvalidBidStatus);
    }
    if contract.is_bid_locked(property_id, bid_id) {
        return Err(ContractError::ReentrancyLocked);
    }
    b.status = BidStatus::DocsReleased;
    b.updated_at = now;
    b.document_ref = Some(document_ref);
    contract.replace_bid(property_id, index, b);
    Ok(())
}

/// The bidder confirms that the released documents have arrived. The bid
/// must have its documents released and be free.
pub fn confirm_document_receipt(
    contract: &mut ShedaContract,
    caller: &AccountId,
    property_id: u64,
    bid_id: u64,
    now: Timestamp,
) -> (r: Result<(), ContractError>)
    requires
        old(contract).wf(),
    ensures
        final(contract).wf(),
        match old(contract)@.document_receipt_error(caller@, property_id, bid_id) {
            Some(e) => r == Err::<(), ContractError>(e) && final(contract)@ == old(contract)@,
            None => r is Ok && final(contract)@ == old(contract)@.document_receipt_state(
                property_id,
                bid_id,
                now,
            ),
        },
{
    let index: usize = match contract.bid_position(property_id, bid_id) {
        None => {
            return Err(ContractError::BidNotFound);
        },
        Some(i) => i,
    };
    let mut b: Bid = contract.bid_copy(property_id, index);
    if b.bidder != *caller {
        return Err(ContractError::NotBidder);
    }
    if b.status != BidStatus::DocsReleased {
        return Err(ContractError::InvalidBidStatus);
    }
    if contract.is_bid_locked(property_id, bid_id) {
        return Err(ContractError::ReentrancyLocked);
    }
    b.status = BidStatus::DocsConfirmed;
    b.updated_at = now;
    contract.replace_bid(property_id, index, b);
    Ok(())
}

/// The bidder releases the escrow of a bid whose documents are confirmed.
/// The property must be neither sold nor leased. The ledger is debited and
/// the bid and its property are locked; the result is the payout to the owner that the host has
/// to issue, whose outcome goes to `settlement_callback`.
pub fn release_escrow(
    contract: &mut ShedaContract,
    caller: &AccountId,
    property_id: u64,
    bid_id: u64,
) -> (r: Result<TransferRequest, ContractError>)
    requires
        old(contract).wf(),
    ensures
        final(contract).wf(),
        match old(contract)@.release_escrow_error(caller@, property_id, bid_id) {
            Some(e) => r == Err::<TransferRequest, ContractError>(e) && final(contract)@ == old(contract)@,
            None => r == Ok::<TransferRequest, ContractError>(
                payout_request(
                    old(contract)@.property(property_id),
                    old(contract)@.bid(property_id, bid_id),
                ),
            ) && final(contract)@ == old(contract)@.hold_payout(
                old(contract)@.bid(property_id, bid_id),
                Intent::ReleaseEscrow,
            ),
        },
{
    let property: &Property = match contract.property_ref(property_id) {
        None => {
            return Err(ContractError::PropertyNotFound);
        },
        Some(p) => p,
    };
    let index: usize = match contract.bid_position(property_id, bid_id) {
        None => {
            return Err(ContractError::BidNotFound);
        },
        Some(i) => i,
    };
    let b: Bid = contract.bid_copy(property_id, index);
    if b.bidder != *caller {
        return Err(ContractError::NotBidder);
    }
    if b.status != BidStatus::DocsConfirmed {
        return Err(ContractError::InvalidBidStatus);
    }
    if property.sold.is_some() {
        return Err(ContractError::PropertySold);
    }
    if property.active_lease.is_some() {
        return Err(ContractError::PropertyHasActiveLease);
    }
    let request: TransferRequest = make_payout_request(property, &b);
    match contract.hold_payout(&b, Intent::ReleaseEscrow) {
        Err(e) => Err(e),
        Ok(()) => Ok(request),
    }
}

/// The host reports that the registry has made the change of owner that an
/// escrow release asked for: the bid, whose payment is released, is completed.
pub fn confirm_ownership_transfer(
    contract: &mut ShedaContract,
    property_id: u64,
    bid_id: u64,
    now: Timestamp,
) -> (r: Result<(), ContractError>)
    requires
        old(contract).wf(),
    ensures
        final(contract).wf(),
        match old(contract)@.ownership_confirmed_error(property_id, bid_id) {
            Some(e) => r == Err::<(), ContractError>(e) && final(contract)@ == old(contract)@,
            None => r is Ok && final(contract)@ == old(contract)@.ownership_confirmed_state(
                property_id,
                bid_id,
                now,
            ),
        },
{
    let index: usize = match contract.bid_position(property_id, bid_id) {
        None => {
            return Err(ContractError::BidNotFound);
        },
        Some(i) => i,
    };
    let mut b: Bid = contract.bid_copy(property_id, index);
    if b.status != BidStatus::PaymentReleased {
        return Err(ContractError::InvalidBidStatus);
    }
    if contract.is_bid_locked(property_id, bid_id) {
        return Err(ContractError::ReentrancyLocked);
    }
    b.status = BidStatus::Completed;
    b.updated_at = now;
    contract.replace_bid(property_id, index, b);
    Ok(())
}

/// The bidder raises a dispute on a bid that is accepted, has its documents
/// released or confirmed, and is free. The bid becomes disputed and keeps
/// the reason.
pub fn raise_bid_dispute(
    contract: &mut ShedaContract,
    caller: &AccountId,
    property_id: u64,
    bid_id: u64,
    reason: String,
    now: Timestamp,
) -> (r: Result<(), ContractError>)
    requires
        old(contract).wf(),
    ensures
        final(contract).wf(),
        match old(contract)@.bid_dispute_error(caller@, property_id, bid_id) {
            Some(e) => r == Err::<(), ContractError>(e) && final(contract)@ == old(contract)@,
            None => r is Ok && final(contract)@ == old(contract)@.bid_dispute_state(
                property_id,
                bid_id,
                reason,
                now,
            ),
        },
{
    let index: usize = match contract.bid_position(property_id, bid_id) {
        None => {
            return Err(ContractError::BidNotFound);
        },
        Some(i) => i,
    };
    let mut b: Bid = contract.bid_copy(property_id, index);
    if b.bidder != *caller {
        return Err(ContractError::NotBidder);
    }
    if b.status != BidStatus::Accepted && b.status != BidStatus::DocsReleased && b.status
        != BidStatus::DocsConfirmed {
        return Err(ContractError::InvalidBidStatus);
    }
    if contract.is_bid_locked(property_id, bid_id) {
        return Err(ContractError::ReentrancyLocked);
    }
    b.status = BidStatus::Disputed;
    b.updated_at = now;
    b.dispute_reason = Some(reason);
    contract.replace_bid(property_id, index, b);
    Ok(())
}

/// When a lease of `months` months that starts at `start` ends; `None`
/// where a timestamp cannot hold it.
pub fn compute_lease_end(start: Timestamp, months: u64) -> (r: Option<Timestamp>)
    ensures
        r == lease_end(start, months),
{
    match months.checked_mul(NANOS_PER_MONTH) {
        Some(duration) => start.checked_add(duration),
        None => None,
    }
}

impl ShedaContract {
    /// Adds a lease under the next lease id.
    pub(crate) fn push_lease(&mut self, lease: Lease)
        requires
            old(self).wf(),
            old(self).leases@.len() < u64::MAX,
            lease.id == old(self).leases@.len(),
            lease.active ==> old(self)@.shows_lease(lease),
        ensures
            final(self).wf(),
            final(self)@ == (State {
                leases: old(self)@.leases.push(lease),
                lease_counter: (old(self)@.lease_counter + 1) as u64,
                ..old(self)@
            }),
    {
        self.leases.push(lease);
        self.lease_counter = self.lease_counter + 1;
        proof {
            assert(self@.bids =~~= old(self)@.bids);
            assert(self@ =~= (State {
                leases: old(self)@.leases.push(lease),
                lease_counter: (old(self)@.lease_counter + 1) as u64,
                ..old(self)@
            }));
            assert forall|k: int| 0 <= k < self@.bids.len() implies ended_bids_free(
                self@.locks,
                #[trigger] self@.bids[k],
            ) by {
                assert(ended_bids_free(old(self)@.locks, old(self)@.bids[k]));
            }
            assert forall|k: int|
                0 <= k < self@.leases.len() && (#[trigger] self@.leases[k]).active implies self@.shows_lease(
                self@.leases[k],
            ) by {
                if k < old(self)@.leases.len() {
                    assert(old(self)@.shows_lease(old(self)@.leases[k]));
                }
            }
        }
    }
}

/// The outcome of a payout to the owner.
///
/// On success the property is sold or leased to the bidder and the bid is
/// free again. After a direct settlement the bid is completed and the other
/// pending bids of the property get their refund started, as far as `budget`
/// reaches; after an escrow release the bid has its payment released. The
/// report holds the change of owner for the registry. Where the ledger does
/// not cover one of the refunds, or the end of the lease is beyond what a
/// timestamp holds, the outcome is not taken and nothing is written.
///
/// On failure the ledger is credited again, the bid returns to pending
/// (direct settlement) or stays with its documents confirmed (escrow), and
/// the result is `TransferFailed`.
pub fn settlement_callback(
    contract: &mut ShedaContract,
    property_id: u64,
    bid_id: u64,
    outcome: TransferOutcome,
    now: Timestamp,
    budget: u64,
) -> (r: Result<SettlementReport, ContractError>)
    requires
        old(contract).wf(),
    ensures
        final(contract).wf(),
        match old(contract)@.settlement_refusal(
            property_id,
            bid_id,
            outcome == TransferOutcome::Success,
            now,
            budget,
        ) {
            Some(e) => r == Err::<SettlementReport, ContractError>(e) && final(contract)@ == old(contract)@,
            None => if outcome == TransferOutcome::Success {
                let swept = old(contract)@.sweep(
                    property_id,
                    0,
                    old(contract)@.settlement_budget(property_id, bid_id, budget),
                    None,
                );
                &&& r is Ok
                &&& final(contract)@ == old(contract)@.settlement_done(
                    property_id,
                    bid_id,
                    now,
                    budget,
                )
                &&& r->Ok_0.ownership == old(contract)@.settlement_transfer(property_id, bid_id)
                &&& r->Ok_0.refunds@ == swept.1
                &&& r->Ok_0.next_index == swept.2
            } else {
                r == Err::<SettlementReport, ContractError>(ContractError::TransferFailed) && final(contract)@ == old(contract)@.settlement_reverted(property_id, bid_id, now)
            },
        },
{
    let mut property: Property = match contract.property_ref(property_id) {
        None => {
            return Err(ContractError::PropertyNotFound);
        },
        Some(p) => p.clone(),
    };
    let index: usize = match contract.bid_position(property_id, bid_id) {
        None => {
            return Err(ContractError::BidNotFound);
        },
        Some(i) => i,
    };
    let intent: Intent = match contract.locks.holder(&crate::guard::LockKey::bid(property_id, bid_id)) {
        None => {
            return Err(ContractError::NoPendingTransfer);
        },
        Some(i) => i,
    };
    let (waiting, done, failed): (BidStatus, BidStatus, BidStatus) = match intent {
        Intent::Accept => (BidStatus::Accepted, BidStatus::Completed, BidStatus::Pending),
        Intent::ReleaseEscrow => (
            BidStatus::DocsConfirmed,
            BidStatus::PaymentReleased,
            BidStatus::DocsConfirmed,
        ),
        _ => {
            return Err(ContractError::NoPendingTransfer);
        },
    };
    let mut b: Bid = contract.bid_copy(property_id, index);
    if b.status != waiting {
        return Err(ContractError::InvalidBidStatus);
    }
    match outcome {
        TransferOutcome::Failure => {
            match contract.credit_balance(&b.stablecoin_token, b.amount) {
                Err(e) => {
                    return Err(e);
                },
                Ok(()) => {},
            }
            b.status = failed;
            b.updated_at = now;
            contract.replace_bid(property_id, index, b);
            contract.unlock_bid(property_id, bid_id);
            contract.unlock_property(property_id);
            Err(ContractError::TransferFailed)
        },
        TransferOutcome::Success => {
            if property.sold.is_some() {
                return Err(ContractError::PropertySold);
            }
            if property.active_lease.is_some() {
                return Err(ContractError::PropertyHasActiveLease);
            }
            let lease: Option<Lease> = match b.action {
                Action::Purchase => None,
                Action::Lease => {
                    if contract.lease_counter == u64::MAX {
                        return Err(ContractError::CounterOverflow);
                    }
                    let months: u64 = match property.lease_duration_months {
                        Some(m) => m,
                        None => 0,
                    };
                    let end_time: Timestamp = match compute_lease_end(now, months) {
                        Some(t) => t,
                        None => {
                            return Err(ContractError::TimestampOverflow);
                        },
                    };
                    Some(
                        Lease {
                            id: contract.lease_counter,
                            property_id,
                            tenant_id: b.bidder.clone(),
                            start_time: now,
                            end_time,
                            active: true,
                            dispute_status: DisputeStatus::NoDispute,
                            dispute: None,
                            resolution: None,
                            escrow_held: b.amount,
                            escrow_token: b.stablecoin_token.clone(),
                        },
                    )
                },
            };
            let spend: u64 = match intent {
                Intent::Accept => budget,
                _ => 0,
            };
            let ghost pre = contract@;
            proof {
                lemma_sweep_keeps_bids(pre, property_id, 0, spend as nat, None);
                assert(pre.locked(property_id, bid_id));
            }
            let report: SweepReport = match contract.sweep_bids(property_id, 0, spend, None) {
                Err(e) => {
                    return Err(e);
                },
                Ok(r) => r,
            };
            proof {
                let swept = pre.sweep(property_id, 0, spend as nat, None).0;
                assert(contract@ == swept);
                assert(swept.locked(property_id, bid_id));
                assert(swept.lock_intent(property_id, bid_id) == pre.lock_intent(property_id, bid_id));
                assert(swept.bid_list(property_id) == pre.bid_list(property_id));
                assert(swept.bid(property_id, bid_id) == pre.bid(property_id, bid_id));
                assert(swept.property(property_id) == pre.property(property_id));
                assert(swept.settled_property(property_id, bid_id, now) == pre.settled_property(
                    property_id,
                    bid_id,
                    now,
                ));
            }
            let ownership = OwnershipTransfer {
                property_id,
                from: property.owner_id.clone(),
                to: b.bidder.clone(),
            };
            let ghost start = contract@;
            match lease {
                None => {
                    property.sold = Some(
                        Sold {
                            property_id,
                            buyer_id: b.bidder.clone(),
                            amount: b.amount,
                            previous_owner_id: property.owner_id.clone(),
                            sold_at: now,
                        },
                    );
                    property.is_for_sale = false;
                    contract.replace_property(property_id, Some(property));
                },
                Some(l) => {
                    property.active_lease = Some(l.clone());
                    contract.replace_property(property_id, Some(property));
                    contract.push_lease(l);
                },
            }
            proof {
                assert(contract@ =~= (State {
                    leases: start.leases_after(property_id, bid_id, now),
                    lease_counter: start.lease_counter_after(property_id, bid_id),
                    ..start.put_property(
                        property_id,
                        Some(start.settled_property(property_id, bid_id, now)),
                    )
                }));
            }
            b.status = done;
            b.updated_at = now;
            b.settled_at = Some(now);
            let ghost placed = contract@;
            contract.unlock_bid(property_id, bid_id);
            contract.replace_bid(property_id, index, b);
            contract.unlock_property(property_id);
            proof {
                assert(contract@ =~= placed.put_bid(property_id, bid_id, b).release(property_id, bid_id));
            }
            Ok(SettlementReport { ownership, refunds: report.refunds, next_index: report.next_index })
        },
    }
}

impl ShedaContract {
    /// The lease with this id, if there is one.
    pub fn lease_ref(&self, lease_id: u64) -> (r: Option<&Lease>)
        requires
            self.wf(),
        ensures
            r is Some <==> self@.has_lease(lease_id),
            r is Some ==> *r->0 == self@.lease(lease_id),
    {
        if lease_id >= self.leases.len() as u64 {
            return None;
        }
        Some(&self.leases[as_index(lease_id, self.leases.len())])
    }

    /// Whether the property of the lease shows this lease as its active lease.
    pub fn shows_lease(&self, lease: &Lease) -> (r: bool)
        ensures
            r == self@.shows_lease(*lease),
    {
        match self.property_ref(lease.property_id) {
            Some(p) => match &p.active_lease {
                Some(l) => l.id == lease.id,
                None => false,
            },
            None => false,
        }
    }

    /// Writes the lease over the one with its id, and over the copy that its
    /// property shows.
    pub(crate) fn store_lease(&mut self, lease: Lease)
        requires
            old(self).wf(),
            old(self)@.has_lease(lease.id),
            lease.property_id == old(self)@.lease(lease.id).property_id,
            lease.active ==> old(self)@.lease(lease.id).active,
        ensures
            final(self).wf(),
            final(self)@ == old(self)@.store_lease(lease),
    {
        let shown: Option<Property> = if self.shows_lease(&lease) {
            match self.property_ref(lease.property_id) {
                Some(p) => {
                    let mut q: Property = p.clone();
                    q.active_lease = Some(lease.clone());
                    Some(q)
                },
                None => None,
            }
        } else {
            None
        };
        let property_id: u64 = lease.property_id;
        self.replace_lease(lease);
        match shown {
            Some(q) => {
                self.replace_property(property_id, Some(q));
            },
            None => {},
        }
    }

    /// Makes the lease inactive and clears it from its property.
    pub(crate) fn retire_lease(&mut self, lease_id: u64)
        requires
            old(self).wf(),
            old(self)@.has_lease(lease_id),
        ensures
            final(self).wf(),
            final(self)@ == old(self)@.retire_lease(lease_id),
    {
        let mut ended: Lease = match self.lease_ref(lease_id) {
            Some(l) => l.clone(),
            None => {
                return ;
            },
        };
        ended.active = false;
        let shown: Option<Property> = if self.shows_lease(&ended) {
            match self.property_ref(ended.property_id) {
                Some(p) => {
                    let mut q: Property = p.clone();
                    q.active_lease = None;
                    Some(q)
                },
                None => None,
            }
        } else {
            None
        };
        let property_id: u64 = ended.property_id;
        self.replace_lease(ended);
        match shown {
            Some(q) => {
                self.replace_property(property_id, Some(q));
            },
            None => {},
        }
    }
}

/// The tenant raises a dispute on an active lease on which none was raised
/// before. The lease keeps who raised it, when and why.
pub fn internal_raise_dispute(
    contract: &mut ShedaContract,
    caller: &AccountId,
    lease_id: u64,
    reason: String,
    now: Timestamp,
) -> (r: Result<(), ContractError>)
    requires
        old(contract).wf(),
    ensures
        final(contract).wf(),
        match old(contract)@.raise_dispute_error(caller@, lease_id) {
            Some(e) => r == Err::<(), ContractError>(e) && final(contract)@ == old(contract)@,
            None => r is Ok && final(contract)@ == old(contract)@.raise_dispute_state(
                *caller,
                lease_id,
                reason,
                now,
            ),
        },
{
    let mut lease: Lease = match contract.lease_ref(lease_id) {
        None => {
            return Err(ContractError::LeaseNotFound);
        },
        Some(l) => l.clone(),
    };
    if lease.tenant_id != *caller {
        return Err(ContractError::UnauthorizedAccess);
    }
    if !lease.active {
        return Err(ContractError::LeaseNotActive);
    }
    if lease.dispute_status != DisputeStatus::NoDispute {
        return Err(ContractError::DisputeAlreadyRaised);
    }
    lease.dispute_status = DisputeStatus::Raised;
    lease.dispute = Some(
        DisputeInfo {
            raised_by: caller.clone(),
            reason,
            raised_at: now,
            votes_for_tenant: 0,
            votes_for_owner: 0,
            oracle_result: None,
        },
    );
    contract.store_lease(lease);
    Ok(())
}

/// Expires one lease. A lease that is active and whose end has come becomes
/// inactive and is cleared from its property; the result is the registry
/// transfer back from the tenant to the owner. On any other lease the call
/// changes nothing and asks for nothing: it may be repeated at will.
pub fn expire_lease(contract: &mut ShedaContract, lease_id: u64, now: Timestamp) -> (r: Result<
    Option<OwnershipTransfer>,
    ContractError,
>)
    requires
        old(contract).wf(),
    ensures
        final(contract).wf(),
        old(contract)@.has_lease(lease_id) ==> r == Ok::<Option<OwnershipTransfer>, ContractError>(
            old(contract)@.expire_lease_transfer(lease_id, now),
        ) && final(contract)@ == old(contract)@.expire_lease_state(lease_id, now),
        !old(contract)@.has_lease(lease_id) ==> r == Err::<
            Option<OwnershipTransfer>,
            ContractError,
        >(ContractError::LeaseNotFound) && final(contract)@ == old(contract)@,
{
    let (due, property_id, tenant): (bool, u64, AccountId) = match contract.lease_ref(lease_id) {
        None => {
            return Err(ContractError::LeaseNotFound);
        },
        Some(l) => (l.active && l.end_time <= now, l.property_id, l.tenant_id.clone()),
    };
    if !due {
        return Ok(None);
    }
    let transfer: Option<OwnershipTransfer> = match contract.property_ref(property_id) {
        Some(p) => Some(OwnershipTransfer { property_id, from: tenant, to: p.owner_id.clone() }),
        None => None,
    };
    contract.retire_lease(lease_id);
    Ok(transfer)
}

/// Sweeps the leases from id `from` on and expires those that are due, for
/// at most `budget` leases. The report names the id at which a later sweep
/// goes on. A repeated sweep finds the expired leases inactive and leaves
/// them alone.
pub fn internal_cron_check_leases(
    contract: &mut ShedaContract,
    now: Timestamp,
    from: u64,
    budget: u64,
) -> (r: LeaseSweepReport)
    requires
        old(contract).wf(),
    ensures
        final(contract).wf(),
        final(contract)@ == old(contract)@.sweep_leases(from as int, budget as nat, now).0,
        r.transfers@ == old(contract)@.sweep_leases(from as int, budget as nat, now).1,
        r.next_index == old(contract)@.sweep_leases(from as int, budget as nat, now).2,
{
    let mut transfers: Vec<OwnershipTransfer> = Vec::new();
    let len: u64 = contract.lease_counter;
    let mut i: u64 = from;
    let mut left: u64 = budget;
    while left > 0 && i < len
        invariant
            contract.wf(),
            len == contract@.leases.len(),
            from <= i,
            old(contract)@.sweep_leases(from as int, budget as nat, now) == ({
                let rest = contract@.sweep_leases(i as int, left as nat, now);
                (rest.0, transfers@ + rest.1, rest.2)
            }),
        decreases left,
    {
        let ghost before = contract@;
        let ghost done = transfers@;
        match expire_lease(contract, i, now) {
            Ok(Some(t)) => {
                transfers.push(t);
                proof {
                    let rest = contract@.sweep_leases(i + 1, (left - 1) as nat, now);
                    assert(transfers@ + rest.1 =~= done + (seq![t] + rest.1));
                }
            },
            _ => {},
        }
        proof {
            assert(contract@.leases.len() == before.leases.len());
        }
        i = i + 1;
        left = left - 1;
    }
    proof {
        let rest = contract@.sweep_leases(i as int, left as nat, now);
        assert(transfers@ + rest.1 =~= transfers@);
    }
    LeaseSweepReport { transfers, next_index: i }
}

/// The owner takes a property off the market. A property with an active
/// lease or a sale record stays as it is, and so does a property for one of
/// whose bids a payout is under way.
pub fn internal_delist_property(contract: &mut ShedaContract, caller: &AccountId, property_id: u64) -> (r:
    Result<(), ContractError>)
    requires
        old(contract).wf(),
    ensures
        final(contract).wf(),
        match old(contract)@.owner_change_error(caller@, property_id) {
            Some(e) => r == Err::<(), ContractError>(e) && final(contract)@ == old(contract)@,
            None => r is Ok && final(contract)@ == old(contract)@.delist_state(property_id),
        },
{
    let mut property: Property = match contract.property_ref(property_id) {
        None => {
            return Err(ContractError::PropertyNotFound);
        },
        Some(p) => p.clone(),
    };
    if property.owner_id != *caller {
        return Err(ContractError::NotPropertyOwner);
    }
    if contract.is_property_locked(property_id) {
        return Err(ContractError::ReentrancyLocked);
    }
    if property.active_lease.is_some() {
        return Err(ContractError::PropertyHasActiveLease);
    }
    if property.sold.is_some() {
        return Err(ContractError::PropertySold);
    }
    property.is_for_sale = false;
    contract.replace_property(property_id, Some(property));
    Ok(())
}

/// The owner deletes a property. A property with an active lease or a sale
/// record stays as it is, and so does a property for one of whose bids a
/// payout is under way. The result is the registry transfer that burns the
/// token of the property.
pub fn internal_delete_property(
    contract: &mut ShedaContract,
    caller: &AccountId,
    property_id: u64,
    burn_account: AccountId,
) -> (r: Result<OwnershipTransfer, ContractError>)
    requires
        old(contract).wf(),
    ensures
        final(contract).wf(),
        match old(contract)@.owner_change_error(caller@, property_id) {
            Some(e) => r == Err::<OwnershipTransfer, ContractError>(e) && final(contract)@ == old(contract)@,
            None => r == Ok::<OwnershipTransfer, ContractError>(
                old(contract)@.burn_transfer(property_id, burn_account),
            ) && final(contract)@ == old(contract)@.delete_state(property_id),
        },
{
    let held: bool = contract.is_property_locked(property_id);
    let owner: AccountId = match contract.property_ref(property_id) {
        None => {
            return Err(ContractError::PropertyNotFound);
        },
        Some(p) => {
            if p.owner_id != *caller {
                return Err(ContractError::NotPropertyOwner);
            }
            if held {
                return Err(ContractError::ReentrancyLocked);
            }
            if p.active_lease.is_some() {
                return Err(ContractError::PropertyHasActiveLease);
            }
            if p.sold.is_some() {
                return Err(ContractError::PropertySold);
            }
            p.owner_id.clone()
        },
    };
    contract.remove_property(property_id);
    Ok(OwnershipTransfer { property_id, from: owner, to: burn_account })
}

/// The base address of a media address. Where the address holds `/ipfs/`,
/// it is `ipfs://` followed by what stands between the first `/ipfs/` and
/// the next one (or the end). Otherwise it is the address up to its third
/// `/`, which is its scheme and host.
pub open spec fn base_uri(url: Seq<char>) -> Seq<char> {
    match find(url, "/ipfs/"@, 0) {
        Some(i) => {
            let start = i + "/ipfs/"@.len();
            let end = match find(url, "/ipfs/"@, start) {
                Some(j) => j,
                None => url.len() as int,
            };
            "ipfs://"@ + url.subrange(start, end)
        },
        None => url.subrange(0, nth_occurrence(url, '/', 0, 3)),
    }
}

/// The base address of a media address, as `base_uri` says.
pub fn extract_base_uri(url: &str) -> (r: String)
    ensures
        r@ == base_uri(url@),
{
    let chars: Vec<char> = chars_of(url);
    let marker: Vec<char> = chars_of("/ipfs/");
    let len: usize = chars.len();
    match find_from(&chars, &marker, 0) {
        Some(i) => {
            let start: usize = i + marker.len();
            let end: usize = match find_from(&chars, &marker, start) {
                Some(j) => j,
                None => len,
            };
            String::from_str("ipfs://").concat(url.substring_char(start, end))
        },
        None => {
            let end: usize = find_nth(&chars, '/', 3);
            String::from_str(url.substring_char(0, end))
        },
    }
}

/// The account to which the token of a deleted property goes: the burn
/// account of the network that `current_account` belongs to.
pub open spec fn burn_account(current_account: Seq<char>) -> Seq<char> {
    if ends_with(current_account, ".testnet"@) {
        "burn.testnet"@
    } else {
        "burn.near"@
    }
}

/// The burn account of the network of `current_account`.
pub fn get_burn_account_id(current_account: &AccountId) -> (r: AccountId)
    ensures
        r@ == burn_account(current_account@),
{
    let chars: Vec<char> = chars_of(current_account.as_str());
    let suffix: Vec<char> = chars_of(".testnet");
    if has_suffix(&chars, &suffix) {
        String::from_str("burn.testnet")
    } else {
        String::from_str("burn.near")
    }
}

} // verus!
