use sheda_contract::guard::{Intent, LockKey};
use sheda_contract::internal::{
    accept_bid_escrow, claim_lost_bid, confirm_document_receipt, confirm_document_release,
    confirm_ownership_transfer, expire_lease, internal_accept_bid, internal_cancel_bid,
    internal_cron_check_leases, internal_raise_dispute, internal_reject_bid, raise_bid_dispute,
    refund_callback, refund_escrow_timeout, release_escrow, settlement_callback,
};
use sheda_contract::models::{
    Action, BidAction, BidStatus, ContractError, DisputeStatus, DisputeWinner, OwnershipTransfer,
    TransferOutcome, TransferRequest, WithdrawRequest,
};
use sheda_contract::ShedaContract;

const T: &str = "usdc.near";

fn acc(name: &str) -> String {
    name.to_string()
}

fn purchase(property_id: u64) -> BidAction {
    BidAction { property_id, action: Action::Purchase, stablecoin_token: acc(T) }
}

fn lease(property_id: u64) -> BidAction {
    BidAction { property_id, action: Action::Lease, stablecoin_token: acc(T) }
}

/// A store owned by `admin.near` that accepts the token `T` and holds one
/// property of `seller.near`, price 1000, for sale and for lease of 12 months.
fn market() -> ShedaContract {
    let mut c = ShedaContract::new(acc("admin.near"));
    c.add_supported_stablecoin(&acc("admin.near"), acc(T)).unwrap();
    let id = c
        .list_property(&acc("seller.near"), acc("House"), acc("ipfs://QmXxx"), 1000, true, Some(12), None, 10)
        .unwrap();
    assert_eq!(id, 0);
    c
}

fn status(c: &ShedaContract, property_id: u64, bid_id: u64) -> BidStatus {
    c.get_bid(property_id, bid_id).unwrap().status
}

fn balance(c: &ShedaContract) -> u128 {
    c.get_stablecoin_balance(&acc(T))
}

fn locked(c: &ShedaContract, property_id: u64, bid_id: u64) -> bool {
    c.is_bid_locked(property_id, bid_id)
}

#[test]
fn place_bid_credits_ledger_and_creates_pending_bid() {
    let mut c = market();
    c.set_time_lock_config(&acc("admin.near"), 500, 0, 0).unwrap();
    let id = c.place_bid(acc("alice.near"), 1000, purchase(0), 100).unwrap();
    assert_eq!(id, 0);
    assert_eq!(balance(&c), 1000);
    let b = c.get_bid(0, 0).unwrap();
    assert_eq!(b.status, BidStatus::Pending);
    assert_eq!(b.bidder, "alice.near");
    assert_eq!(b.amount, 1000);
    assert_eq!(b.created_at, 100);
    assert_eq!(b.updated_at, 100);
    assert_eq!(b.expires_at, Some(600));
    assert_eq!(b.action, Action::Purchase);
    assert_eq!(b.stablecoin_token, T);
    assert_eq!(b.settled_at, None);
    assert_eq!(c.get_bid_counter(), 1);
    let second = c.place_bid(acc("bob.near"), 1000, lease(0), 101).unwrap();
    assert_eq!(second, 1);
    assert_eq!(balance(&c), 2000);
}

#[test]
fn place_bid_without_expiry_has_no_deadline() {
    let mut c = market();
    c.place_bid(acc("alice.near"), 1000, purchase(0), 100).unwrap();
    assert_eq!(c.get_bid(0, 0).unwrap().expires_at, None);
}

#[test]
fn place_bid_refusals() {
    let mut c = market();
    let other = BidAction { property_id: 0, action: Action::Purchase, stablecoin_token: acc("dai.near") };
    assert_eq!(c.place_bid(acc("alice.near"), 1000, other, 1), Err(ContractError::UnsupportedToken));
    assert_eq!(c.place_bid(acc("alice.near"), 1000, purchase(7), 1), Err(ContractError::PropertyNotFound));
    assert_eq!(
        c.place_bid(acc("alice.near"), 999, purchase(0), 1),
        Err(ContractError::IncorrectBidAmount { expected: 1000, received: 999 })
    );
    let not_for_sale = c
        .list_property(&acc("seller.near"), acc("Flat"), acc("ipfs://Qm2"), 50, false, None, None, 10)
        .unwrap();
    assert_eq!(
        c.place_bid(acc("alice.near"), 50, purchase(not_for_sale), 1),
        Err(ContractError::PropertyNotListed)
    );
    assert_eq!(
        c.place_bid(acc("alice.near"), 50, lease(not_for_sale), 1),
        Err(ContractError::PropertyNotListed)
    );
    c.set_time_lock_config(&acc("admin.near"), 10, 0, 0).unwrap();
    assert_eq!(
        c.place_bid(acc("alice.near"), 1000, purchase(0), u64::MAX - 5),
        Err(ContractError::TimestampOverflow)
    );
    assert_eq!(balance(&c), 0);
    assert_eq!(c.get_bid_counter(), 0);
}

#[test]
fn place_bid_refuses_ledger_overflow() {
    let mut c = ShedaContract::new(acc("admin.near"));
    c.add_supported_stablecoin(&acc("admin.near"), acc(T)).unwrap();
    c.list_property(&acc("seller.near"), acc("Big"), acc("ipfs://Qm"), u128::MAX, true, None, None, 1).unwrap();
    c.list_property(&acc("seller.near"), acc("Small"), acc("ipfs://Qm"), 1, true, None, None, 1).unwrap();
    c.place_bid(acc("alice.near"), u128::MAX, purchase(0), 1).unwrap();
    assert_eq!(c.place_bid(acc("bob.near"), 1, purchase(1), 1), Err(ContractError::BalanceOverflow));
    assert_eq!(balance(&c), u128::MAX);
}

#[test]
fn deposit_notification_reports_refund() {
    let mut c = market();
    assert_eq!(c.ft_on_transfer(&acc(T), acc("alice.near"), 1000, purchase(0), 5), Ok(0));
    assert_eq!(c.ft_on_transfer(&acc(T), acc("alice.near"), 999, purchase(0), 5), Ok(999));
    assert_eq!(
        c.ft_on_transfer(&acc(T), acc("alice.near"), 1000, purchase(3), 5),
        Err(ContractError::PropertyNotFound)
    );
    // a deposit notified by another service than that of the token is refused
    assert_eq!(
        c.ft_on_transfer(&acc("fake.near"), acc("mallory.near"), 1000, purchase(0), 5),
        Err(ContractError::InvalidPaymentToken)
    );
    assert_eq!(balance(&c), 1000);
    assert_eq!(c.get_bid_counter(), 1);
}

#[test]
fn direct_settlement_refunds_the_other_bid() {
    let mut c = market();
    let b1 = c.place_bid(acc("alice.near"), 1000, purchase(0), 100).unwrap();
    let b2 = c.place_bid(acc("bob.near"), 1000, purchase(0), 101).unwrap();
    let before = balance(&c);
    assert_eq!(before, 2000);

    let payout = internal_accept_bid(&mut c, &acc("seller.near"), 0, b1, 200).unwrap();
    assert_eq!(
        payout,
        TransferRequest {
            token: acc(T),
            receiver_id: acc("seller.near"),
            amount: 1000,
            property_id: 0,
            bid_id: b1,
        }
    );
    assert_eq!(status(&c, 0, b1), BidStatus::Accepted);
    assert!(locked(&c, 0, b1));
    assert_eq!(balance(&c), 1000);

    let report = settlement_callback(&mut c, 0, b1, TransferOutcome::Success, 300, 10).unwrap();
    assert_eq!(
        report.ownership,
        OwnershipTransfer { property_id: 0, from: acc("seller.near"), to: acc("alice.near") }
    );
    assert_eq!(
        report.refunds,
        vec![TransferRequest {
            token: acc(T),
            receiver_id: acc("bob.near"),
            amount: 1000,
            property_id: 0,
            bid_id: b2,
        }]
    );
    assert_eq!(report.next_index, 2);
    assert_eq!(status(&c, 0, b1), BidStatus::Completed);
    assert_eq!(c.get_bid(0, b1).unwrap().settled_at, Some(300));
    assert!(!locked(&c, 0, b1));
    let p = c.get_property(0).unwrap();
    let sold = p.sold.unwrap();
    assert_eq!(sold.buyer_id, "alice.near");
    assert_eq!(sold.previous_owner_id, "seller.near");
    assert_eq!(sold.amount, 1000);
    assert_eq!(sold.sold_at, 300);
    assert_eq!(sold.property_id, 0);
    assert!(!p.is_for_sale);

    assert_eq!(status(&c, 0, b2), BidStatus::Pending);
    assert!(locked(&c, 0, b2));
    assert_eq!(refund_callback(&mut c, 0, b2, TransferOutcome::Success, 400), Ok(()));
    assert_eq!(status(&c, 0, b2), BidStatus::Rejected);
    assert!(!locked(&c, 0, b2));
    assert_eq!(balance(&c), before - 2000);
}

#[test]
fn direct_settlement_with_exhausted_budget_leaves_bid_pending() {
    let mut c = market();
    let b1 = c.place_bid(acc("alice.near"), 1000, purchase(0), 100).unwrap();
    let b2 = c.place_bid(acc("bob.near"), 1000, purchase(0), 101).unwrap();
    internal_accept_bid(&mut c, &acc("seller.near"), 0, b1, 200).unwrap();
    let report = settlement_callback(&mut c, 0, b1, TransferOutcome::Success, 300, 0).unwrap();
    assert!(report.refunds.is_empty());
    assert_eq!(report.next_index, 0);
    assert_eq!(status(&c, 0, b1), BidStatus::Completed);
    assert_eq!(status(&c, 0, b2), BidStatus::Pending);
    assert!(!locked(&c, 0, b2));
    assert_eq!(balance(&c), 1000);

    // a budget of one looks at the completed bid only
    assert_eq!(c.refund_bids(&acc("nobody.near"), 0, 0, 1), Err(ContractError::UnauthorizedAccess));
    let first = c.refund_bids(&acc("admin.near"), 0, 0, 1).unwrap();
    assert!(first.refunds.is_empty());
    assert_eq!(first.next_index, 1);
    let second = c.refund_bids(&acc("admin.near"), 0, first.next_index, 1).unwrap();
    assert_eq!(second.refunds.len(), 1);
    assert_eq!(second.refunds[0].bid_id, b2);
    assert_eq!(second.next_index, 2);
    assert_eq!(balance(&c), 0);
    refund_callback(&mut c, 0, b2, TransferOutcome::Success, 500).unwrap();
    assert_eq!(status(&c, 0, b2), BidStatus::Rejected);
}

#[test]
fn direct_settlement_failure_restores_balance_and_bid() {
    let mut c = market();
    let b1 = c.place_bid(acc("alice.near"), 1000, purchase(0), 100).unwrap();
    internal_accept_bid(&mut c, &acc("seller.near"), 0, b1, 200).unwrap();
    assert_eq!(balance(&c), 0);
    assert_eq!(
        settlement_callback(&mut c, 0, b1, TransferOutcome::Failure, 300, 10),
        Err(ContractError::TransferFailed)
    );
    assert_eq!(status(&c, 0, b1), BidStatus::Pending);
    assert_eq!(balance(&c), 1000);
    assert!(!locked(&c, 0, b1));
    assert!(c.get_property(0).unwrap().sold.is_none());
    // the callback is consumed: a second report finds nothing under way
    assert_eq!(
        settlement_callback(&mut c, 0, b1, TransferOutcome::Success, 301, 10),
        Err(ContractError::NoPendingTransfer)
    );
    // the owner may accept again
    assert!(internal_accept_bid(&mut c, &acc("seller.near"), 0, b1, 400).is_ok());
}

#[test]
fn accept_refusals() {
    let mut c = market();
    let b1 = c.place_bid(acc("alice.near"), 1000, purchase(0), 100).unwrap();
    let b2 = c.place_bid(acc("bob.near"), 1000, purchase(0), 101).unwrap();
    assert_eq!(
        internal_accept_bid(&mut c, &acc("seller.near"), 9, b1, 1),
        Err(ContractError::PropertyNotFound)
    );
    assert_eq!(
        internal_accept_bid(&mut c, &acc("seller.near"), 0, 9, 1),
        Err(ContractError::BidNotFound)
    );
    assert_eq!(
        internal_accept_bid(&mut c, &acc("alice.near"), 0, b1, 1),
        Err(ContractError::NotPropertyOwner)
    );
    internal_accept_bid(&mut c, &acc("seller.near"), 0, b1, 200).unwrap();
    assert_eq!(
        internal_accept_bid(&mut c, &acc("seller.near"), 0, b1, 201),
        Err(ContractError::InvalidBidStatus)
    );
    // only one bid of a property may be accepted at a time
    assert_eq!(
        internal_accept_bid(&mut c, &acc("seller.near"), 0, b2, 201),
        Err(ContractError::BidAlreadyAccepted)
    );
    assert_eq!(
        accept_bid_escrow(&mut c, &acc("seller.near"), 0, b2, 201, 5),
        Err(ContractError::BidAlreadyAccepted)
    );
    assert_eq!(balance(&c), 1000);
}

#[test]
fn accept_refuses_when_ledger_does_not_cover() {
    let mut c = market();
    let b1 = c.place_bid(acc("alice.near"), 1000, purchase(0), 100).unwrap();
    c.withdraw_stablecoin(&acc("admin.near"), &acc(T), 1).unwrap();
    assert_eq!(
        internal_accept_bid(&mut c, &acc("seller.near"), 0, b1, 200),
        Err(ContractError::BalanceUnderflow)
    );
    assert_eq!(status(&c, 0, b1), BidStatus::Pending);
    assert!(!locked(&c, 0, b1));
    assert_eq!(balance(&c), 999);
}

#[test]
fn property_taken_off_the_market_still_takes_acceptance() {
    let mut c = market();
    let b1 = c.place_bid(acc("alice.near"), 1000, purchase(0), 100).unwrap();
    sheda_contract::internal::internal_delist_property(&mut c, &acc("seller.near"), 0).unwrap();
    // no new bid is taken
    assert_eq!(
        c.place_bid(acc("bob.near"), 1000, purchase(0), 110),
        Err(ContractError::PropertyNotListed)
    );
    // the bid that was taken before is accepted and settled
    assert!(internal_accept_bid(&mut c, &acc("seller.near"), 0, b1, 200).is_ok());
    let report = settlement_callback(&mut c, 0, b1, TransferOutcome::Success, 300, 10).unwrap();
    assert_eq!(
        report.ownership,
        OwnershipTransfer { property_id: 0, from: acc("seller.near"), to: acc("alice.near") }
    );
    assert_eq!(status(&c, 0, b1), BidStatus::Completed);
    let sold = c.get_property(0).unwrap().sold.unwrap();
    assert_eq!(sold.buyer_id, "alice.near");
    assert_eq!(sold.previous_owner_id, "seller.near");
    assert_eq!(sold.amount, 1000);
    assert_eq!(sold.sold_at, 300);
}

#[test]
fn sold_property_takes_no_acceptance() {
    let mut c = market();
    let b1 = c.place_bid(acc("alice.near"), 1000, purchase(0), 100).unwrap();
    let b2 = c.place_bid(acc("bob.near"), 1000, purchase(0), 101).unwrap();
    internal_accept_bid(&mut c, &acc("seller.near"), 0, b1, 200).unwrap();
    settlement_callback(&mut c, 0, b1, TransferOutcome::Success, 300, 0).unwrap();
    assert_eq!(
        internal_accept_bid(&mut c, &acc("seller.near"), 0, b2, 400),
        Err(ContractError::PropertySold)
    );
    assert_eq!(
        accept_bid_escrow(&mut c, &acc("seller.near"), 0, b2, 400, 3),
        Err(ContractError::PropertySold)
    );
}

#[test]
fn lease_bid_needs_a_lease_duration() {
    let mut c = market();
    c.list_property(&acc("seller.near"), acc("Flat"), acc("ipfs://Qm2"), 10, true, Some(1), None, 10).unwrap();
    let b = c.place_bid(acc("alice.near"), 10, lease(1), 100).unwrap();
    c.properties[1].as_mut().unwrap().lease_duration_months = None;
    assert_eq!(
        internal_accept_bid(&mut c, &acc("seller.near"), 1, b, 200),
        Err(ContractError::PropertyNotListed)
    );
}

#[test]
fn reject_refunds_and_finalizes() {
    let mut c = market();
    let b = c.place_bid(acc("alice.near"), 1000, purchase(0), 100).unwrap();
    assert_eq!(
        internal_reject_bid(&mut c, &acc("alice.near"), 0, b),
        Err(ContractError::NotPropertyOwner)
    );
    let req = internal_reject_bid(&mut c, &acc("seller.near"), 0, b).unwrap();
    assert_eq!(req.receiver_id, "alice.near");
    assert_eq!(req.amount, 1000);
    assert_eq!(req.token, T);
    assert_eq!((req.property_id, req.bid_id), (0, b));
    assert_eq!(balance(&c), 0);
    assert_eq!(status(&c, 0, b), BidStatus::Pending);
    assert_eq!(c.locks.holder(&LockKey::bid(0, b)), Some(Intent::Reject));
    // a second saga on the same bid is turned away
    assert_eq!(
        internal_cancel_bid(&mut c, &acc("alice.near"), 0, b),
        Err(ContractError::ReentrancyLocked)
    );
    assert_eq!(
        internal_reject_bid(&mut c, &acc("seller.near"), 0, b),
        Err(ContractError::ReentrancyLocked)
    );
    assert_eq!(refund_callback(&mut c, 0, b, TransferOutcome::Success, 150), Ok(()));
    assert_eq!(status(&c, 0, b), BidStatus::Rejected);
    assert_eq!(c.get_bid(0, b).unwrap().updated_at, 150);
    assert_eq!(c.get_bid(0, b).unwrap().settled_at, Some(150));
    assert_eq!(balance(&c), 0);
}

#[test]
fn cancel_failure_restores_balance() {
    let mut c = market();
    let b = c.place_bid(acc("alice.near"), 1000, purchase(0), 100).unwrap();
    assert_eq!(
        internal_cancel_bid(&mut c, &acc("bob.near"), 0, b),
        Err(ContractError::NotBidder)
    );
    assert_eq!(internal_cancel_bid(&mut c, &acc("alice.near"), 0, 5), Err(ContractError::BidNotFound));
    internal_cancel_bid(&mut c, &acc("alice.near"), 0, b).unwrap();
    assert_eq!(balance(&c), 0);
    assert_eq!(
        refund_callback(&mut c, 0, b, TransferOutcome::Failure, 150),
        Err(ContractError::TransferFailed)
    );
    assert_eq!(balance(&c), 1000);
    assert_eq!(status(&c, 0, b), BidStatus::Pending);
    assert!(!locked(&c, 0, b));
    // retried by the caller
    internal_cancel_bid(&mut c, &acc("alice.near"), 0, b).unwrap();
    refund_callback(&mut c, 0, b, TransferOutcome::Success, 160).unwrap();
    assert_eq!(status(&c, 0, b), BidStatus::Cancelled);
    assert_eq!(balance(&c), 0);
}

#[test]
fn refund_callback_needs_a_refund_under_way() {
    let mut c = market();
    let b = c.place_bid(acc("alice.near"), 1000, purchase(0), 100).unwrap();
    assert_eq!(
        refund_callback(&mut c, 0, b, TransferOutcome::Success, 1),
        Err(ContractError::NoPendingTransfer)
    );
    assert_eq!(
        refund_callback(&mut c, 0, 44, TransferOutcome::Success, 1),
        Err(ContractError::BidNotFound)
    );
    internal_accept_bid(&mut c, &acc("seller.near"), 0, b, 200).unwrap();
    // a payout is under way, not a refund
    assert_eq!(
        refund_callback(&mut c, 0, b, TransferOutcome::Success, 1),
        Err(ContractError::NoPendingTransfer)
    );
    assert_eq!(status(&c, 0, b), BidStatus::Accepted);
}

#[test]
fn terminal_bid_refuses_every_step() {
    let mut c = market();
    let b = c.place_bid(acc("alice.near"), 1000, purchase(0), 100).unwrap();
    internal_cancel_bid(&mut c, &acc("alice.near"), 0, b).unwrap();
    refund_callback(&mut c, 0, b, TransferOutcome::Success, 160).unwrap();
    assert_eq!(status(&c, 0, b), BidStatus::Cancelled);
    c.place_bid(acc("carol.near"), 1000, purchase(0), 170).unwrap();
    let held = balance(&c);

    assert_eq!(
        internal_accept_bid(&mut c, &acc("seller.near"), 0, b, 200),
        Err(ContractError::InvalidBidStatus)
    );
    assert_eq!(
        accept_bid_escrow(&mut c, &acc("seller.near"), 0, b, 200, 3),
        Err(ContractError::InvalidBidStatus)
    );
    assert_eq!(
        internal_reject_bid(&mut c, &acc("seller.near"), 0, b),
        Err(ContractError::InvalidBidStatus)
    );
    assert_eq!(
        internal_cancel_bid(&mut c, &acc("alice.near"), 0, b),
        Err(ContractError::InvalidBidStatus)
    );
    assert_eq!(
        refund_escrow_timeout(&mut c, 0, b, 0, 10_000),
        Err(ContractError::InvalidBidStatus)
    );
    assert_eq!(
        refund_callback(&mut c, 0, b, TransferOutcome::Success, 1),
        Err(ContractError::NoPendingTransfer)
    );
    assert_eq!(
        settlement_callback(&mut c, 0, b, TransferOutcome::Success, 1, 1),
        Err(ContractError::NoPendingTransfer)
    );
    assert_eq!(status(&c, 0, b), BidStatus::Cancelled);
    assert_eq!(balance(&c), held);
}

#[test]
fn escrow_release_failure_reverts() {
    let mut c = market();
    let b1 = c.place_bid(acc("alice.near"), 1000, purchase(0), 100).unwrap();
    let b2 = c.place_bid(acc("bob.near"), 1000, purchase(0), 101).unwrap();
    let swept = accept_bid_escrow(&mut c, &acc("seller.near"), 0, b1, 200, 10).unwrap();
    assert_eq!(swept.refunds.len(), 1);
    assert_eq!(swept.refunds[0].bid_id, b2);
    assert_eq!(swept.refunds[0].receiver_id, "bob.near");
    assert_eq!(swept.next_index, 2);
    assert_eq!(status(&c, 0, b1), BidStatus::Accepted);
    assert!(!locked(&c, 0, b1));
    // the escrow of the accepted bid stays in the ledger
    assert_eq!(balance(&c), 1000);
    refund_callback(&mut c, 0, b2, TransferOutcome::Success, 210).unwrap();
    assert_eq!(status(&c, 0, b2), BidStatus::Rejected);

    assert_eq!(
        confirm_document_release(&mut c, &acc("alice.near"), 0, b1, acc("ipfs://deed"), 220),
        Err(ContractError::NotPropertyOwner)
    );
    confirm_document_release(&mut c, &acc("seller.near"), 0, b1, acc("ipfs://deed"), 220).unwrap();
    assert_eq!(status(&c, 0, b1), BidStatus::DocsReleased);
    assert_eq!(c.get_bid(0, b1).unwrap().document_ref, Some(acc("ipfs://deed")));
    assert_eq!(
        release_escrow(&mut c, &acc("alice.near"), 0, b1),
        Err(ContractError::InvalidBidStatus)
    );
    assert_eq!(
        confirm_document_receipt(&mut c, &acc("seller.near"), 0, b1, 230),
        Err(ContractError::NotBidder)
    );
    confirm_document_receipt(&mut c, &acc("alice.near"), 0, b1, 230).unwrap();
    assert_eq!(status(&c, 0, b1), BidStatus::DocsConfirmed);

    let before = balance(&c);
    assert_eq!(release_escrow(&mut c, &acc("bob.near"), 0, b1), Err(ContractError::NotBidder));
    let req = release_escrow(&mut c, &acc("alice.near"), 0, b1).unwrap();
    assert_eq!(req.receiver_id, "seller.near");
    assert_eq!(req.amount, 1000);
    assert_eq!(balance(&c), before - 1000);
    assert!(locked(&c, 0, b1));

    assert_eq!(
        settlement_callback(&mut c, 0, b1, TransferOutcome::Failure, 240, 10),
        Err(ContractError::TransferFailed)
    );
    assert_eq!(status(&c, 0, b1), BidStatus::DocsConfirmed);
    assert_eq!(balance(&c), before);
    assert!(!locked(&c, 0, b1));
    assert!(c.get_property(0).unwrap().sold.is_none());
}

#[test]
fn escrow_release_success_completes_after_registry_transfer() {
    let mut c = market();
    let b1 = c.place_bid(acc("alice.near"), 1000, purchase(0), 100).unwrap();
    accept_bid_escrow(&mut c, &acc("seller.near"), 0, b1, 200, 10).unwrap();
    confirm_document_release(&mut c, &acc("seller.near"), 0, b1, acc("doc"), 220).unwrap();
    confirm_document_receipt(&mut c, &acc("alice.near"), 0, b1, 230).unwrap();
    assert_eq!(
        confirm_ownership_transfer(&mut c, 0, b1, 235),
        Err(ContractError::InvalidBidStatus)
    );
    release_escrow(&mut c, &acc("alice.near"), 0, b1).unwrap();
    let report = settlement_callback(&mut c, 0, b1, TransferOutcome::Success, 240, 10).unwrap();
    assert_eq!(
        report.ownership,
        OwnershipTransfer { property_id: 0, from: acc("seller.near"), to: acc("alice.near") }
    );
    assert!(report.refunds.is_empty());
    assert_eq!(status(&c, 0, b1), BidStatus::PaymentReleased);
    assert_eq!(c.get_property(0).unwrap().sold.unwrap().buyer_id, "alice.near");
    assert_eq!(balance(&c), 0);
    confirm_ownership_transfer(&mut c, 0, b1, 250).unwrap();
    assert_eq!(status(&c, 0, b1), BidStatus::Completed);
    assert_eq!(c.get_bid(0, b1).unwrap().updated_at, 250);
}

#[test]
fn timeout_refund_cancels_stalled_bid() {
    let mut c = market();
    let b1 = c.place_bid(acc("alice.near"), 1000, purchase(0), 100).unwrap();
    assert_eq!(
        refund_escrow_timeout(&mut c, 0, b1, 50, 1000),
        Err(ContractError::InvalidBidStatus)
    );
    accept_bid_escrow(&mut c, &acc("seller.near"), 0, b1, 200, 10).unwrap();
    assert_eq!(
        refund_escrow_timeout(&mut c, 0, b1, 50, 249),
        Err(ContractError::TimeoutNotReached)
    );
    let req = refund_escrow_timeout(&mut c, 0, b1, 50, 250).unwrap();
    assert_eq!(req.receiver_id, "alice.near");
    assert_eq!(req.amount, 1000);
    assert_eq!(balance(&c), 0);
    assert_eq!(status(&c, 0, b1), BidStatus::Accepted);
    refund_callback(&mut c, 0, b1, TransferOutcome::Success, 260).unwrap();
    assert_eq!(status(&c, 0, b1), BidStatus::Cancelled);
    // the property is free for another bid
    let b2 = c.place_bid(acc("bob.near"), 1000, purchase(0), 300).unwrap();
    assert!(internal_accept_bid(&mut c, &acc("seller.near"), 0, b2, 310).is_ok());
}

#[test]
fn timeout_refund_is_turned_away_while_payout_is_under_way() {
    let mut c = market();
    let b1 = c.place_bid(acc("alice.near"), 1000, purchase(0), 100).unwrap();
    c.place_bid(acc("bob.near"), 1000, purchase(0), 100).unwrap();
    internal_accept_bid(&mut c, &acc("seller.near"), 0, b1, 200).unwrap();
    assert_eq!(
        refund_escrow_timeout(&mut c, 0, b1, 0, 10_000),
        Err(ContractError::ReentrancyLocked)
    );
    assert_eq!(balance(&c), 1000);
}

#[test]
fn lost_bid_is_claimed_after_the_delay() {
    let mut c = market();
    c.set_time_lock_config(&acc("admin.near"), 0, 0, 100).unwrap();
    let b1 = c.place_bid(acc("alice.near"), 1000, purchase(0), 100).unwrap();
    let b2 = c.place_bid(acc("bob.near"), 1000, purchase(0), 101).unwrap();
    assert_eq!(
        claim_lost_bid(&mut c, &acc("bob.near"), 0, b2, 150),
        Err(ContractError::PropertyNotSettled)
    );
    internal_accept_bid(&mut c, &acc("seller.near"), 0, b1, 200).unwrap();
    settlement_callback(&mut c, 0, b1, TransferOutcome::Success, 300, 0).unwrap();
    assert_eq!(
        claim_lost_bid(&mut c, &acc("carol.near"), 0, b2, 500),
        Err(ContractError::NotBidder)
    );
    assert_eq!(
        claim_lost_bid(&mut c, &acc("bob.near"), 0, b2, 399),
        Err(ContractError::TimeoutNotReached)
    );
    // the winner has nothing to claim
    assert_eq!(
        claim_lost_bid(&mut c, &acc("alice.near"), 0, b1, 500),
        Err(ContractError::InvalidBidStatus)
    );
    let req = claim_lost_bid(&mut c, &acc("bob.near"), 0, b2, 400).unwrap();
    assert_eq!(req.receiver_id, "bob.near");
    assert_eq!(req.amount, 1000);
    assert_eq!(c.locks.holder(&LockKey::bid(0, b2)), Some(Intent::ClaimLostBid));
    // the lock turns a second claim away
    assert_eq!(
        claim_lost_bid(&mut c, &acc("bob.near"), 0, b2, 401),
        Err(ContractError::ReentrancyLocked)
    );
    refund_callback(&mut c, 0, b2, TransferOutcome::Success, 410).unwrap();
    assert_eq!(status(&c, 0, b2), BidStatus::Cancelled);
    assert_eq!(balance(&c), 0);
    assert_eq!(
        claim_lost_bid(&mut c, &acc("bob.near"), 0, b2, 500),
        Err(ContractError::InvalidBidStatus)
    );
}

#[test]
fn bid_dispute_ends_the_bid() {
    let mut c = market();
    let b1 = c.place_bid(acc("alice.near"), 1000, purchase(0), 100).unwrap();
    assert_eq!(
        raise_bid_dispute(&mut c, &acc("alice.near"), 0, b1, acc("no answer"), 150),
        Err(ContractError::InvalidBidStatus)
    );
    accept_bid_escrow(&mut c, &acc("seller.near"), 0, b1, 200, 10).unwrap();
    assert_eq!(
        raise_bid_dispute(&mut c, &acc("bob.near"), 0, b1, acc("no answer"), 250),
        Err(ContractError::NotBidder)
    );
    raise_bid_dispute(&mut c, &acc("alice.near"), 0, b1, acc("no documents"), 250).unwrap();
    let b = c.get_bid(0, b1).unwrap();
    assert_eq!(b.status, BidStatus::Disputed);
    assert_eq!(b.dispute_reason, Some(acc("no documents")));
    assert_eq!(b.updated_at, 250);
    assert_eq!(
        refund_escrow_timeout(&mut c, 0, b1, 0, 10_000),
        Err(ContractError::InvalidBidStatus)
    );
    assert_eq!(balance(&c), 1000);
}

fn leased_market() -> (ShedaContract, u64) {
    let mut c = market();
    let b = c.place_bid(acc("tenant.near"), 1000, lease(0), 100).unwrap();
    internal_accept_bid(&mut c, &acc("seller.near"), 0, b, 200).unwrap();
    let report = settlement_callback(&mut c, 0, b, TransferOutcome::Success, 1000, 10).unwrap();
    assert_eq!(
        report.ownership,
        OwnershipTransfer { property_id: 0, from: acc("seller.near"), to: acc("tenant.near") }
    );
    (c, 0)
}

#[test]
fn lease_settlement_creates_active_lease() {
    let (c, lease_id) = leased_market();
    assert_eq!(c.get_lease_counter(), 1);
    let l = c.get_lease(lease_id).unwrap();
    assert_eq!(l.id, 0);
    assert_eq!(l.property_id, 0);
    assert_eq!(l.tenant_id, "tenant.near");
    assert_eq!(l.start_time, 1000);
    assert_eq!(l.end_time, 31_104_000_000_001_000);
    assert!(l.active);
    assert_eq!(l.dispute_status, DisputeStatus::NoDispute);
    assert_eq!(l.escrow_held, 1000);
    assert_eq!(l.escrow_token, T);
    let p = c.get_property(0).unwrap();
    assert_eq!(p.active_lease, Some(l));
    assert!(p.sold.is_none());
    assert_eq!(status(&c, 0, 0), BidStatus::Completed);
}

#[test]
fn expire_lease_twice() {
    let (mut c, lease_id) = leased_market();
    let end = c.get_lease(lease_id).unwrap().end_time;
    // not yet due: nothing happens
    assert_eq!(expire_lease(&mut c, lease_id, end - 1), Ok(None));
    assert!(c.get_lease(lease_id).unwrap().active);

    let first = expire_lease(&mut c, lease_id, end).unwrap();
    assert_eq!(
        first,
        Some(OwnershipTransfer { property_id: 0, from: acc("tenant.near"), to: acc("seller.near") })
    );
    assert!(!c.get_lease(lease_id).unwrap().active);
    assert!(c.get_property(0).unwrap().active_lease.is_none());
    let after_first_lease = c.get_lease(lease_id).unwrap();
    let after_first_property = c.get_property(0).unwrap();

    let second = expire_lease(&mut c, lease_id, end + 5).unwrap();
    assert_eq!(second, None);
    assert_eq!(c.get_lease(lease_id).unwrap(), after_first_lease);
    assert_eq!(c.get_property(0).unwrap(), after_first_property);

    assert_eq!(expire_lease(&mut c, 7, end), Err(ContractError::LeaseNotFound));
}

#[test]
fn lease_sweep_is_idempotent_and_bounded() {
    let (mut c, _) = leased_market();
    c.list_property(&acc("seller.near"), acc("Flat"), acc("ipfs://Qm2"), 10, false, Some(1), None, 10).unwrap();
    let b = c.place_bid(acc("other.near"), 10, lease(1), 100).unwrap();
    internal_accept_bid(&mut c, &acc("seller.near"), 1, b, 200).unwrap();
    settlement_callback(&mut c, 1, b, TransferOutcome::Success, 1000, 10).unwrap();
    assert_eq!(c.get_lease_counter(), 2);
    let late = u64::MAX;

    let part = internal_cron_check_leases(&mut c, late, 0, 1);
    assert_eq!(part.transfers.len(), 1);
    assert_eq!(part.transfers[0].property_id, 0);
    assert_eq!(part.next_index, 1);
    assert!(c.get_lease(1).unwrap().active);

    let rest = internal_cron_check_leases(&mut c, late, part.next_index, 10);
    assert_eq!(rest.transfers.len(), 1);
    assert_eq!(rest.transfers[0].property_id, 1);
    assert_eq!(rest.transfers[0].from, "other.near");
    assert_eq!(rest.next_index, 2);
    assert!(!c.get_lease(1).unwrap().active);

    let again = internal_cron_check_leases(&mut c, late, 0, 10);
    assert!(again.transfers.is_empty());
    assert_eq!(again.next_index, 2);
    assert!(!c.get_lease(0).unwrap().active);
    assert!(!c.get_lease(1).unwrap().active);
}

#[test]
fn dispute_raised_and_resolved_for_tenant() {
    let (mut c, lease_id) = leased_market();
    // the payout went to the owner; the store holds other deposits
    c.list_property(&acc("seller.near"), acc("Flat"), acc("ipfs://Qm2"), 5000, true, None, None, 10).unwrap();
    c.place_bid(acc("dave.near"), 5000, purchase(1), 1100).unwrap();

    assert_eq!(
        internal_raise_dispute(&mut c, &acc("seller.near"), lease_id, acc("leak"), 2000),
        Err(ContractError::UnauthorizedAccess)
    );
    assert_eq!(
        internal_raise_dispute(&mut c, &acc("tenant.near"), 9, acc("leak"), 2000),
        Err(ContractError::LeaseNotFound)
    );
    internal_raise_dispute(&mut c, &acc("tenant.near"), lease_id, acc("leak"), 2000).unwrap();
    let l = c.get_lease(lease_id).unwrap();
    assert_eq!(l.dispute_status, DisputeStatus::Raised);
    let info = l.dispute.clone().unwrap();
    assert_eq!(info.raised_by, "tenant.near");
    assert_eq!(info.reason, "leak");
    assert_eq!(info.raised_at, 2000);
    assert_eq!(c.get_property(0).unwrap().active_lease, Some(l));
    assert_eq!(
        internal_raise_dispute(&mut c, &acc("tenant.near"), lease_id, acc("again"), 2001),
        Err(ContractError::DisputeAlreadyRaised)
    );

    assert_eq!(
        c.resolve_dispute(&acc("tenant.near"), lease_id, DisputeWinner::Tenant, 5000, 3000),
        Err(ContractError::UnauthorizedAccess)
    );
    assert_eq!(
        c.resolve_dispute(&acc("admin.near"), 9, DisputeWinner::Tenant, 5000, 3000),
        Err(ContractError::LeaseNotFound)
    );
    let before = balance(&c);
    let report = c.resolve_dispute(&acc("admin.near"), lease_id, DisputeWinner::Tenant, 5000, 3000).unwrap();
    assert_eq!(
        report.payout,
        WithdrawRequest { token: acc(T), receiver_id: acc("tenant.near"), amount: 1000 }
    );
    assert!(report.payout.amount <= 1000);
    assert_eq!(
        report.ownership,
        Some(OwnershipTransfer { property_id: 0, from: acc("tenant.near"), to: acc("seller.near") })
    );
    assert_eq!(balance(&c), before - 1000);
    let l = c.get_lease(lease_id).unwrap();
    assert_eq!(l.dispute_status, DisputeStatus::Resolved);
    assert_eq!(l.escrow_held, 0);
    assert!(!l.active);
    let res = l.resolution.clone().unwrap();
    assert_eq!(res.winner, DisputeWinner::Tenant);
    assert_eq!(res.payout, 1000);
    assert_eq!(res.resolved_by, "admin.near");
    assert_eq!(res.resolved_at, 3000);
    assert_eq!(c.get_property(0).unwrap().active_lease, None);
    // the lease is over: expiry finds nothing to do
    assert_eq!(expire_lease(&mut c, lease_id, u64::MAX), Ok(None));
    assert_eq!(
        c.resolve_dispute(&acc("admin.near"), lease_id, DisputeWinner::Tenant, 1, 3001),
        Err(ContractError::DisputeAlreadyRaised)
    );
}

#[test]
fn dispute_resolved_for_owner_below_the_cap() {
    let (mut c, lease_id) = leased_market();
    c.list_property(&acc("seller.near"), acc("Flat"), acc("ipfs://Qm2"), 5000, true, None, None, 10).unwrap();
    c.place_bid(acc("dave.near"), 5000, purchase(1), 1100).unwrap();
    assert_eq!(
        c.resolve_dispute(&acc("admin.near"), lease_id, DisputeWinner::Owner, 1, 3000),
        Err(ContractError::DisputeAlreadyRaised)
    );
    internal_raise_dispute(&mut c, &acc("tenant.near"), lease_id, acc("leak"), 2000).unwrap();
    let report = c.resolve_dispute(&acc("admin.near"), lease_id, DisputeWinner::Owner, 400, 3000).unwrap();
    assert_eq!(
        report.payout,
        WithdrawRequest { token: acc(T), receiver_id: acc("seller.near"), amount: 400 }
    );
    assert_eq!(c.get_lease(lease_id).unwrap().escrow_held, 600);
    assert_eq!(balance(&c), 4600);
    // a failed payout is credited back
    assert_eq!(
        c.withdraw_callback(&acc(T), 400, TransferOutcome::Failure),
        Err(ContractError::TransferFailed)
    );
    assert_eq!(balance(&c), 5000);
}

#[test]
fn dispute_payout_needs_cover() {
    let (mut c, lease_id) = leased_market();
    internal_raise_dispute(&mut c, &acc("tenant.near"), lease_id, acc("leak"), 2000).unwrap();
    assert_eq!(balance(&c), 0);
    assert_eq!(
        c.resolve_dispute(&acc("admin.near"), lease_id, DisputeWinner::Tenant, 10, 3000),
        Err(ContractError::BalanceUnderflow)
    );
    assert_eq!(c.get_lease(lease_id).unwrap().dispute_status, DisputeStatus::Raised);
    // a payout of nothing needs no cover
    let report = c.resolve_dispute(&acc("admin.near"), lease_id, DisputeWinner::Tenant, 0, 3000).unwrap();
    assert_eq!(report.payout.amount, 0);
    assert_eq!(c.get_lease(lease_id).unwrap().escrow_held, 1000);
}

#[test]
fn dispute_needs_an_active_lease() {
    let (mut c, lease_id) = leased_market();
    expire_lease(&mut c, lease_id, u64::MAX).unwrap();
    assert_eq!(
        internal_raise_dispute(&mut c, &acc("tenant.near"), lease_id, acc("late"), 2000),
        Err(ContractError::LeaseNotActive)
    );
}

#[test]
fn leased_property_takes_no_second_lease() {
    let (mut c, _) = leased_market();
    let b = c.place_bid(acc("bob.near"), 1000, lease(0), 1500).unwrap();
    assert_eq!(
        internal_accept_bid(&mut c, &acc("seller.near"), 0, b, 1600),
        Err(ContractError::PropertyHasActiveLease)
    );
    // the bid lost: its bidder may claim it back
    let req = claim_lost_bid(&mut c, &acc("bob.near"), 0, b, 1700).unwrap();
    assert_eq!(req.amount, 1000);
}

#[test]
fn used_up_bid_ids_refuse_a_deposit() {
    let mut c = market();
    c.bid_counter = u64::MAX;
    assert!(c.is_well_formed());
    assert_eq!(
        c.place_bid(acc("alice.near"), 1000, purchase(0), 100),
        Err(ContractError::CounterOverflow)
    );
    assert_eq!(balance(&c), 0);
}

#[test]
fn payout_outcome_is_not_taken_for_a_property_that_went_elsewhere() {
    let mut c = market();
    let b1 = c.place_bid(acc("alice.near"), 1000, purchase(0), 100).unwrap();
    internal_accept_bid(&mut c, &acc("seller.near"), 0, b1, 200).unwrap();
    // a store put together from parts in which the property is sold already
    let p = c.properties[0].as_mut().unwrap();
    p.is_for_sale = false;
    p.sold = Some(sheda_contract::models::Sold {
        property_id: 0,
        buyer_id: acc("zoe.near"),
        amount: 1000,
        previous_owner_id: acc("seller.near"),
        sold_at: 150,
    });
    assert!(c.is_well_formed());
    assert_eq!(
        settlement_callback(&mut c, 0, b1, TransferOutcome::Success, 300, 10),
        Err(ContractError::PropertySold)
    );
    assert_eq!(status(&c, 0, b1), BidStatus::Accepted);
    assert_eq!(c.get_property(0).unwrap().sold.unwrap().buyer_id, "zoe.near");
    // a failed payout is still compensated
    assert_eq!(
        settlement_callback(&mut c, 0, b1, TransferOutcome::Failure, 300, 10),
        Err(ContractError::TransferFailed)
    );
    assert_eq!(balance(&c), 1000);
    // the bid lost: its bidder claims it back
    assert!(claim_lost_bid(&mut c, &acc("alice.near"), 0, b1, 400).is_ok());
}

#[test]
fn escrow_is_not_released_on_a_leased_property() {
    let mut c = market();
    let b1 = c.place_bid(acc("alice.near"), 1000, purchase(0), 100).unwrap();
    accept_bid_escrow(&mut c, &acc("seller.near"), 0, b1, 200, 10).unwrap();
    confirm_document_release(&mut c, &acc("seller.near"), 0, b1, acc("doc"), 220).unwrap();
    confirm_document_receipt(&mut c, &acc("alice.near"), 0, b1, 230).unwrap();
    let p = c.properties[0].as_mut().unwrap();
    p.active_lease = Some(sheda_contract::models::Lease {
        id: 0,
        property_id: 0,
        tenant_id: acc("tenant.near"),
        start_time: 1,
        end_time: 2,
        active: true,
        dispute_status: DisputeStatus::NoDispute,
        dispute: None,
        resolution: None,
        escrow_held: 0,
        escrow_token: acc(T),
    });
    assert_eq!(
        release_escrow(&mut c, &acc("alice.near"), 0, b1),
        Err(ContractError::PropertyHasActiveLease)
    );
    assert_eq!(balance(&c), 1000);
}

#[test]
fn refunded_bid_is_not_claimed_again() {
    let mut c = market();
    let b1 = c.place_bid(acc("alice.near"), 1000, purchase(0), 100).unwrap();
    let b2 = c.place_bid(acc("bob.near"), 1000, purchase(0), 101).unwrap();
    c.place_bid(acc("carol.near"), 1000, purchase(0), 102).unwrap();
    internal_reject_bid(&mut c, &acc("seller.near"), 0, b2).unwrap();
    refund_callback(&mut c, 0, b2, TransferOutcome::Success, 110).unwrap();
    internal_accept_bid(&mut c, &acc("seller.near"), 0, b1, 200).unwrap();
    settlement_callback(&mut c, 0, b1, TransferOutcome::Success, 300, 0).unwrap();
    assert_eq!(balance(&c), 1000);
    assert_eq!(status(&c, 0, b2), BidStatus::Rejected);
    assert_eq!(
        claim_lost_bid(&mut c, &acc("bob.near"), 0, b2, 400),
        Err(ContractError::BidAlreadySettled)
    );
    assert_eq!(status(&c, 0, b2), BidStatus::Rejected);
    assert_eq!(balance(&c), 1000);
}

#[test]
fn batch_of_refunds_is_refused_where_the_ledger_is_short() {
    let mut c = market();
    let b1 = c.place_bid(acc("alice.near"), 1000, purchase(0), 100).unwrap();
    let b2 = c.place_bid(acc("bob.near"), 1000, purchase(0), 101).unwrap();
    c.emergency_withdraw(&acc("admin.near"), &acc("vault.near")).unwrap();
    assert_eq!(balance(&c), 0);
    assert_eq!(
        c.refund_bids(&acc("admin.near"), 0, 0, 5),
        Err(ContractError::BalanceUnderflow)
    );
    assert!(!locked(&c, 0, b1));
    assert!(!locked(&c, 0, b2));
    assert_eq!(status(&c, 0, b1), BidStatus::Pending);
    // a budget that reaches no bid is not refused
    assert_eq!(c.refund_bids(&acc("admin.near"), 0, 0, 0).unwrap().next_index, 0);
    assert_eq!(c.refund_bids(&acc("admin.near"), 0, 2, 5).unwrap().next_index, 2);
    // the ledger covers the first bid only: nothing of the batch is written
    c.withdraw_callback(&acc(T), 1500, TransferOutcome::Failure).unwrap_err();
    assert_eq!(balance(&c), 1500);
    assert_eq!(
        c.refund_bids(&acc("admin.near"), 0, 0, 5),
        Err(ContractError::BalanceUnderflow)
    );
    assert_eq!(balance(&c), 1500);
    assert!(!locked(&c, 0, b1));
    let one = c.refund_bids(&acc("admin.near"), 0, 0, 1).unwrap();
    assert_eq!(one.refunds.len(), 1);
    assert_eq!(one.next_index, 1);
    assert_eq!(balance(&c), 500);
    // a bid that a saga holds is passed over
    let rest = c.refund_bids(&acc("admin.near"), 0, 0, 1).unwrap();
    assert!(rest.refunds.is_empty());
    assert_eq!(rest.next_index, 1);
}

#[test]
fn acceptance_is_refused_where_the_ledger_is_short_for_the_others() {
    let mut c = market();
    let b1 = c.place_bid(acc("alice.near"), 1000, purchase(0), 100).unwrap();
    let b2 = c.place_bid(acc("bob.near"), 1000, purchase(0), 101).unwrap();
    c.withdraw_stablecoin(&acc("admin.near"), &acc(T), 1500).unwrap();
    assert_eq!(
        accept_bid_escrow(&mut c, &acc("seller.near"), 0, b1, 200, 5),
        Err(ContractError::BalanceUnderflow)
    );
    assert_eq!(status(&c, 0, b1), BidStatus::Pending);
    assert!(!locked(&c, 0, b2));
    assert_eq!(balance(&c), 500);
    // with a budget that does not reach the other bid the bid is accepted
    assert!(accept_bid_escrow(&mut c, &acc("seller.near"), 0, b1, 200, 1).is_ok());
    assert_eq!(status(&c, 0, b1), BidStatus::Accepted);
    assert_eq!(status(&c, 0, b2), BidStatus::Pending);
}

#[test]
fn payout_outcome_is_not_taken_where_the_ledger_is_short_for_the_others() {
    let mut c = market();
    let b1 = c.place_bid(acc("alice.near"), 1000, purchase(0), 100).unwrap();
    let b2 = c.place_bid(acc("bob.near"), 1000, purchase(0), 101).unwrap();
    internal_accept_bid(&mut c, &acc("seller.near"), 0, b1, 200).unwrap();
    c.withdraw_stablecoin(&acc("admin.near"), &acc(T), 1).unwrap();
    assert_eq!(
        settlement_callback(&mut c, 0, b1, TransferOutcome::Success, 300, 10),
        Err(ContractError::BalanceUnderflow)
    );
    assert_eq!(status(&c, 0, b1), BidStatus::Accepted);
    assert!(locked(&c, 0, b1));
    assert!(c.get_property(0).unwrap().sold.is_none());
    assert!(!locked(&c, 0, b2));
    assert_eq!(balance(&c), 999);
    // the outcome is taken with a budget that leaves the other bid alone
    let report = settlement_callback(&mut c, 0, b1, TransferOutcome::Success, 300, 1).unwrap();
    assert!(report.refunds.is_empty());
    assert_eq!(status(&c, 0, b1), BidStatus::Completed);
}

#[test]
fn lease_that_would_end_beyond_time_is_not_settled() {
    let mut c = market();
    let b = c.place_bid(acc("tenant.near"), 1000, lease(0), 100).unwrap();
    internal_accept_bid(&mut c, &acc("seller.near"), 0, b, 200).unwrap();
    assert_eq!(
        settlement_callback(&mut c, 0, b, TransferOutcome::Success, u64::MAX - 5, 0),
        Err(ContractError::TimestampOverflow)
    );
    assert_eq!(status(&c, 0, b), BidStatus::Accepted);
    assert_eq!(c.get_lease_counter(), 0);
    assert!(settlement_callback(&mut c, 0, b, TransferOutcome::Success, 300, 0).is_ok());
}

#[test]
fn ownership_is_not_confirmed_twice() {
    let mut c = market();
    let b1 = c.place_bid(acc("alice.near"), 1000, purchase(0), 100).unwrap();
    accept_bid_escrow(&mut c, &acc("seller.near"), 0, b1, 200, 10).unwrap();
    confirm_document_release(&mut c, &acc("seller.near"), 0, b1, acc("doc"), 220).unwrap();
    confirm_document_receipt(&mut c, &acc("alice.near"), 0, b1, 230).unwrap();
    release_escrow(&mut c, &acc("alice.near"), 0, b1).unwrap();
    settlement_callback(&mut c, 0, b1, TransferOutcome::Success, 240, 10).unwrap();
    assert_eq!(confirm_ownership_transfer(&mut c, 0, b1, 250), Ok(()));
    assert_eq!(
        confirm_ownership_transfer(&mut c, 0, b1, 260),
        Err(ContractError::InvalidBidStatus)
    );
    assert_eq!(confirm_ownership_transfer(&mut c, 0, 9, 260), Err(ContractError::BidNotFound));
}

#[test]
fn arbitration_resolves_a_dispute() {
    let (mut c, lease_id) = leased_market();
    c.list_property(&acc("seller.near"), acc("Flat"), acc("ipfs://Qm2"), 5000, true, None, None, 10).unwrap();
    c.place_bid(acc("dave.near"), 5000, purchase(1), 1100).unwrap();
    assert_eq!(
        c.set_dispute_arbiter(&acc("tenant.near"), Some(acc("tenant.near"))),
        Err(ContractError::UnauthorizedAccess)
    );
    assert_eq!(
        c.resolve_dispute_by_arbitration(&acc("oracle.near"), lease_id, DisputeWinner::Owner, 700, 3000),
        Err(ContractError::DisputeAlreadyRaised)
    );
    assert_eq!(
        c.resolve_dispute_by_arbitration(&acc("oracle.near"), 9, DisputeWinner::Owner, 700, 3000),
        Err(ContractError::LeaseNotFound)
    );
    internal_raise_dispute(&mut c, &acc("tenant.near"), lease_id, acc("leak"), 2000).unwrap();
    // no arbiter is named: no result is taken
    assert_eq!(
        c.resolve_dispute_by_arbitration(&acc("oracle.near"), lease_id, DisputeWinner::Owner, 700, 3000),
        Err(ContractError::UnauthorizedAccess)
    );
    c.set_dispute_arbiter(&acc("admin.near"), Some(acc("oracle.near"))).unwrap();
    assert_eq!(c.get_dispute_arbiter(), Some(acc("oracle.near")));
    // a result from another account than the arbiter is not taken
    assert_eq!(
        c.resolve_dispute_by_arbitration(&acc("tenant.near"), lease_id, DisputeWinner::Tenant, 700, 3000),
        Err(ContractError::UnauthorizedAccess)
    );
    assert_eq!(c.get_lease(lease_id).unwrap().dispute_status, DisputeStatus::Raised);
    let report = c
        .resolve_dispute_by_arbitration(&acc("oracle.near"), lease_id, DisputeWinner::Owner, 700, 3000)
        .unwrap();
    assert_eq!(
        report.payout,
        WithdrawRequest { token: acc(T), receiver_id: acc("seller.near"), amount: 700 }
    );
    assert_eq!(
        report.ownership,
        Some(OwnershipTransfer { property_id: 0, from: acc("tenant.near"), to: acc("seller.near") })
    );
    let l = c.get_lease(lease_id).unwrap();
    assert_eq!(l.dispute_status, DisputeStatus::Resolved);
    assert_eq!(l.dispute.clone().unwrap().oracle_result, Some(DisputeWinner::Owner));
    assert_eq!(l.dispute.clone().unwrap().reason, "leak");
    let res = l.resolution.clone().unwrap();
    assert_eq!(res.resolved_by, "oracle.near");
    assert_eq!(res.resolved_at, 3000);
    assert_eq!(res.payout, 700);
    assert_eq!(l.escrow_held, 300);
    assert!(!l.active);
    assert_eq!(balance(&c), 4300);
}

#[test]
fn admin_resolution_keeps_no_arbitration_result() {
    let (mut c, lease_id) = leased_market();
    internal_raise_dispute(&mut c, &acc("tenant.near"), lease_id, acc("leak"), 2000).unwrap();
    c.resolve_dispute(&acc("admin.near"), lease_id, DisputeWinner::Tenant, 0, 3000).unwrap();
    assert_eq!(c.get_lease(lease_id).unwrap().dispute.unwrap().oracle_result, None);
}

#[test]
fn property_is_held_while_a_payout_is_under_way() {
    let mut c = market();
    c.add_admin(&acc("admin.near"), acc("second.near")).unwrap();
    let b1 = c.place_bid(acc("alice.near"), 1000, purchase(0), 100).unwrap();
    assert!(!c.is_property_locked(0));
    internal_accept_bid(&mut c, &acc("seller.near"), 0, b1, 200).unwrap();
    assert!(c.is_property_locked(0));
    assert_eq!(c.locks.holder(&LockKey::property(0)), Some(Intent::Accept));
    assert_eq!(
        sheda_contract::internal::internal_delist_property(&mut c, &acc("seller.near"), 0),
        Err(ContractError::ReentrancyLocked)
    );
    assert_eq!(
        sheda_contract::internal::internal_delete_property(&mut c, &acc("seller.near"), 0, acc("burn.near")),
        Err(ContractError::ReentrancyLocked)
    );
    assert_eq!(
        c.admin_delete_property(&acc("second.near"), 0, acc("burn.near")),
        Err(ContractError::ReentrancyLocked)
    );
    assert!(c.get_property(0).is_some());
    // a failed payout gives the property back
    settlement_callback(&mut c, 0, b1, TransferOutcome::Failure, 300, 10).unwrap_err();
    assert!(!c.is_property_locked(0));
    assert!(sheda_contract::internal::internal_delist_property(&mut c, &acc("seller.near"), 0).is_ok());
    // and so does a confirmed one
    internal_accept_bid(&mut c, &acc("seller.near"), 0, b1, 400).unwrap();
    assert!(c.is_property_locked(0));
    settlement_callback(&mut c, 0, b1, TransferOutcome::Success, 500, 10).unwrap();
    assert!(!c.is_property_locked(0));
    assert!(c.is_well_formed());
}

#[test]
fn escrow_release_holds_the_property_too() {
    let mut c = market();
    let b1 = c.place_bid(acc("alice.near"), 1000, purchase(0), 100).unwrap();
    accept_bid_escrow(&mut c, &acc("seller.near"), 0, b1, 200, 10).unwrap();
    assert!(!c.is_property_locked(0));
    confirm_document_release(&mut c, &acc("seller.near"), 0, b1, acc("doc"), 220).unwrap();
    confirm_document_receipt(&mut c, &acc("alice.near"), 0, b1, 230).unwrap();
    release_escrow(&mut c, &acc("alice.near"), 0, b1).unwrap();
    assert!(c.is_property_locked(0));
    assert_eq!(c.locks.holder(&LockKey::property(0)), Some(Intent::ReleaseEscrow));
    assert_eq!(
        sheda_contract::internal::internal_delete_property(&mut c, &acc("seller.near"), 0, acc("burn.near")),
        Err(ContractError::ReentrancyLocked)
    );
    settlement_callback(&mut c, 0, b1, TransferOutcome::Success, 240, 10).unwrap();
    assert!(!c.is_property_locked(0));
}
