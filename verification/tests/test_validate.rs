use sheda_contract::guard::{Intent, Lock, LockKey};
use sheda_contract::ledger::LedgerEntry;
use sheda_contract::models::{Action, BidAction};
use sheda_contract::validate::{accounts_are_distinct, bids_are_in_order};
use sheda_contract::ShedaContract;

fn acc(name: &str) -> String {
    name.to_string()
}

fn store() -> ShedaContract {
    let mut c = ShedaContract::new(acc("admin.near"));
    c.add_supported_stablecoin(&acc("admin.near"), acc("usdc.near")).unwrap();
    c.add_admin(&acc("admin.near"), acc("second.near")).unwrap();
    for i in 0..2u64 {
        c.list_property(&acc("seller.near"), acc("House"), acc("ipfs://Qm"), 10, true, Some(1), None, i)
            .unwrap();
    }
    for i in 0..3u64 {
        let msg = BidAction {
            property_id: i % 2,
            action: Action::Purchase,
            stablecoin_token: acc("usdc.near"),
        };
        c.place_bid(format!("bidder{}.near", i), 10, msg, 5).unwrap();
    }
    c
}

#[test]
fn stores_built_by_operations_are_consistent() {
    assert!(ShedaContract::new(acc("admin.near")).is_well_formed());
    let mut c = store();
    assert!(c.is_well_formed());
    sheda_contract::internal::internal_cancel_bid(&mut c, &acc("bidder0.near"), 0, 0).unwrap();
    assert!(c.is_well_formed());
    sheda_contract::internal::internal_delete_property(&mut c, &acc("seller.near"), 1, acc("burn.near"))
        .unwrap();
    assert!(c.is_well_formed());
}

#[test]
fn wrong_counters_are_found() {
    let mut c = store();
    c.property_counter = 3;
    assert!(!c.is_well_formed());
    let mut c = store();
    c.lease_counter = 1;
    assert!(!c.is_well_formed());
    let mut c = store();
    c.bid_counter = 2;
    assert!(!c.is_well_formed());
    let mut c = store();
    c.bids.pop();
    assert!(!c.is_well_formed());
}

#[test]
fn misplaced_entities_are_found() {
    let mut c = store();
    c.properties.swap(0, 1);
    assert!(!c.is_well_formed());
    let mut c = store();
    c.bids[0].swap(0, 1);
    assert!(!c.is_well_formed());
    let mut c = store();
    c.bids[0][0].property_id = 1;
    assert!(!c.is_well_formed());
    let mut c = store();
    let twin = c.bids[0][0].clone();
    c.bids[0].insert(0, twin);
    assert!(!c.is_well_formed());
}

#[test]
fn sold_property_for_sale_is_found() {
    let mut c = store();
    let p = c.properties[0].as_mut().unwrap();
    p.sold = Some(sheda_contract::models::Sold {
        property_id: 0,
        buyer_id: acc("b.near"),
        amount: 10,
        previous_owner_id: acc("seller.near"),
        sold_at: 1,
    });
    assert!(!c.is_well_formed());
    c.properties[0].as_mut().unwrap().is_for_sale = false;
    assert!(c.is_well_formed());
}

#[test]
fn repeated_names_and_keys_are_found() {
    let mut c = store();
    c.admins.push(acc("admin.near"));
    assert!(!c.is_well_formed());
    let mut c = store();
    c.accepted_stablecoin.push(acc("usdc.near"));
    assert!(!c.is_well_formed());
    let mut c = store();
    c.stable_coin_balances.entries.push(LedgerEntry { token: acc("usdc.near"), amount: 1 });
    assert!(!c.is_well_formed());
    assert!(!c.stable_coin_balances.is_well_formed());
    let mut c = store();
    c.locks.held.push(Lock { key: LockKey::bid(0, 0), intent: Intent::Reject });
    assert!(c.is_well_formed());
    c.locks.held.push(Lock { key: LockKey::bid(0, 0), intent: Intent::Cancel });
    assert!(!c.is_well_formed());
    assert!(!c.locks.is_well_formed());
}

#[test]
fn list_checks() {
    assert!(accounts_are_distinct(&vec![]));
    assert!(accounts_are_distinct(&vec![acc("a"), acc("b"), acc("c")]));
    assert!(!accounts_are_distinct(&vec![acc("a"), acc("b"), acc("a")]));
    let c = store();
    assert!(bids_are_in_order(&c.bids[0], 0, 3));
    assert!(!bids_are_in_order(&c.bids[0], 0, 2));
    assert!(!bids_are_in_order(&c.bids[0], 1, 3));
    assert!(bids_are_in_order(&vec![], 7, 0));
}

#[test]
fn held_bid_at_its_end_is_found() {
    let mut c = store();
    c.locks.held.push(Lock { key: LockKey::bid(0, 0), intent: Intent::Cancel });
    assert!(c.is_well_formed());
    c.bids[0][0].status = sheda_contract::models::BidStatus::Cancelled;
    assert!(!c.is_well_formed());
    c.locks.held.clear();
    assert!(c.is_well_formed());
}

#[test]
fn rejected_bid_without_refund_is_found() {
    let mut c = store();
    c.bids[0][0].status = sheda_contract::models::BidStatus::Rejected;
    assert!(!c.is_well_formed());
    c.bids[0][0].settled_at = Some(9);
    assert!(c.is_well_formed());
}

#[test]
fn active_lease_that_its_property_does_not_show_is_found() {
    let mut c = store();
    let lease = sheda_contract::models::Lease {
        id: 0,
        property_id: 1,
        tenant_id: acc("tenant.near"),
        start_time: 1,
        end_time: 2,
        active: true,
        dispute_status: sheda_contract::models::DisputeStatus::NoDispute,
        dispute: None,
        resolution: None,
        escrow_held: 0,
        escrow_token: acc("usdc.near"),
    };
    c.leases.push(lease.clone());
    c.lease_counter = 1;
    assert!(!c.is_well_formed());
    c.properties[1].as_mut().unwrap().active_lease = Some(lease);
    assert!(c.is_well_formed());
    c.leases[0].active = false;
    assert!(c.is_well_formed());
}

#[test]
fn wrong_listing_order_is_found() {
    let mut c = store();
    assert_eq!(c.property_order, vec![0, 1]);
    c.property_order.pop();
    assert!(!c.is_well_formed());
    let mut c = store();
    c.property_order.push(0);
    assert!(!c.is_well_formed());
    let mut c = store();
    c.property_order[1] = 7;
    assert!(!c.is_well_formed());
    let mut c = store();
    c.property_order.swap(0, 1);
    assert!(c.is_well_formed());
    c.properties[1] = None;
    assert!(!c.is_well_formed());
}
