use sheda_contract::internal::{
    internal_accept_bid, internal_cancel_bid, internal_cron_check_leases, internal_delete_property,
    internal_delist_property, internal_raise_dispute, internal_reject_bid, refund_callback,
    settlement_callback,
};
use sheda_contract::models::{
    Action, BidAction, BidStatus, ContractError, DisputeStatus, OwnershipTransfer, TransferOutcome,
    WithdrawRequest,
};
use sheda_contract::transfer_hook::TransferHook;
use sheda_contract::views::{BidView, DisputeStatusView, LeaseView, PropertyView};
use sheda_contract::ShedaContract;

fn acc(name: &str) -> String {
    name.to_string()
}

/// The store of `owner.near` with `stable.near` as accepted token.
fn init_contract() -> (ShedaContract, String, String) {
    let owner = acc("owner.near");
    let user = acc("user.near");
    let mut contract = ShedaContract::new(owner.clone());
    contract.add_supported_stablecoin(&owner, acc("stable.near")).unwrap();
    (contract, owner, user)
}

fn mint(contract: &mut ShedaContract, owner: &String, description: &str, price: u128, months: Option<u64>) -> u64 {
    contract
        .list_property(owner, description.to_string(), acc("ipfs://QmXxx"), price, true, months, None, 1)
        .unwrap()
}

fn purchase(property_id: u64) -> BidAction {
    BidAction { property_id, action: Action::Purchase, stablecoin_token: acc("stable.near") }
}

#[test]
fn test_contract_deployment_and_initialization() {
    let (contract, _owner, _user) = init_contract();
    let property_counter: u64 = contract.get_property_counter();
    let bid_counter: u64 = contract.get_bid_counter();
    let lease_counter: u64 = contract.get_lease_counter();
    assert_eq!(property_counter, 0);
    assert_eq!(bid_counter, 0);
    assert_eq!(lease_counter, 0);
    let admins: Vec<String> = contract.get_all_admins();
    assert!(!admins.is_empty(), "Admin list should not be empty");
    let properties: Vec<PropertyView> = contract.get_properties(0, 10);
    assert_eq!(properties.len(), 0, "Should have no properties initially");
}

#[test]
fn test_owner_is_admin() {
    let (contract, _owner, _user) = init_contract();
    let owner_id: String = contract.get_owner_id();
    let admins: Vec<String> = contract.get_all_admins();
    assert!(admins.contains(&owner_id), "Owner should be in admin list");
}

#[test]
fn new_store_holds_nothing_but_its_owner() {
    let (contract, owner, _user) = init_contract();
    assert_eq!(contract.get_owner_id(), owner);
    assert_eq!(contract.get_all_admins(), vec![owner.clone()]);
    assert!(contract.is_admin(&owner));
    assert_eq!(contract.get_time_lock_config(), (0, 0, 0));
    assert_eq!(contract.get_dispute_arbiter(), None);
    assert_eq!(contract.escrow_timeout(), None);
    assert_eq!(contract.get_supported_stablecoins(), vec![acc("stable.near")]);
    assert_eq!(contract.get_stablecoin_balance(&acc("stable.near")), 0);
    assert!(contract.is_well_formed());
}

#[test]
fn test_time_lock_config_roundtrip() {
    let (mut contract, owner, user) = init_contract();
    let new_config = (123_u64, 456_u64, 789_u64);
    let outcome = contract.set_time_lock_config(&owner, new_config.0, new_config.1, new_config.2);
    assert!(outcome.is_ok(), "Config update should succeed");
    let config: (u64, u64, u64) = contract.get_time_lock_config();
    assert_eq!(config, new_config);
    assert_eq!(
        contract.set_time_lock_config(&user, 1, 2, 3),
        Err(ContractError::UnauthorizedAccess)
    );
    assert_eq!(contract.get_time_lock_config(), new_config);
}

#[test]
fn test_mint_property() {
    let (mut contract, owner, _user) = init_contract();
    let outcome = contract.list_property(
        &owner,
        acc("Beautiful beach house"),
        acc("ipfs://QmXxx"),
        1000000,
        true,
        Some(12),
        Some(acc("stable.near")),
        55,
    );
    assert!(outcome.is_ok(), "Mint property failed");
    let property_id: u64 = outcome.unwrap();
    assert_eq!(property_id, 0, "First property should have ID 0");
    let property = contract.get_property_by_id(property_id);
    assert!(property.is_some(), "Property should exist");
    let p = contract.get_property(property_id).unwrap();
    assert_eq!(p.id, 0);
    assert_eq!(p.owner_id, owner);
    assert_eq!(p.description, "Beautiful beach house");
    assert_eq!(p.metadata_uri, "ipfs://QmXxx");
    assert_eq!(p.price, 1000000);
    assert!(p.is_for_sale);
    assert_eq!(p.lease_duration_months, Some(12));
    assert_eq!(p.damage_escrow, 0);
    assert_eq!(p.escrow_token, Some(acc("stable.near")));
    assert_eq!(p.active_lease, None);
    assert_eq!(p.sold, None);
    assert_eq!(p.timestamp, 55);
}

#[test]
fn test_mint_multiple_properties() {
    let (mut contract, owner, _user) = init_contract();
    for i in 0..3 {
        let outcome = contract.list_property(
            &owner,
            format!("Description {}", i),
            format!("ipfs://QmXxx{}", i),
            1000000,
            true,
            None,
            None,
            1,
        );
        assert!(outcome.is_ok());
        let property_id: u64 = outcome.unwrap();
        assert_eq!(property_id, i);
    }
    let property_counter: u64 = contract.get_property_counter();
    assert_eq!(property_counter, 3);
}

#[test]
fn test_unsupported_stablecoin_rejected() {
    let (mut contract, owner, _user) = init_contract();
    let property_id = mint(&mut contract, &owner, "Test", 1000000, None);
    let msg = BidAction {
        property_id,
        action: Action::Purchase,
        stablecoin_token: acc("unsupported.near"),
    };
    let outcome = contract.ft_on_transfer(&acc("unsupported.near"), owner.clone(), 1000000, msg, 5);
    assert!(outcome.is_err(), "Should fail for unsupported stablecoin");
    assert_eq!(outcome, Err(ContractError::UnsupportedToken));
}

#[test]
fn test_incorrect_bid_amount() {
    let (mut contract, owner, _user) = init_contract();
    let property_id = mint(&mut contract, &owner, "Test", 1000000, None);
    let outcome = contract.ft_on_transfer(&acc("stable.near"), owner.clone(), 999999, purchase(property_id), 5);
    assert_eq!(outcome, Ok(999999));
    assert_eq!(contract.get_bid_counter(), 0);
    assert!(contract.get_bids_for_property(property_id).is_empty());
}

#[test]
fn test_accept_bid_non_owner_fails() {
    let (mut contract, owner, user) = init_contract();
    let property_id = mint(&mut contract, &owner, "Test", 1000000, None);
    let outcome = internal_accept_bid(&mut contract, &user, property_id, 0, 10);
    assert!(outcome.is_err(), "Non-owner should not accept bids");
    contract.place_bid(acc("bidder.near"), 1000000, purchase(property_id), 5).unwrap();
    assert_eq!(
        internal_accept_bid(&mut contract, &user, property_id, 0, 10),
        Err(ContractError::NotPropertyOwner)
    );
}

#[test]
fn test_cannot_transfer_nft_during_active_lease() {
    let (mut contract, owner, user) = init_contract();
    let property_id = mint(&mut contract, &owner, "Test", 1000, Some(6));
    assert_eq!(TransferHook::hook(&contract, property_id), Ok(()));
    assert_eq!(TransferHook::hook(&contract, 5), Err(ContractError::PropertyNotFound));
    let msg = BidAction { property_id, action: Action::Lease, stablecoin_token: acc("stable.near") };
    let bid = contract.place_bid(user.clone(), 1000, msg, 5).unwrap();
    internal_accept_bid(&mut contract, &owner, property_id, bid, 10).unwrap();
    settlement_callback(&mut contract, property_id, bid, TransferOutcome::Success, 20, 5).unwrap();
    assert_eq!(
        TransferHook::hook(&contract, property_id),
        Err(ContractError::PropertyHasActiveLease)
    );
    assert_eq!(
        internal_delist_property(&mut contract, &owner, property_id),
        Err(ContractError::PropertyHasActiveLease)
    );
    assert_eq!(
        internal_delete_property(&mut contract, &owner, property_id, acc("burn.near")),
        Err(ContractError::PropertyHasActiveLease)
    );
}

#[test]
fn test_delist_property() {
    let (mut contract, owner, user) = init_contract();
    let property_id = mint(&mut contract, &owner, "Test", 1000000, None);
    assert_eq!(
        internal_delist_property(&mut contract, &user, property_id),
        Err(ContractError::NotPropertyOwner)
    );
    let outcome = internal_delist_property(&mut contract, &owner, property_id);
    assert!(outcome.is_ok(), "Delist should succeed");
    let property = contract.get_property_by_id(property_id);
    if let Some(prop) = property {
        assert!(!prop.is_for_sale, "Property should not be for sale");
    }
    assert!(!contract.get_property(property_id).unwrap().is_for_sale);
    assert_eq!(
        internal_delist_property(&mut contract, &owner, 9),
        Err(ContractError::PropertyNotFound)
    );
}

#[test]
fn test_delete_property() {
    let (mut contract, owner, user) = init_contract();
    let property_id = mint(&mut contract, &owner, "Test", 1000000, None);
    assert_eq!(
        internal_delete_property(&mut contract, &user, property_id, acc("burn.near")),
        Err(ContractError::NotPropertyOwner)
    );
    let outcome = internal_delete_property(&mut contract, &owner, property_id, acc("burn.near"));
    assert!(outcome.is_ok(), "Delete should succeed");
    assert_eq!(
        outcome.unwrap(),
        OwnershipTransfer { property_id, from: owner.clone(), to: acc("burn.near") }
    );
    let property = contract.get_property_by_id(property_id);
    assert!(property.is_none(), "Property should be deleted");
    // the id is not handed out again
    assert_eq!(mint(&mut contract, &owner, "Next", 5, None), 1);
    assert_eq!(contract.get_property_counter(), 2);
}

#[test]
fn sold_property_stays() {
    let (mut contract, owner, user) = init_contract();
    let property_id = mint(&mut contract, &owner, "Test", 1000, None);
    let bid = contract.place_bid(user.clone(), 1000, purchase(property_id), 5).unwrap();
    internal_accept_bid(&mut contract, &owner, property_id, bid, 10).unwrap();
    settlement_callback(&mut contract, property_id, bid, TransferOutcome::Success, 20, 5).unwrap();
    assert_eq!(
        internal_delist_property(&mut contract, &owner, property_id),
        Err(ContractError::PropertySold)
    );
    assert_eq!(
        internal_delete_property(&mut contract, &owner, property_id, acc("burn.near")),
        Err(ContractError::PropertySold)
    );
    assert_eq!(
        contract.place_bid(acc("late.near"), 1000, purchase(property_id), 30),
        Err(ContractError::PropertyNotListed)
    );
}

#[test]
fn test_add_admin() {
    let (mut contract, owner, user) = init_contract();
    let outcome = contract.add_admin(&owner, user.clone());
    assert!(outcome.is_ok(), "Add admin should succeed");
    let is_admin: bool = contract.is_admin(&user);
    assert!(is_admin, "User should be admin");
    assert!(contract.is_caller_admin(&user));
    assert_eq!(contract.get_all_admins(), vec![owner.clone(), user.clone()]);
    // only an admin adds an admin
    assert_eq!(
        contract.add_admin(&acc("stranger.near"), acc("accomplice.near")),
        Err(ContractError::UnauthorizedAccess)
    );
    assert!(!contract.is_admin(&acc("accomplice.near")));
    // an admin who is not the owner adds one too
    assert_eq!(contract.add_admin(&user, acc("third.near")), Ok(()));
    // adding twice keeps one entry
    contract.add_admin(&owner, user.clone()).unwrap();
    assert_eq!(contract.get_all_admins(), vec![owner.clone(), user.clone(), acc("third.near")]);
    assert_eq!(contract.get_admins(&user), Ok(vec![owner.clone(), user.clone(), acc("third.near")]));
    assert_eq!(contract.get_admins(&acc("stranger.near")), Err(ContractError::UnauthorizedAccess));
}

#[test]
fn test_remove_admin() {
    let (mut contract, owner, user) = init_contract();
    contract.add_admin(&owner, user.clone()).unwrap();
    contract.add_admin(&owner, acc("second.near")).unwrap();
    assert_eq!(contract.remove_admin(&user, &user), Err(ContractError::UnauthorizedAccess));
    let outcome = contract.remove_admin(&owner, &user);
    assert!(outcome.is_ok(), "Remove admin should succeed");
    assert!(!contract.is_admin(&user));
    assert_eq!(contract.get_all_admins(), vec![owner.clone(), acc("second.near")]);
    assert!(contract.remove_admin(&owner, &user).is_ok());
    assert_eq!(contract.get_all_admins(), vec![owner.clone(), acc("second.near")]);
    // a removed admin adds no one
    assert_eq!(contract.add_admin(&user, acc("x.near")), Err(ContractError::UnauthorizedAccess));
    // the admin that was added last takes the place of a removed one
    contract.add_admin(&owner, acc("third.near")).unwrap();
    contract.add_admin(&owner, acc("fourth.near")).unwrap();
    contract.remove_admin(&owner, &acc("second.near")).unwrap();
    assert_eq!(
        contract.get_all_admins(),
        vec![owner.clone(), acc("fourth.near"), acc("third.near")]
    );
}

#[test]
fn supported_stablecoins_are_kept_by_the_owner() {
    let (mut contract, owner, user) = init_contract();
    assert_eq!(
        contract.add_supported_stablecoin(&user, acc("dai.near")),
        Err(ContractError::UnauthorizedAccess)
    );
    contract.add_supported_stablecoin(&owner, acc("dai.near")).unwrap();
    contract.add_supported_stablecoin(&owner, acc("dai.near")).unwrap();
    assert_eq!(contract.get_supported_stablecoins(), vec![acc("stable.near"), acc("dai.near")]);
    assert_eq!(
        contract.remove_supported_stablecoin(&user, &acc("dai.near")),
        Err(ContractError::UnauthorizedAccess)
    );
    contract.remove_supported_stablecoin(&owner, &acc("stable.near")).unwrap();
    assert_eq!(contract.get_supported_stablecoins(), vec![acc("dai.near")]);
    let property_id = mint(&mut contract, &owner, "Test", 10, None);
    assert_eq!(
        contract.place_bid(user.clone(), 10, purchase(property_id), 1),
        Err(ContractError::UnsupportedToken)
    );
}

#[test]
fn test_raise_dispute() {
    let (mut contract, owner, user) = init_contract();
    let property_id = mint(&mut contract, &owner, "Test", 1000, Some(1));
    let msg = BidAction { property_id, action: Action::Lease, stablecoin_token: acc("stable.near") };
    let bid = contract.place_bid(user.clone(), 1000, msg, 5).unwrap();
    internal_accept_bid(&mut contract, &owner, property_id, bid, 10).unwrap();
    settlement_callback(&mut contract, property_id, bid, TransferOutcome::Success, 20, 5).unwrap();
    assert_eq!(
        internal_raise_dispute(&mut contract, &owner, 0, acc("noise"), 30),
        Err(ContractError::UnauthorizedAccess)
    );
    internal_raise_dispute(&mut contract, &user, 0, acc("noise"), 30).unwrap();
    assert_eq!(contract.get_lease(0).unwrap().dispute_status, DisputeStatus::Raised);
    assert_eq!(
        contract.get_leases_with_disputes(&user).err(),
        Some(ContractError::UnauthorizedAccess)
    );
    contract.add_admin(&owner, acc("admin.near")).unwrap();
    let disputed: Vec<LeaseView> = contract.get_leases_with_disputes(&acc("admin.near")).ok().unwrap();
    assert_eq!(disputed.len(), 1);
    assert_eq!(disputed[0].id, 0);
    assert_eq!(disputed[0].tenant_id, user);
    assert_eq!(disputed[0].dispute_status.status, "raised");
    assert_eq!(disputed[0].escrow_held, "1000");
}

#[test]
fn test_emergency_withdraw_non_owner_fails() {
    let (mut contract, _owner, user) = init_contract();
    let outcome = contract.emergency_withdraw(&user, &user);
    assert!(outcome.is_err(), "Non-owner should not be able to emergency withdraw");
    assert_eq!(outcome, Err(ContractError::UnauthorizedAccess));
}

#[test]
fn emergency_withdraw_drains_every_accepted_token() {
    let (mut contract, owner, user) = init_contract();
    contract.add_supported_stablecoin(&owner, acc("dai.near")).unwrap();
    contract.add_supported_stablecoin(&owner, acc("empty.near")).unwrap();
    let a = mint(&mut contract, &owner, "A", 700, None);
    let b = mint(&mut contract, &owner, "B", 30, None);
    contract.place_bid(user.clone(), 700, purchase(a), 1).unwrap();
    contract
        .place_bid(
            user.clone(),
            30,
            BidAction { property_id: b, action: Action::Purchase, stablecoin_token: acc("dai.near") },
            1,
        )
        .unwrap();
    let requests = contract.emergency_withdraw(&owner, &acc("vault.near")).unwrap();
    assert_eq!(
        requests,
        vec![
            WithdrawRequest { token: acc("stable.near"), receiver_id: acc("vault.near"), amount: 700 },
            WithdrawRequest { token: acc("dai.near"), receiver_id: acc("vault.near"), amount: 30 },
        ]
    );
    assert_eq!(contract.get_stablecoin_balance(&acc("stable.near")), 0);
    assert_eq!(contract.get_stablecoin_balance(&acc("dai.near")), 0);
    assert_eq!(contract.emergency_withdraw(&owner, &acc("vault.near")), Ok(vec![]));
    // a failed transfer is credited back, a confirmed one changes nothing
    assert_eq!(
        contract.withdraw_callback(&acc("dai.near"), 30, TransferOutcome::Failure),
        Err(ContractError::TransferFailed)
    );
    assert_eq!(contract.get_stablecoin_balance(&acc("dai.near")), 30);
    assert_eq!(contract.withdraw_callback(&acc("stable.near"), 700, TransferOutcome::Success), Ok(()));
    assert_eq!(contract.get_stablecoin_balance(&acc("stable.near")), 0);
}

#[test]
fn withdraw_stablecoin_needs_owner_and_cover() {
    let (mut contract, owner, user) = init_contract();
    let a = mint(&mut contract, &owner, "A", 700, None);
    contract.place_bid(user.clone(), 700, purchase(a), 1).unwrap();
    assert_eq!(
        contract.withdraw_stablecoin(&user, &acc("stable.near"), 1),
        Err(ContractError::UnauthorizedAccess)
    );
    assert_eq!(
        contract.withdraw_stablecoin(&owner, &acc("stable.near"), 701),
        Err(ContractError::BalanceUnderflow)
    );
    assert_eq!(
        contract.withdraw_stablecoin(&owner, &acc("stable.near"), 200),
        Ok(WithdrawRequest { token: acc("stable.near"), receiver_id: owner.clone(), amount: 200 })
    );
    assert_eq!(contract.get_stablecoin_balance(&acc("stable.near")), 500);
    let mut full = ShedaContract::new(owner.clone());
    full.add_supported_stablecoin(&owner, acc("stable.near")).unwrap();
    full.list_property(&owner, acc("Max"), acc("ipfs://Qm"), u128::MAX, true, None, None, 1).unwrap();
    full.place_bid(user.clone(), u128::MAX, purchase(0), 1).unwrap();
    assert_eq!(
        full.withdraw_callback(&acc("stable.near"), 1, TransferOutcome::Failure),
        Err(ContractError::BalanceOverflow)
    );
}

#[test]
fn property_with_a_token_takes_no_other() {
    let (mut contract, owner, user) = init_contract();
    contract.add_supported_stablecoin(&owner, acc("dai.near")).unwrap();
    let property_id = contract
        .list_property(&owner, acc("Test"), acc("ipfs://QmXxx"), 10, true, None, Some(acc("dai.near")), 1)
        .unwrap();
    assert_eq!(
        contract.place_bid(user.clone(), 10, purchase(property_id), 2),
        Err(ContractError::InvalidPaymentToken)
    );
    let msg = BidAction { property_id, action: Action::Purchase, stablecoin_token: acc("dai.near") };
    assert_eq!(contract.place_bid(user.clone(), 10, msg, 2), Ok(0));
    assert_eq!(contract.get_stablecoin_balance(&acc("dai.near")), 10);
    assert_eq!(contract.get_stablecoin_balance(&acc("stable.near")), 0);
}

#[test]
fn test_mint_property_with_zero_price() {
    let (mut contract, owner, user) = init_contract();
    let outcome = contract.list_property(&owner, acc("Free"), acc("ipfs://QmXxx"), 0, true, None, None, 1);
    assert_eq!(outcome, Ok(0));
    assert_eq!(contract.place_bid(user.clone(), 0, purchase(0), 2), Ok(0));
    assert_eq!(contract.get_stablecoin_balance(&acc("stable.near")), 0);
}

#[test]
fn test_reject_bid() {
    let (mut contract, owner, user) = init_contract();
    let property_id = mint(&mut contract, &owner, "Test", 1000, None);
    let bid = contract.place_bid(user.clone(), 1000, purchase(property_id), 5).unwrap();
    let refund = internal_reject_bid(&mut contract, &owner, property_id, bid).unwrap();
    assert_eq!(refund.receiver_id, user);
    assert_eq!(refund.amount, 1000);
    refund_callback(&mut contract, property_id, bid, TransferOutcome::Success, 10).unwrap();
    assert_eq!(contract.get_bid(property_id, bid).unwrap().status, BidStatus::Rejected);
}

#[test]
fn test_cancel_bid() {
    let (mut contract, owner, user) = init_contract();
    let property_id = mint(&mut contract, &owner, "Test", 1000, None);
    let bid = contract.place_bid(user.clone(), 1000, purchase(property_id), 5).unwrap();
    let refund = internal_cancel_bid(&mut contract, &user, property_id, bid).unwrap();
    assert_eq!(refund.receiver_id, user);
    assert_eq!(refund.amount, 1000);
    refund_callback(&mut contract, property_id, bid, TransferOutcome::Success, 10).unwrap();
    assert_eq!(contract.get_bid(property_id, bid).unwrap().status, BidStatus::Cancelled);
}

#[test]
fn test_cron_check_leases() {
    let (mut contract, _owner, _user) = init_contract();
    let report = internal_cron_check_leases(&mut contract, 1_000, 0, 10);
    assert!(report.transfers.is_empty());
    assert_eq!(report.next_index, 0);
}

#[test]
fn test_get_properties_pagination() {
    let (mut contract, owner, _user) = init_contract();
    for i in 0..5 {
        mint(&mut contract, &owner, &format!("Property {}", i), 1000000, None);
    }
    let properties: Vec<PropertyView> = contract.get_properties(0, 3);
    assert_eq!(properties.len(), 3);
    assert_eq!(properties[0].id, 0);
    assert_eq!(properties[2].id, 2);
    let properties: Vec<PropertyView> = contract.get_properties(3, 3);
    assert_eq!(properties.len(), 2);
    assert_eq!(properties[0].id, 3);
    assert_eq!(properties[1].id, 4);
    assert_eq!(properties[1].price, "1000000");
    assert_eq!(properties[1].description, "Property 4");
    assert_eq!(contract.get_properties(5, 3).len(), 0);
    assert_eq!(contract.get_properties(0, 0).len(), 0);
    assert_eq!(contract.get_properties(u64::MAX, u64::MAX).len(), 0);
    // the property that was listed last takes the place of a deleted one
    internal_delete_property(&mut contract, &owner, 1, acc("burn.near")).unwrap();
    let ids: Vec<u64> = contract.get_properties(0, 10).iter().map(|p| p.id).collect();
    assert_eq!(ids, vec![0, 4, 2, 3]);
    let properties: Vec<PropertyView> = contract.get_properties(1, 2);
    assert_eq!(properties.len(), 2);
    assert_eq!(properties[0].id, 4);
    assert_eq!(properties[1].id, 2);
    // a new property is listed last
    assert_eq!(mint(&mut contract, &owner, "Property 5", 1000000, None), 5);
    internal_delete_property(&mut contract, &owner, 5, acc("burn.near")).unwrap();
    internal_delete_property(&mut contract, &owner, 0, acc("burn.near")).unwrap();
    let ids: Vec<u64> = contract.get_properties(0, 10).iter().map(|p| p.id).collect();
    assert_eq!(ids, vec![3, 4, 2]);
    assert!(contract.is_well_formed());
}

#[test]
fn test_get_property_by_owner() {
    let (mut contract, owner, user) = init_contract();
    for i in 0..2 {
        mint(&mut contract, &owner, &format!("Property {}", i), 1000000, None);
    }
    mint(&mut contract, &user, "Other", 5, None);
    let properties: Vec<PropertyView> = contract.get_property_by_owner(&owner);
    assert_eq!(properties.len(), 2, "Owner should have 2 properties");
    assert_eq!(properties[0].id, 0);
    assert_eq!(properties[1].id, 1);
    assert_eq!(contract.get_property_by_owner(&user).len(), 1);
    assert_eq!(contract.get_property_by_owner(&acc("nobody.near")).len(), 0);
}

#[test]
fn views_show_the_entities() {
    let (mut contract, owner, user) = init_contract();
    let property_id = mint(&mut contract, &owner, "House", 1234, Some(2));
    let msg = BidAction { property_id, action: Action::Lease, stablecoin_token: acc("stable.near") };
    let bid = contract.place_bid(user.clone(), 1234, msg, 7).unwrap();
    let bids: Vec<BidView> = contract.get_bids_for_property(property_id);
    assert_eq!(bids.len(), 1);
    assert_eq!(bids[0].id, bid);
    assert_eq!(bids[0].bidder_id, user);
    assert_eq!(bids[0].property_id, property_id);
    assert_eq!(bids[0].bid_amount, "1234");
    assert_eq!(bids[0].created_at, 7);
    assert!(contract.get_bids_for_property(44).is_empty());

    internal_accept_bid(&mut contract, &owner, property_id, bid, 10).unwrap();
    settlement_callback(&mut contract, property_id, bid, TransferOutcome::Success, 20, 5).unwrap();
    let lease: LeaseView = contract.get_lease_by_id(0).unwrap();
    assert_eq!(lease.tenant_id, user);
    assert_eq!(lease.start_time, 20);
    assert_eq!(lease.end_time, 20 + 2 * 2_592_000_000_000_000);
    assert!(lease.active);
    assert_eq!(lease.dispute_status.status, "none");
    assert_eq!(lease.escrow_held, "1234");
    assert!(contract.get_lease_by_id(1).is_none());

    let view: PropertyView = contract.get_property_by_id(property_id).unwrap();
    assert_eq!(view.owner_id, owner);
    assert_eq!(view.price, "1234");
    assert_eq!(view.damage_escrow, "0");
    assert_eq!(view.lease_duration_nanos, Some(2));
    assert_eq!(view.active_lease.unwrap().id, 0);

    let plain = contract.get_property(property_id).unwrap().to_view();
    assert_eq!(plain.price, 1234);
    assert_eq!(plain.owner_id, owner);
    assert_eq!(plain.active_lease.unwrap().escrow_held, 1234);
    assert!(plain.sold.is_none());
    assert_eq!(contract.get_bid(property_id, bid).unwrap().to_view().bid_amount, 1234);
    assert_eq!(DisputeStatusView::from(&DisputeStatus::Resolved).status, "resolved");
    assert_eq!(DisputeStatusView::from(&DisputeStatus::PendingResponse).status, "pending_response");
}

#[test]
fn admin_delist_and_delete() {
    let (mut contract, owner, user) = init_contract();
    contract.add_admin(&owner, acc("admin.near")).unwrap();
    let admin = acc("admin.near");
    let a = mint(&mut contract, &owner, "A", 1000, None);
    assert_eq!(contract.admin_delist_property(&user, a), Err(ContractError::UnauthorizedAccess));
    assert_eq!(contract.admin_delist_property(&admin, 9), Err(ContractError::PropertyNotFound));
    assert_eq!(contract.admin_delist_property(&admin, a), Err(ContractError::PropertyForSale));
    internal_delist_property(&mut contract, &owner, a).unwrap();
    assert_eq!(contract.admin_delist_property(&admin, a), Err(ContractError::PropertyNotSold));

    assert_eq!(
        contract.admin_delete_property(&user, a, acc("burn.near")),
        Err(ContractError::UnauthorizedAccess)
    );
    let b = mint(&mut contract, &owner, "B", 1000, None);
    contract.place_bid(user.clone(), 1000, purchase(b), 5).unwrap();
    assert_eq!(
        contract.admin_delete_property(&admin, b, acc("burn.near")),
        Err(ContractError::PropertyHasBids)
    );
    assert_eq!(
        contract.admin_delete_property(&admin, a, acc("burn.near")),
        Ok(OwnershipTransfer { property_id: a, from: owner.clone(), to: acc("burn.near") })
    );
    assert!(contract.get_property(a).is_none());
    assert_eq!(
        contract.admin_delete_property(&admin, a, acc("burn.near")),
        Err(ContractError::PropertyNotFound)
    );
}
