use sheda_contract::internal::{compute_lease_end, extract_base_uri, get_burn_account_id, has_elapsed};
use sheda_contract::models::ContractError;
use sheda_contract::text::{decimal_string, find_from, find_nth, has_suffix};

fn chars(s: &str) -> Vec<char> {
    s.chars().collect()
}

#[test]
fn base_uri_of_ipfs_gateway_address() {
    assert_eq!(extract_base_uri("https://gateway.io/ipfs/QmHash/logo.png"), "ipfs://QmHash/logo.png");
}

#[test]
fn base_uri_stops_at_second_marker() {
    assert_eq!(extract_base_uri("https://a.io/ipfs/first/ipfs/second"), "ipfs://first");
    assert_eq!(extract_base_uri("/ipfs/"), "ipfs://");
    assert_eq!(extract_base_uri("x/ipfs/ipfs/y"), "ipfs://ipfs/y");
}

#[test]
fn base_uri_of_plain_address_is_its_origin() {
    assert_eq!(extract_base_uri("https://example.com/path/image.png"), "https://example.com");
    assert_eq!(extract_base_uri("https://example.com/logo.png"), "https://example.com");
    assert_eq!(extract_base_uri("https://example.com"), "https://example.com");
    assert_eq!(extract_base_uri("no-slashes"), "no-slashes");
    assert_eq!(extract_base_uri(""), "");
    assert_eq!(extract_base_uri("a/b/c/d"), "a/b/c");
}

#[test]
fn base_uri_agrees_with_split() {
    let samples = [
        "https://example.com/a/b",
        "ipfs://QmXxx",
        "https://x.y/ipfs/Qm1",
        "///",
        "/ipfs/ipfs/",
        "é/ü/ipfs/ö/ipfs/",
    ];
    for url in samples {
        let expected = match url.split("/ipfs/").nth(1) {
            Some(cid) => format!("ipfs://{}", cid),
            None => url.split('/').take(3).collect::<Vec<_>>().join("/"),
        };
        assert_eq!(extract_base_uri(url), expected);
    }
}

#[test]
fn burn_account_follows_the_network() {
    assert_eq!(get_burn_account_id(&"sheda.testnet".to_string()), "burn.testnet");
    assert_eq!(get_burn_account_id(&"sheda.near".to_string()), "burn.near");
    assert_eq!(get_burn_account_id(&"testnet".to_string()), "burn.near");
    assert_eq!(get_burn_account_id(&".testnet".to_string()), "burn.testnet");
    assert_eq!(get_burn_account_id(&"a.testnet.near".to_string()), "burn.near");
}

#[test]
fn decimal_of_numbers() {
    assert_eq!(decimal_string(0), "0");
    assert_eq!(decimal_string(7), "7");
    assert_eq!(decimal_string(10), "10");
    assert_eq!(decimal_string(1_000_000), "1000000");
    assert_eq!(decimal_string(u128::MAX), u128::MAX.to_string());
}

#[test]
fn find_reports_first_place() {
    assert_eq!(find_from(&chars("abcabc"), &chars("bc"), 0), Some(1));
    assert_eq!(find_from(&chars("abcabc"), &chars("bc"), 2), Some(4));
    assert_eq!(find_from(&chars("abcabc"), &chars("bc"), 5), None);
    assert_eq!(find_from(&chars("abc"), &chars("abcd"), 0), None);
    assert_eq!(find_nth(&chars("a/b/c/d"), '/', 3), 5);
    assert_eq!(find_nth(&chars("a/b"), '/', 3), 3);
    assert!(has_suffix(&chars("x.testnet"), &chars(".testnet")));
    assert!(!has_suffix(&chars("net"), &chars(".testnet")));
}

#[test]
fn lease_end_is_start_plus_months() {
    assert_eq!(compute_lease_end(1000, 12), Some(31_104_000_000_001_000));
    assert_eq!(compute_lease_end(0, 1), Some(2_592_000_000_000_000));
    assert_eq!(compute_lease_end(5, 0), Some(5));
    assert_eq!(compute_lease_end(u64::MAX - 2_592_000_000_000_000, 1), Some(u64::MAX));
    // an end beyond what a timestamp holds is no end
    assert_eq!(compute_lease_end(u64::MAX - 1, 1), None);
    assert_eq!(compute_lease_end(0, u64::MAX), None);
}

#[test]
fn elapsed_needs_the_full_delay() {
    assert!(has_elapsed(100, 150, 50));
    assert!(!has_elapsed(100, 149, 50));
    assert!(!has_elapsed(100, 99, 0));
    assert!(has_elapsed(100, 100, 0));
}

#[test]
fn error_names_and_messages() {
    assert_eq!(ContractError::PropertyNotFound.as_ref(), "PropertyNotFound");
    assert_eq!(ContractError::PropertyNotFound.message(), "Property not found");
    assert_eq!(ContractError::NotPropertyOwner.message(), "Not property owner");
    assert_eq!(ContractError::InvalidBidAmount.message(), "Invalid bid amount");
    assert_eq!(ContractError::LeaseNotActive.message(), "Lease not active");
    assert_eq!(ContractError::UnauthorizedAccess.message(), "Unauthorized access");
    assert_eq!(ContractError::DisputeAlreadyRaised.message(), "Dispute already raised");
    assert_eq!(ContractError::LeaseNotFound.message(), "Lease not found");
    assert_eq!(ContractError::InvalidPaymentToken.message(), "Invalid payment token");
    let e = ContractError::IncorrectBidAmount { expected: 1_000_000, received: 999_999 };
    assert_eq!(e.as_ref(), "IncorrectBidAmount");
    assert_eq!(e.message(), "Incorrect bid amount: expected 1000000, received 999999");
    assert_eq!(ContractError::UnsupportedToken.as_ref(), "UnsupportedToken");
    assert_eq!(ContractError::TransferFailed.as_ref(), "TransferFailed");
}
