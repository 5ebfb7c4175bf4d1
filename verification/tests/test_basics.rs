use sheda_contract::sheda_contract_near::Contract;

#[test]
fn test_default() {
    let contract = Contract::default();
    assert_eq!(contract, Contract::new());
}
