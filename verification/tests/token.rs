//! The contract surface exercised end to end: initialization, storage
//! staking, unregistration, transfers, and the optimistic commit of a
//! transfer-and-notify.

use fungible_token::contract::Contract;
use fungible_token::metadata::TokenMetadata;

const TOTAL_SUPPLY: u128 = 1_000_000_000_000_000;
const STORAGE_COST: u128 = 1_250_000_000_000_000_000_000;
const PREPAID_GAS: u64 = 300_000_000_000_000;

const DATA_IMAGE_SVG_NEAR_ICON: &str = "data:image/svg+xml,%3Csvg xmlns='http://www.w3.org/2000/svg' viewBox='0 0 288 288'%3E%3Cg id='l' data-name='l'%3E%3Cpath d='M187.58,79.81l-30.1,44.69a3.2,3.2,0,0,0,4.75,4.2L191.86,103a1.2,1.2,0,0,1,2,.91v80.46a1.2,1.2,0,0,1-2.12.77L102.18,77.93A15.35,15.35,0,0,0,90.47,72.5H87.34A15.34,15.34,0,0,0,72,87.84V201.16A15.34,15.34,0,0,0,87.34,216.5h0a15.35,15.35,0,0,0,13.08-7.31l30.1-44.69a3.2,3.2,0,0,0-4.75-4.2L96.14,186a1.2,1.2,0,0,1-2-.91V104.61a1.2,1.2,0,0,1,2.12-.77l89.55,107.23a15.35,15.35,0,0,0,11.71,5.43h3.13A15.34,15.34,0,0,0,216,201.16V87.84A15.34,15.34,0,0,0,200.66,72.5h0A15.35,15.35,0,0,0,187.58,79.81Z'/%3E%3C/g%3E%3C/svg%3E";

fn owner() -> String {
    "bob".to_string()
}

fn user1() -> String {
    "charlie".to_string()
}

fn user2() -> String {
    "danny".to_string()
}

fn setup() -> Contract {
    Contract::new(
        owner(),
        TOTAL_SUPPLY,
        TokenMetadata {
            spec_version: "ft-1.0.0".to_string(),
            name: "Example NEAR fungible token".to_string(),
            symbol: "EXAMPLE".to_string(),
            icon: Some(DATA_IMAGE_SVG_NEAR_ICON.to_string()),
            reference: None,
            reference_hash: None,
            decimals: 24,
        },
        STORAGE_COST,
    )
}

#[test]
fn test_new() {
    let contract = setup();

    assert_eq!(contract.ft_total_supply(), TOTAL_SUPPLY);
    assert_eq!(contract.ft_balance_of(&owner()), TOTAL_SUPPLY);
}

#[test]
fn test_metadata() {
    let contract = setup();

    assert_eq!(contract.ft_metadata().decimals, 24);
    assert!(contract.ft_metadata().icon.is_some());
    assert!(!contract.ft_metadata().spec_version.is_empty());
    assert!(!contract.ft_metadata().name.is_empty());
    assert!(!contract.ft_metadata().symbol.is_empty());
}

#[test]
fn test_deposit() {
    let mut contract = setup();
    let min = contract.storage_balance_bounds().min;

    assert!(contract.storage_balance_of(&user1()).is_none());

    contract.storage_deposit(None, &user1(), min, None).unwrap();

    let storage_balance = contract.storage_balance_of(&user1()).unwrap();
    assert_eq!(storage_balance.total, contract.storage_balance_bounds().min);
    assert_eq!(storage_balance.available, 0);
}

#[test]
fn test_deposit_on_behalf_of_another_user() {
    let mut contract = setup();
    let min = contract.storage_balance_bounds().min;

    assert!(contract.storage_balance_of(&user2()).is_none());

    // the caller is user1, but the deposit is for user2
    contract.storage_deposit(Some(&user2()), &user1(), min, None).unwrap();

    let storage_balance = contract.storage_balance_of(&user2()).unwrap();
    assert_eq!(storage_balance.total, contract.storage_balance_bounds().min);
    assert_eq!(storage_balance.available, 0);

    // user1's own storage is unaffected
    assert!(contract.storage_balance_of(&user1()).is_none());
}

#[test]
fn test_deposit_account_twice() {
    let mut contract = setup();
    let min = contract.storage_balance_bounds().min;

    // this registers the caller
    contract.storage_deposit(None, &user1(), min, None).unwrap();

    let storage_balance = contract.storage_balance_of(&user1()).unwrap();
    assert_eq!(storage_balance.total, contract.storage_balance_bounds().min);

    // a second deposit succeeds and just refunds the whole attached value
    let (_, refund) = contract.storage_deposit(None, &user1(), min, None).unwrap();
    assert_eq!(refund, min);

    // the stake backing the account has not changed
    let storage_balance = contract.storage_balance_of(&user1()).unwrap();
    assert_eq!(storage_balance.total, contract.storage_balance_bounds().min);
}

#[test]
fn test_unregister() {
    let mut contract = setup();
    let min = contract.storage_balance_bounds().min;

    contract.storage_deposit(None, &user1(), min, None).unwrap();

    assert!(contract.storage_balance_of(&user1()).is_some());

    let (removed, _log) = contract.storage_unregister(&user1(), 1, None).unwrap();
    assert_eq!(removed, true);

    assert!(contract.storage_balance_of(&user1()).is_none());
}

#[test]
fn test_unregister_of_non_registered_account() {
    let mut contract = setup();

    // `false` indicates that the account wasn't registered
    let (removed, _log) = contract.storage_unregister(&user1(), 1, None).unwrap();
    assert_eq!(removed, false);
}

#[test]
fn test_unregister_with_force() {
    let mut contract = setup();
    let min = contract.storage_balance_bounds().min;

    contract.storage_deposit(None, &user1(), min, None).unwrap();

    assert!(contract.storage_balance_of(&user1()).is_some());

    let transfer_amount = TOTAL_SUPPLY / 10;
    contract.ft_transfer(&owner(), &user1(), transfer_amount, None, 1).unwrap();

    // force the removal no matter what; this reduces the total supply
    // because the user's tokens are burnt
    let (removed, _log) = contract.storage_unregister(&user1(), 1, Some(true)).unwrap();
    assert_eq!(removed, true);

    assert!(contract.storage_balance_of(&user1()).is_none());
    assert_eq!(contract.ft_balance_of(&user1()), 0);
    assert_eq!(contract.ft_total_supply(), TOTAL_SUPPLY - transfer_amount);
}

#[test]
fn test_withdraw() {
    let mut contract = setup();
    let min = contract.storage_balance_bounds().min;

    contract.storage_deposit(None, &user1(), min, None).unwrap();

    // nothing is ever available, so a withdrawal of nothing just reports
    // the stake
    let storage_balance = contract.storage_withdraw(&user1(), 1, None).unwrap();
    assert_eq!(storage_balance.total, contract.storage_balance_bounds().min);
    assert_eq!(storage_balance.available, 0);

    let storage_balance = contract.storage_withdraw(&user1(), 1, None).unwrap();
    assert_eq!(storage_balance.total, contract.storage_balance_bounds().min);
    assert_eq!(storage_balance.available, 0);
}

#[test]
fn test_transfer() {
    let mut contract = setup();
    let min = contract.storage_balance_bounds().min;

    contract.storage_deposit(None, &user1(), min, None).unwrap();

    let transfer_amount = TOTAL_SUPPLY / 10;
    contract.ft_transfer(&owner(), &user1(), transfer_amount, None, 1).unwrap();

    assert_eq!(contract.ft_balance_of(&owner()), TOTAL_SUPPLY - transfer_amount);
    assert_eq!(contract.ft_balance_of(&user1()), transfer_amount);
}

#[test]
fn metadata_validity() {
    let valid = TokenMetadata {
        spec_version: "ft-1.0.0".to_string(),
        name: "Example NEAR fungible token".to_string(),
        symbol: "EXAMPLE".to_string(),
        icon: None,
        reference: Some("https://example.com/token.json".to_string()),
        reference_hash: Some(vec![7u8; 32]),
        decimals: 24,
    };
    assert!(valid.is_valid());

    let wrong_scheme = TokenMetadata {
        spec_version: "ft-2.0.0".to_string(),
        ..valid.duplicate()
    };
    assert!(!wrong_scheme.is_valid());

    let short_hash = TokenMetadata {
        reference_hash: Some(vec![7u8; 31]),
        ..valid.duplicate()
    };
    assert!(!short_hash.is_valid());

    let hash_without_reference = TokenMetadata {
        reference: None,
        ..valid.duplicate()
    };
    assert!(!hash_without_reference.is_valid());
}

#[test]
fn test_transfer_call() {
    let mut contract = setup();
    let min = contract.storage_balance_bounds().min;

    contract.storage_deposit(None, &user1(), min, None).unwrap();

    let transfer_amount = TOTAL_SUPPLY / 10;
    let pending = contract
        .ft_transfer_call(
            &owner(),
            &user1(),
            transfer_amount,
            None,
            "".to_string(),
            1,
            PREPAID_GAS,
        )
        .unwrap();
    assert_eq!(pending.sender_id, owner());
    assert_eq!(pending.receiver_id, user1());
    assert_eq!(pending.amount, transfer_amount);

    assert_eq!(contract.ft_balance_of(&owner()), TOTAL_SUPPLY - transfer_amount);
    assert_eq!(contract.ft_balance_of(&user1()), transfer_amount);
}
