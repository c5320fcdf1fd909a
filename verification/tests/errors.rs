//! One witness input for every error variant, and the stable message text
//! that each carries.

use fungible_token::contract::Contract;
use fungible_token::error::TokenError;
use fungible_token::ledger::Ledger;
use fungible_token::metadata::TokenMetadata;

const TOTAL_SUPPLY: u128 = 1_000_000_000_000_000;
const STORAGE_COST: u128 = 1_250_000_000_000_000_000_000;
const PREPAID_GAS: u64 = 300_000_000_000_000;

fn owner() -> String {
    "bob".to_string()
}

fn user1() -> String {
    "charlie".to_string()
}

fn setup() -> Contract {
    Contract::new(
        owner(),
        TOTAL_SUPPLY,
        TokenMetadata {
            spec_version: "ft-1.0.0".to_string(),
            name: "Example NEAR fungible token".to_string(),
            symbol: "EXAMPLE".to_string(),
            icon: None,
            reference: None,
            reference_hash: None,
            decimals: 24,
        },
        STORAGE_COST,
    )
}

fn staked(contract: &mut Contract, account: &String) {
    let min = contract.storage_balance_bounds().min;
    contract.storage_deposit(Some(account), account, min, None).unwrap();
}

#[test]
fn transfer_rejects_zero_deposit() {
    let mut contract = setup();
    staked(&mut contract, &user1());

    let r = contract.ft_transfer(&owner(), &user1(), TOTAL_SUPPLY / 10, None, 0);
    assert_eq!(r, Err(TokenError::OneYoctoRequired));
    assert_eq!(
        TokenError::OneYoctoRequired.message(),
        "Requires attached deposit of exactly 1 yoctoNEAR"
    );
}

#[test]
fn transfer_rejects_zero_amount() {
    let mut contract = setup();
    staked(&mut contract, &user1());

    let r = contract.ft_transfer(&owner(), &user1(), 0, None, 1);
    assert_eq!(r, Err(TokenError::ZeroAmount));
    assert_eq!(TokenError::ZeroAmount.message(), "The amount should be a positive number");
}

#[test]
fn transfer_rejects_self_receiver() {
    let mut contract = setup();

    let r = contract.ft_transfer(&owner(), &owner(), TOTAL_SUPPLY / 10, None, 1);
    assert_eq!(r, Err(TokenError::SelfTransfer));
    assert_eq!(TokenError::SelfTransfer.message(), "Sender and receiver should be different");
}

#[test]
fn transfer_rejects_non_registered_sender() {
    let mut contract = setup();
    staked(&mut contract, &user1());

    let r = contract.ft_transfer(&"eve".to_string(), &user1(), 10, None, 1);
    assert_eq!(r, Err(TokenError::NotRegistered("eve".to_string())));
    assert_eq!(
        TokenError::NotRegistered("eve".to_string()).message(),
        "The account eve is not registered"
    );
}

#[test]
fn transfer_rejects_non_registered_receiver() {
    let mut contract = setup();

    let r = contract.ft_transfer(&owner(), &user1(), TOTAL_SUPPLY / 10, None, 1);
    assert_eq!(r, Err(TokenError::NotRegistered(user1())));
}

#[test]
fn transfer_rejects_amount_greater_than_balance() {
    let mut contract = setup();
    staked(&mut contract, &user1());

    let r = contract.ft_transfer(&owner(), &user1(), TOTAL_SUPPLY + 10, None, 1);
    assert_eq!(r, Err(TokenError::InsufficientBalance));
    assert_eq!(
        TokenError::InsufficientBalance.message(),
        "The account doesn't have enough balance"
    );
}

#[test]
fn transfer_call_rejects_insufficient_gas() {
    let mut contract = setup();
    staked(&mut contract, &user1());

    let r = contract.ft_transfer_call(
        &owner(),
        &user1(),
        TOTAL_SUPPLY / 10,
        None,
        "".to_string(),
        1,
        10_000_000_000_000,
    );
    assert_eq!(r.unwrap_err(), TokenError::InsufficientGas);
    assert_eq!(TokenError::InsufficientGas.message(), "More gas is required");
}

#[test]
fn transfer_call_rejects_zero_deposit() {
    let mut contract = setup();
    staked(&mut contract, &user1());

    let r = contract.ft_transfer_call(
        &owner(),
        &user1(),
        TOTAL_SUPPLY / 10,
        None,
        "".to_string(),
        0,
        PREPAID_GAS,
    );
    assert_eq!(r.unwrap_err(), TokenError::OneYoctoRequired);
}

#[test]
fn storage_deposit_rejects_insufficient_deposit() {
    let mut contract = setup();

    let r = contract.storage_deposit(None, &user1(), 100, None);
    assert_eq!(r, Err(TokenError::InsufficientDeposit));
    assert_eq!(
        TokenError::InsufficientDeposit.message(),
        "The attached deposit is less than the minimum storage balance"
    );
    assert!(contract.storage_balance_of(&user1()).is_none());
}

#[test]
fn storage_withdraw_rejects_non_registered_account() {
    let contract = setup();

    let r = contract.storage_withdraw(&user1(), 1, None);
    assert_eq!(r, Err(TokenError::NotRegistered(user1())));
}

#[test]
fn storage_withdraw_rejects_zero_deposit() {
    let mut contract = setup();
    staked(&mut contract, &user1());

    let r = contract.storage_withdraw(&user1(), 0, None);
    assert_eq!(r, Err(TokenError::OneYoctoRequired));
}

#[test]
fn storage_withdraw_rejects_positive_amount() {
    let mut contract = setup();
    staked(&mut contract, &user1());

    let r = contract.storage_withdraw(&user1(), 1, Some(1));
    assert_eq!(r, Err(TokenError::ExceedsAvailable));
    assert_eq!(
        TokenError::ExceedsAvailable.message(),
        "The amount is greater than the available storage balance"
    );
}

#[test]
fn storage_unregister_rejects_zero_deposit() {
    let mut contract = setup();
    staked(&mut contract, &user1());

    let r = contract.storage_unregister(&user1(), 0, None);
    assert_eq!(r, Err(TokenError::OneYoctoRequired));
}

#[test]
fn from_accounts_rejects_duplicate_listing() {
    let list = vec![
        ("alice".to_string(), 5u128),
        ("bob".to_string(), 1u128),
        ("alice".to_string(), 2u128),
    ];
    let r = Ledger::from_accounts(&list);
    assert!(matches!(r, Err(TokenError::AlreadyRegistered)));
    assert_eq!(
        TokenError::AlreadyRegistered.message(),
        "The account is already registered"
    );
}

#[test]
fn from_accounts_rejects_supply_overflow() {
    let list = vec![("alice".to_string(), u128::MAX), ("bob".to_string(), 1u128)];
    let r = Ledger::from_accounts(&list);
    assert!(matches!(r, Err(TokenError::TotalSupplyOverflow)));
}

#[test]
fn ledger_deposit_rejects_balance_overflow() {
    let mut ledger = Ledger::new();
    let a = "alice".to_string();
    ledger.register(&a);
    ledger.deposit(&a, u128::MAX).unwrap();

    let r = ledger.deposit(&a, 1);
    assert_eq!(r, Err(TokenError::BalanceOverflow));
    assert_eq!(TokenError::BalanceOverflow.message(), "Balance overflow");
    assert_eq!(ledger.balance_of(&a), u128::MAX);
}

#[test]
fn ledger_deposit_rejects_total_supply_overflow() {
    let mut ledger = Ledger::new();
    let a = "alice".to_string();
    let b = "bob".to_string();
    ledger.register(&a);
    ledger.register(&b);
    ledger.deposit(&a, u128::MAX - 5).unwrap();

    let r = ledger.deposit(&b, 10);
    assert_eq!(r, Err(TokenError::TotalSupplyOverflow));
    assert_eq!(TokenError::TotalSupplyOverflow.message(), "Total supply overflow");
    assert_eq!(ledger.balance_of(&b), 0);
    assert_eq!(ledger.total_supply(), u128::MAX - 5);
}
