use dex::ledger::AccountId;
use dex::token::{CarbonToken, Error};

fn alice() -> AccountId {
    AccountId::from_bytes([0x01; 32])
}

fn bob() -> AccountId {
    AccountId::from_bytes([0x02; 32])
}

#[test]
fn new_works() {
    let contract = CarbonToken::new(&alice(), 777);
    assert_eq!(contract.total_supply(), 777);
}

#[test]
fn balance_works() {
    let contract = CarbonToken::new(&alice(), 100);
    assert_eq!(contract.total_supply(), 100);
    assert_eq!(contract.balance_of(&alice()), 100);
    assert_eq!(contract.balance_of(&bob()), 0);
}

#[test]
fn transfer_works() {
    let mut contract = CarbonToken::new(&alice(), 100);
    assert_eq!(contract.balance_of(&alice()), 100);
    assert!(contract.transfer(&alice(), &bob(), 10).is_ok());
    assert_eq!(contract.balance_of(&bob()), 10);
    assert!(contract.transfer(&alice(), &bob(), 100).is_err());
}

#[test]
fn transfer_from_works() {
    let mut contract = CarbonToken::new(&alice(), 100);
    assert_eq!(contract.balance_of(&alice()), 100);
    let _ = contract.approve(&alice(), &alice(), 20);
    let _ = contract.transfer_from(&alice(), &alice(), &bob(), 10);
    assert_eq!(contract.balance_of(&bob()), 10);
}

#[test]
fn allowances_works() {
    let mut contract = CarbonToken::new(&alice(), 100);
    assert_eq!(contract.balance_of(&alice()), 100);
    let _ = contract.approve(&alice(), &alice(), 200);
    assert_eq!(contract.allowance(&alice(), &alice()), 200);

    assert!(contract.transfer_from(&alice(), &alice(), &bob(), 50).is_ok());
    assert_eq!(contract.balance_of(&bob()), 50);
    assert_eq!(contract.allowance(&alice(), &alice()), 150);

    assert!(contract.transfer_from(&alice(), &alice(), &bob(), 100).is_err());
    assert_eq!(contract.balance_of(&bob()), 50);
    assert_eq!(contract.allowance(&alice(), &alice()), 150);
}

#[test]
fn transfer_to_self_keeps_balance() {
    let mut contract = CarbonToken::new(&alice(), 100);
    let ev = contract.transfer(&alice(), &alice(), 40).unwrap();
    assert_eq!(ev.value, 40);
    assert_eq!(contract.balance_of(&alice()), 100);
    assert_eq!(contract.total_supply(), 100);
}

#[test]
fn transfer_from_without_allowance_fails() {
    let mut contract = CarbonToken::new(&alice(), 100);
    let r = contract.transfer_from(&bob(), &alice(), &bob(), 1);
    assert_eq!(r.unwrap_err(), Error::InsufficientAllowance);
    assert_eq!(contract.balance_of(&alice()), 100);
}

#[test]
fn transfer_from_beyond_balance_keeps_allowance() {
    let mut contract = CarbonToken::new(&alice(), 100);
    let _ = contract.approve(&alice(), &bob(), 500);
    let r = contract.transfer_from(&bob(), &alice(), &bob(), 300);
    assert_eq!(r.unwrap_err(), Error::InsufficientBalance);
    assert_eq!(contract.allowance(&alice(), &bob()), 500);
}

#[test]
fn mint_and_burn_move_supply() {
    let mut contract = CarbonToken::new(&alice(), 100);
    let m = contract.mint(&bob(), 30).unwrap();
    assert_eq!(m.amount, 30);
    assert_eq!(contract.total_supply(), 130);
    assert_eq!(contract.balance_of(&bob()), 30);
    let b = contract.burn(&bob(), 10).unwrap();
    assert_eq!(b.amount, 10);
    assert_eq!(b.to.bytes, [0u8; 32]);
    assert_eq!(contract.total_supply(), 120);
    assert_eq!(contract.balance_of(&bob()), 20);
    assert_eq!(contract.burn(&bob(), 21).unwrap_err(), Error::InsufficientBalance);
    assert_eq!(contract.total_supply(), 120);
}
