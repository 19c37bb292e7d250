use tcr_runtime::primitives::Error;
use tcr_runtime::token::{Event, Module};

const ALICE: u64 = 1;
const BOB: u64 = 2;
const CAROL: u64 = 3;

fn subject(tag: u8) -> [u8; 32] {
    [tag; 32]
}

fn minted(supply: u64) -> Module {
    let mut ledger = Module::new(ALICE, supply);
    assert_eq!(ledger.init(&ALICE), Ok(()));
    ledger
}

fn held(ledger: &Module, accounts: &[u64], subjects: &[[u8; 32]]) -> u128 {
    let mut sum: u128 = 0;
    for account in accounts {
        sum += ledger.balance_of(*account) as u128;
    }
    for s in subjects {
        sum += ledger.locked_deposits(s) as u128;
    }
    sum
}

#[test]
fn new_ledger_holds_nothing() {
    let ledger = Module::new(ALICE, 1000);
    assert!(!ledger.is_init());
    assert_eq!(ledger.owner(), ALICE);
    assert_eq!(ledger.total_supply(), 1000);
    assert_eq!(ledger.balance_of(ALICE), 0);
    assert_eq!(ledger.allowance(ALICE, BOB), 0);
    assert_eq!(ledger.locked_deposits(&subject(1)), 0);
}

#[test]
fn init_credits_owner_with_supply() {
    let mut ledger = Module::new(ALICE, 1000);
    assert_eq!(ledger.init(&ALICE), Ok(()));
    assert!(ledger.is_init());
    assert_eq!(ledger.balance_of(ALICE), 1000);
    assert_eq!(ledger.balance_of(BOB), 0);
}

#[test]
fn init_by_stranger_is_unauthorized() {
    let mut ledger = Module::new(ALICE, 1000);
    assert_eq!(ledger.init(&BOB), Err(Error::Unauthorized));
    assert!(!ledger.is_init());
    assert_eq!(ledger.balance_of(BOB), 0);
    assert_eq!(ledger.init(&ALICE), Ok(()));
}

#[test]
fn init_succeeds_exactly_once() {
    let mut ledger = minted(1000);
    assert_eq!(ledger.init(&ALICE), Err(Error::AlreadyInitialized));
    assert_eq!(ledger.init(&BOB), Err(Error::AlreadyInitialized));
    assert_eq!(ledger.transfer(ALICE, BOB, 400), Ok(Event::Transfer(ALICE, BOB, 400)));
    assert_eq!(ledger.init(&ALICE), Err(Error::AlreadyInitialized));
    assert_eq!(ledger.balance_of(ALICE), 600);
}

#[test]
fn transfer_moves_value() {
    let mut ledger = minted(1000);
    assert_eq!(ledger.transfer(ALICE, BOB, 250), Ok(Event::Transfer(ALICE, BOB, 250)));
    assert_eq!(ledger.balance_of(ALICE), 750);
    assert_eq!(ledger.balance_of(BOB), 250);
    assert_eq!(ledger.transfer(BOB, CAROL, 250), Ok(Event::Transfer(BOB, CAROL, 250)));
    assert_eq!(ledger.balance_of(BOB), 0);
    assert_eq!(ledger.balance_of(CAROL), 250);
}

#[test]
fn transfer_of_more_than_balance_fails() {
    let mut ledger = minted(1000);
    assert_eq!(ledger.transfer(ALICE, BOB, 1001), Err(Error::InsufficientBalance));
    assert_eq!(ledger.transfer(BOB, ALICE, 1), Err(Error::InsufficientBalance));
    assert_eq!(ledger.balance_of(ALICE), 1000);
    assert_eq!(ledger.balance_of(BOB), 0);
}

#[test]
fn transfer_to_self_changes_nothing() {
    let mut ledger = minted(1000);
    assert_eq!(ledger.transfer(ALICE, ALICE, 300), Ok(Event::Transfer(ALICE, ALICE, 300)));
    assert_eq!(ledger.balance_of(ALICE), 1000);
}

#[test]
fn transfer_to_self_that_would_overflow_fails() {
    let mut ledger = minted(u64::MAX);
    assert_eq!(ledger.transfer(ALICE, ALICE, 1), Err(Error::Overflow));
    assert_eq!(ledger.balance_of(ALICE), u64::MAX);
    assert_eq!(ledger.transfer(ALICE, ALICE, 0), Ok(Event::Transfer(ALICE, ALICE, 0)));
}

#[test]
fn transfer_of_zero_before_init_succeeds() {
    let mut ledger = Module::new(ALICE, 1000);
    assert_eq!(ledger.transfer(BOB, CAROL, 0), Ok(Event::Transfer(BOB, CAROL, 0)));
    assert_eq!(ledger.init(&ALICE), Ok(()));
    assert_eq!(held(&ledger, &[ALICE, BOB, CAROL], &[]), 1000);
}

#[test]
fn approve_twice_accumulates() {
    let mut ledger = minted(1000);
    assert_eq!(ledger.approve(ALICE, BOB, 50), Ok(Event::Approval(ALICE, BOB, 50)));
    assert_eq!(ledger.allowance(ALICE, BOB), 50);
    assert_eq!(ledger.approve(ALICE, BOB, 50), Ok(Event::Approval(ALICE, BOB, 50)));
    assert_eq!(ledger.allowance(ALICE, BOB), 100);
    assert_eq!(ledger.allowance(BOB, ALICE), 0);
}

#[test]
fn approve_overflow_fails() {
    let mut ledger = minted(1000);
    assert_eq!(ledger.approve(ALICE, BOB, u64::MAX), Ok(Event::Approval(ALICE, BOB, u64::MAX)));
    assert_eq!(ledger.approve(ALICE, BOB, 1), Err(Error::Overflow));
    assert_eq!(ledger.allowance(ALICE, BOB), u64::MAX);
}

#[test]
fn approve_needs_no_balance() {
    let mut ledger = minted(1000);
    assert_eq!(ledger.approve(BOB, CAROL, 500), Ok(Event::Approval(BOB, CAROL, 500)));
    assert_eq!(ledger.allowance(BOB, CAROL), 500);
    assert_eq!(ledger.transfer_from(CAROL, BOB, ALICE, 1), Err(Error::InsufficientBalance));
    assert_eq!(ledger.allowance(BOB, CAROL), 500);
}

#[test]
fn transfer_from_without_allowance_fails() {
    let mut ledger = minted(1000);
    assert_eq!(ledger.transfer_from(BOB, ALICE, CAROL, 0), Err(Error::AllowanceNotFound));
    assert_eq!(ledger.transfer_from(BOB, ALICE, CAROL, 10), Err(Error::AllowanceNotFound));
}

#[test]
fn transfer_from_with_zero_allowance_entry() {
    let mut ledger = minted(1000);
    assert_eq!(ledger.approve(ALICE, BOB, 0), Ok(Event::Approval(ALICE, BOB, 0)));
    assert_eq!(ledger.transfer_from(BOB, ALICE, CAROL, 0), Ok(Event::Transfer(ALICE, CAROL, 0)));
    assert_eq!(ledger.transfer_from(BOB, ALICE, CAROL, 1), Err(Error::InsufficientAllowance));
}

#[test]
fn transfer_from_spends_allowance() {
    let mut ledger = minted(1000);
    assert_eq!(ledger.approve(ALICE, BOB, 100), Ok(Event::Approval(ALICE, BOB, 100)));
    assert_eq!(ledger.transfer_from(BOB, ALICE, CAROL, 30), Ok(Event::Transfer(ALICE, CAROL, 30)));
    assert_eq!(ledger.allowance(ALICE, BOB), 70);
    assert_eq!(ledger.balance_of(ALICE), 970);
    assert_eq!(ledger.balance_of(CAROL), 30);
    assert_eq!(ledger.balance_of(BOB), 0);
    assert_eq!(ledger.transfer_from(BOB, ALICE, CAROL, 71), Err(Error::InsufficientAllowance));
    assert_eq!(ledger.allowance(ALICE, BOB), 70);
    assert_eq!(ledger.balance_of(ALICE), 970);
    assert_eq!(ledger.transfer_from(BOB, ALICE, CAROL, 70), Ok(Event::Transfer(ALICE, CAROL, 70)));
    assert_eq!(ledger.allowance(ALICE, BOB), 0);
    assert_eq!(ledger.balance_of(CAROL), 100);
    assert_eq!(ledger.transfer_from(BOB, ALICE, CAROL, 1), Err(Error::InsufficientAllowance));
}

#[test]
fn transfer_from_failure_keeps_allowance() {
    let mut ledger = minted(100);
    assert_eq!(ledger.approve(ALICE, BOB, 500), Ok(Event::Approval(ALICE, BOB, 500)));
    assert_eq!(ledger.transfer_from(BOB, ALICE, CAROL, 101), Err(Error::InsufficientBalance));
    assert_eq!(ledger.allowance(ALICE, BOB), 500);
    assert_eq!(ledger.balance_of(ALICE), 100);
    assert_eq!(ledger.balance_of(CAROL), 0);
}

#[test]
fn allowance_is_per_owner_and_spender() {
    let mut ledger = minted(1000);
    assert_eq!(ledger.approve(ALICE, BOB, 10), Ok(Event::Approval(ALICE, BOB, 10)));
    assert_eq!(ledger.transfer_from(CAROL, ALICE, BOB, 5), Err(Error::AllowanceNotFound));
    assert_eq!(ledger.transfer_from(ALICE, BOB, CAROL, 5), Err(Error::AllowanceNotFound));
    assert_eq!(ledger.transfer_from(BOB, ALICE, BOB, 5), Ok(Event::Transfer(ALICE, BOB, 5)));
    assert_eq!(ledger.balance_of(BOB), 5);
}

#[test]
fn lock_moves_balance_into_escrow() {
    let mut ledger = minted(1000);
    assert_eq!(ledger.lock(&ALICE, 100, &subject(1)), Ok(()));
    assert_eq!(ledger.balance_of(ALICE), 900);
    assert_eq!(ledger.locked_deposits(&subject(1)), 100);
    assert_eq!(ledger.locked_deposits(&subject(2)), 0);
    assert_eq!(ledger.lock(&ALICE, 50, &subject(1)), Ok(()));
    assert_eq!(ledger.locked_deposits(&subject(1)), 150);
    assert_eq!(ledger.balance_of(ALICE), 850);
}

#[test]
fn lock_of_more_than_balance_fails() {
    let mut ledger = minted(1000);
    assert_eq!(ledger.lock(&ALICE, 1001, &subject(1)), Err(Error::InsufficientBalance));
    assert_eq!(ledger.lock(&BOB, 1, &subject(1)), Err(Error::InsufficientBalance));
    assert_eq!(ledger.balance_of(ALICE), 1000);
    assert_eq!(ledger.locked_deposits(&subject(1)), 0);
}

#[test]
fn unlock_releases_escrow() {
    let mut ledger = minted(1000);
    assert_eq!(ledger.lock(&ALICE, 100, &subject(1)), Ok(()));
    assert_eq!(ledger.unlock(&BOB, 40, &subject(1)), Ok(()));
    assert_eq!(ledger.balance_of(BOB), 40);
    assert_eq!(ledger.locked_deposits(&subject(1)), 60);
    assert_eq!(ledger.unlock(&ALICE, 60, &subject(1)), Ok(()));
    assert_eq!(ledger.balance_of(ALICE), 960);
    assert_eq!(ledger.locked_deposits(&subject(1)), 0);
}

#[test]
fn unlock_of_more_than_escrow_fails() {
    let mut ledger = minted(1000);
    assert_eq!(ledger.lock(&ALICE, 100, &subject(1)), Ok(()));
    assert_eq!(ledger.unlock(&ALICE, 101, &subject(1)), Err(Error::InsufficientBalance));
    assert_eq!(ledger.unlock(&ALICE, 1, &subject(2)), Err(Error::InsufficientBalance));
    assert_eq!(ledger.balance_of(ALICE), 900);
    assert_eq!(ledger.locked_deposits(&subject(1)), 100);
}

#[test]
fn unlock_reports_overflow_before_shortage() {
    let mut ledger = minted(u64::MAX);
    assert_eq!(ledger.unlock(&ALICE, 1, &subject(1)), Err(Error::Overflow));
    assert_eq!(ledger.balance_of(ALICE), u64::MAX);
}

#[test]
fn value_is_conserved_across_operations() {
    let mut ledger = minted(1000);
    let accounts = [ALICE, BOB, CAROL];
    let subjects = [subject(1), subject(2)];
    assert_eq!(held(&ledger, &accounts, &subjects), 1000);
    assert_eq!(ledger.transfer(ALICE, BOB, 300), Ok(Event::Transfer(ALICE, BOB, 300)));
    assert_eq!(held(&ledger, &accounts, &subjects), 1000);
    assert_eq!(ledger.lock(&BOB, 120, &subject(1)), Ok(()));
    assert_eq!(held(&ledger, &accounts, &subjects), 1000);
    assert_eq!(ledger.approve(BOB, CAROL, 100), Ok(Event::Approval(BOB, CAROL, 100)));
    assert_eq!(ledger.transfer_from(CAROL, BOB, CAROL, 80), Ok(Event::Transfer(BOB, CAROL, 80)));
    assert_eq!(held(&ledger, &accounts, &subjects), 1000);
    assert_eq!(ledger.lock(&CAROL, 80, &subject(2)), Ok(()));
    assert_eq!(ledger.unlock(&ALICE, 70, &subject(1)), Ok(()));
    assert_eq!(held(&ledger, &accounts, &subjects), 1000);
    assert_eq!(ledger.transfer(ALICE, BOB, 5000), Err(Error::InsufficientBalance));
    assert_eq!(ledger.unlock(&ALICE, 51, &subject(1)), Err(Error::InsufficientBalance));
    assert_eq!(held(&ledger, &accounts, &subjects), 1000);
    assert_eq!(ledger.balance_of(ALICE), 770);
    assert_eq!(ledger.balance_of(BOB), 100);
    assert_eq!(ledger.balance_of(CAROL), 0);
    assert_eq!(ledger.locked_deposits(&subject(1)), 50);
    assert_eq!(ledger.locked_deposits(&subject(2)), 80);
}

#[test]
fn subjects_differing_in_one_byte_are_distinct() {
    let mut ledger = minted(1000);
    let first = subject(9);
    let mut second = subject(9);
    second[31] = 10;
    assert_eq!(ledger.lock(&ALICE, 10, &first), Ok(()));
    assert_eq!(ledger.lock(&ALICE, 20, &second), Ok(()));
    assert_eq!(ledger.locked_deposits(&first), 10);
    assert_eq!(ledger.locked_deposits(&second), 20);
}
