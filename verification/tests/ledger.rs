use amm::Ledger;
use ink_env::AccountId;

fn account(byte: u8) -> AccountId {
    AccountId::from([byte; 32])
}

#[test]
fn new_ledger_knows_nobody() {
    let book = Ledger::new();
    assert!(!book.knows(&account(1)));
    assert_eq!(book.balance(&account(1)), 0);
    assert!(book.has_room());
}

#[test]
fn set_enters_an_account() {
    let mut book = Ledger::new();
    book.set(account(1), 42);
    assert!(book.knows(&account(1)));
    assert_eq!(book.balance(&account(1)), 42);
    assert!(!book.knows(&account(2)));
    assert_eq!(book.balance(&account(2)), 0);
}

#[test]
fn set_replaces_the_balance() {
    let mut book = Ledger::new();
    book.set(account(1), 42);
    book.set(account(2), 7);
    book.set(account(1), 43);
    assert_eq!(book.balance(&account(1)), 43);
    assert_eq!(book.balance(&account(2)), 7);
}

#[test]
fn an_account_entered_with_nothing_is_known() {
    let mut book = Ledger::new();
    book.set(account(9), 0);
    assert!(book.knows(&account(9)));
    assert_eq!(book.balance(&account(9)), 0);
}

#[test]
fn accounts_differ_by_any_byte() {
    let mut bytes = [0u8; 32];
    let first = AccountId::from(bytes);
    bytes[31] = 1;
    let second = AccountId::from(bytes);
    let mut book = Ledger::new();
    book.set(first, 1);
    book.set(second, 2);
    assert_eq!(book.balance(&first), 1);
    assert_eq!(book.balance(&second), 2);
}

#[test]
fn a_ledger_holds_the_largest_balance() {
    let mut book = Ledger::new();
    book.set(account(1), u128::MAX);
    assert_eq!(book.balance(&account(1)), u128::MAX);
    assert!(book.has_room());
}

#[test]
fn credit_adds_to_an_entered_account() {
    let mut book = Ledger::new();
    book.set(account(1), 40);
    book.credit(account(1), 2);
    assert_eq!(book.balance(&account(1)), 42);
    book.credit(account(1), 0);
    assert_eq!(book.balance(&account(1)), 42);
}

#[test]
fn credit_passes_by_an_account_that_is_not_entered() {
    let mut book = Ledger::new();
    book.set(account(1), 40);
    book.credit(account(2), 5);
    assert!(!book.knows(&account(2)));
    assert_eq!(book.balance(&account(2)), 0);
    assert_eq!(book.balance(&account(1)), 40);
}

#[test]
fn debit_takes_from_an_entered_account() {
    let mut book = Ledger::new();
    book.set(account(1), 40);
    book.debit(account(1), 15);
    assert_eq!(book.balance(&account(1)), 25);
    book.debit(account(1), 25);
    assert_eq!(book.balance(&account(1)), 0);
    assert!(book.knows(&account(1)));
}

#[test]
fn debit_of_nothing_passes_by_an_account_that_is_not_entered() {
    let mut book = Ledger::new();
    book.debit(account(3), 0);
    assert!(!book.knows(&account(3)));
}

#[test]
fn credit_or_enter_enters_a_new_account() {
    let mut book = Ledger::new();
    book.credit_or_enter(account(1), 7);
    assert!(book.knows(&account(1)));
    assert_eq!(book.balance(&account(1)), 7);
    book.credit_or_enter(account(1), 8);
    assert_eq!(book.balance(&account(1)), 15);
    book.credit_or_enter(account(2), 0);
    assert!(book.knows(&account(2)));
    assert_eq!(book.balance(&account(2)), 0);
}
