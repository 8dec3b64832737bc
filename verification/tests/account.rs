use ledger_rs::domain::account::{Account, AccountError, AccountId};
use ledger_rs::domain::money::Currency;

#[test]
fn account_id_preserves_its_value() {
    let id = AccountId::new(42);

    assert_eq!(id.value(), 42);
}

#[test]
fn creates_account_with_valid_name() {
    let account = Account::new(AccountId::new(1), String::from("Cash"), Currency::Cny).unwrap();

    assert_eq!(account.id(), AccountId::new(1));
    assert_eq!(account.name(), "Cash");
    assert_eq!(account.currency(), Currency::Cny);
}

#[test]
fn rejects_empty_name() {
    let result = Account::new(AccountId::new(1), String::new(), Currency::Cny);

    assert_eq!(result, Err(AccountError::EmptyName));
}

#[test]
fn rejects_whitespace_only_name() {
    let result = Account::new(AccountId::new(1), String::from("   "), Currency::Cny);

    assert_eq!(result, Err(AccountError::EmptyName));
}

#[test]
fn trims_account_name() {
    let account =
        Account::new(AccountId::new(1), String::from("  Cash  "), Currency::Cny).unwrap();

    assert_eq!(account.name(), "Cash");
}
