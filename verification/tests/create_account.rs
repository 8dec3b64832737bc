use ledger_rs::application::create_account::{CreateAccountError, create_account};
use ledger_rs::application::repository::AccountRepository;
use ledger_rs::domain::account::{Account, AccountError};
use ledger_rs::domain::money::Currency;
use ledger_rs::infrastructure::in_memory::InMemoryAccountRepository;

#[test]
fn creates_and_stores_valid_account() {
    let mut account_repository = InMemoryAccountRepository::new();
    let account_name = String::from("Cash");
    let currency = Currency::Cny;

    let result = create_account(&mut account_repository, account_name.clone(), currency);

    assert!(result.is_ok());
    let created_account = result.unwrap();
    let account_id = created_account.id();

    assert_eq!(
        account_repository.find_by_id(account_id).unwrap(),
        Some(created_account)
    );
}

#[test]
fn returns_account_error_for_empty_name() {
    let mut account_repository = InMemoryAccountRepository::new();
    let account_name = String::from("");
    let currency = Currency::Cny;

    let result = create_account(&mut account_repository, account_name, currency);

    assert_eq!(
        result,
        Err(CreateAccountError::Account(AccountError::EmptyName))
    );

    assert!(account_repository.find_all().unwrap().is_empty());
}

#[test]
fn assigns_distinct_ids_to_created_accounts() {
    let mut account_repository = InMemoryAccountRepository::new();
    let account_name = String::from("Cash");
    let currency = Currency::Cny;

    let original =
        create_account(&mut account_repository, account_name.clone(), currency).unwrap();

    let result = create_account(
        &mut account_repository,
        String::from("Another Cash"),
        Currency::Cny,
    );

    let second = result.unwrap();
    assert_ne!(original.id(), second.id());
}
