use ledger_rs::application::account_activity::{AccountActivity, AccountActivityError, list_account_activity};
use ledger_rs::application::repository::{AccountRepository, TransactionRepository, TransferRepository};
use ledger_rs::domain::account::{AccountId, NewAccount};
use ledger_rs::domain::money::{Currency, Money};
use ledger_rs::domain::time::ZonedTime;
use ledger_rs::domain::transaction::{Category, NewTransaction, Transaction, TransactionKind};
use ledger_rs::domain::transfer::{NewTransfer, Transfer};
use ledger_rs::infrastructure::in_memory::{InMemoryAccountRepository, InMemoryTransactionRepository, InMemoryTransferRepository};

#[test]
fn combines_transactions_and_transfers_newest_first() {
    let mut accounts = InMemoryAccountRepository::new();
    let source = accounts
        .create(NewAccount::new("Source".to_string(), Currency::Cny).unwrap())
        .unwrap();
    let destination = accounts
        .create(NewAccount::new("Destination".to_string(), Currency::Cny).unwrap())
        .unwrap();
    let mut transactions = InMemoryTransactionRepository::new();
    transactions
        .create(
            NewTransaction::new(
                source.id(),
                TransactionKind::Income,
                Money::from_minor_units(200, Currency::Cny),
                "2026-08-19T10:00:00+08:00[Asia/Shanghai]".parse().unwrap(),
                "Income".to_string(),
                Category::Salary,
            )
            .unwrap(),
        )
        .unwrap();
    let mut transfers = InMemoryTransferRepository::new();
    transfers
        .create(
            NewTransfer::new(
                source.id(),
                destination.id(),
                Money::from_minor_units(100, Currency::Cny),
                Money::from_minor_units(100, Currency::Cny),
                "2026-08-20T10:00:00+08:00[Asia/Shanghai]".parse().unwrap(),
                "Move".to_string(),
            )
            .unwrap(),
        )
        .unwrap();

    let activity =
        list_account_activity(&accounts, &transactions, &transfers, source.id()).unwrap();
    assert!(matches!(activity[0], AccountActivity::Transfer(_)));
    assert!(matches!(activity[1], AccountActivity::Transaction(_)));
}

#[test]
fn orders_equal_timestamps_by_variant_and_id() {
    let mut accounts = InMemoryAccountRepository::new();
    let source = accounts
        .create(NewAccount::new("Source".to_string(), Currency::Cny).unwrap())
        .unwrap();
    let destination = accounts
        .create(NewAccount::new("Destination".to_string(), Currency::Cny).unwrap())
        .unwrap();
    let occurred_at: ZonedTime = "2026-08-20T10:00:00+08:00[Asia/Shanghai]".parse().unwrap();
    let mut transactions = InMemoryTransactionRepository::new();
    for description in ["Transaction 1", "Transaction 2"] {
        transactions
            .create(
                NewTransaction::new(
                    source.id(),
                    TransactionKind::Income,
                    Money::from_minor_units(200, Currency::Cny),
                    occurred_at.clone(),
                    description.to_string(),
                    Category::Salary,
                )
                .unwrap(),
            )
            .unwrap();
    }
    let mut transfers = InMemoryTransferRepository::new();
    for description in ["Transfer 1", "Transfer 2"] {
        transfers
            .create(
                NewTransfer::new(
                    source.id(),
                    destination.id(),
                    Money::from_minor_units(100, Currency::Cny),
                    Money::from_minor_units(100, Currency::Cny),
                    occurred_at.clone(),
                    description.to_string(),
                )
                .unwrap(),
            )
            .unwrap();
    }

    let activity =
        list_account_activity(&accounts, &transactions, &transfers, source.id()).unwrap();
    let keys = activity
        .iter()
        .map(AccountActivity::tie_breaker)
        .collect::<Vec<_>>();

    assert_eq!(keys, vec![(1, 2), (1, 1), (0, 2), (0, 1)]);
}

#[test]
fn returns_account_activity_specific_not_found_error() {
    let accounts = InMemoryAccountRepository::new();
    let transactions = InMemoryTransactionRepository::new();
    let transfers = InMemoryTransferRepository::new();

    assert_eq!(
        list_account_activity(&accounts, &transactions, &transfers, AccountId::new(42)),
        Err(AccountActivityError::AccountNotFound(AccountId::new(42)))
    );
}
