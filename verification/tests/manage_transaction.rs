use ledger_rs::application::manage_transaction::{ManageTransactionError, TransactionChanges, delete_transaction, get_transaction, update_transaction};
use ledger_rs::application::repository::{AccountRepository, TransactionRepository};
use ledger_rs::domain::account::{Account, NewAccount};
use ledger_rs::domain::money::{Currency, Money};
use ledger_rs::domain::transaction::{Category, NewTransaction, Transaction, TransactionError, TransactionKind};
use ledger_rs::infrastructure::in_memory::{InMemoryAccountRepository, InMemoryTransactionRepository};

fn repositories() -> (
    InMemoryAccountRepository,
    InMemoryTransactionRepository,
    Account,
    Transaction,
) {
    let mut accounts = InMemoryAccountRepository::new();
    let account = accounts
        .create(NewAccount::new("Cash".to_string(), Currency::Cny).unwrap())
        .unwrap();
    let mut transactions = InMemoryTransactionRepository::new();
    let transaction = transactions
        .create(
            NewTransaction::new(
                account.id(),
                TransactionKind::Expense,
                Money::from_minor_units(100, Currency::Cny),
                "2026-08-20T10:00:00+08:00[Asia/Shanghai]".parse().unwrap(),
                "Lunch".to_string(),
                Category::Food,
            )
            .unwrap(),
        )
        .unwrap();
    (accounts, transactions, account, transaction)
}

#[test]
fn gets_updates_and_deletes_transaction() {
    let (accounts, mut transactions, _account, transaction) = repositories();

    let updated = update_transaction(
        &accounts,
        &mut transactions,
        transaction.id(),
        TransactionChanges {
            amount: Some(Money::from_minor_units(250, Currency::Cny)),
            description: Some("Dinner".to_string()),
            ..TransactionChanges::default()
        },
    )
    .unwrap();
    assert_eq!(updated.amount().minor_units(), 250);
    assert_eq!(updated.description(), "Dinner");
    assert_eq!(updated.kind(), TransactionKind::Expense);

    delete_transaction(&mut transactions, transaction.id()).unwrap();
    assert_eq!(
        get_transaction(&transactions, transaction.id()),
        Err(ManageTransactionError::TransactionNotFound(
            transaction.id()
        ))
    );
}

#[test]
fn rejects_no_changes_and_invalid_updates() {
    let (accounts, mut transactions, _account, transaction) = repositories();
    assert_eq!(
        update_transaction(
            &accounts,
            &mut transactions,
            transaction.id(),
            TransactionChanges::default(),
        ),
        Err(ManageTransactionError::NoChanges)
    );
    assert_eq!(
        update_transaction(
            &accounts,
            &mut transactions,
            transaction.id(),
            TransactionChanges {
                amount: Some(Money::from_minor_units(0, Currency::Cny)),
                ..TransactionChanges::default()
            },
        ),
        Err(ManageTransactionError::Transaction(
            TransactionError::InvalidAmount
        ))
    );
}

#[test]
fn validates_reassigned_account_and_currency() {
    let (mut accounts, mut transactions, _account, transaction) = repositories();
    let usd = accounts
        .create(NewAccount::new("USD".to_string(), Currency::Usd).unwrap())
        .unwrap();

    assert_eq!(
        update_transaction(
            &accounts,
            &mut transactions,
            transaction.id(),
            TransactionChanges {
                account_id: Some(usd.id()),
                ..TransactionChanges::default()
            },
        ),
        Err(ManageTransactionError::CurrencyMismatch {
            expected: Currency::Usd,
            found: Currency::Cny,
        })
    );
}
