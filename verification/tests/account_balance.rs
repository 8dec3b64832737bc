use ledger_rs::application::account_balance::{GetAccountBalanceError, get_account_balance, get_account_balance_with_transfers};
use ledger_rs::application::repository::{AccountRepository, TransactionRepository, TransferRepository};
use ledger_rs::domain::account::{Account, AccountId};
use ledger_rs::domain::balance::BalanceError;
use ledger_rs::domain::money::{Currency, Money};
use ledger_rs::domain::transaction::{Category, Transaction, TransactionId, TransactionKind};
use ledger_rs::domain::transfer::NewTransfer;
use ledger_rs::infrastructure::in_memory::{InMemoryAccountRepository, InMemoryTransactionRepository, InMemoryTransferRepository};

#[test]
fn account_balance_returns_account_not_found_for_unknown_account() {
    let account_repository = InMemoryAccountRepository::new();
    let transaction_repository = InMemoryTransactionRepository::new();

    let account_id = AccountId::new(1);
    let result = get_account_balance(&account_repository, &transaction_repository, account_id);
    assert_eq!(
        result,
        Err(GetAccountBalanceError::AccountNotFound(account_id))
    );
}

#[test]
fn returns_zero_for_account_without_transactions() {
    let mut account_repository = InMemoryAccountRepository::new();
    let transaction_repository = InMemoryTransactionRepository::new();

    let account_id = AccountId::new(1);
    let account = Account::new(account_id, String::from("Cash"), Currency::Cny).unwrap();
    account_repository.save(account).unwrap();
    let result = get_account_balance(&account_repository, &transaction_repository, account_id);
    assert_eq!(result, Ok(Money::from_minor_units(0, Currency::Cny)));
}

#[test]
fn includes_transfer_outflow_and_inflow() {
    let mut accounts = InMemoryAccountRepository::new();
    let transactions = InMemoryTransactionRepository::new();
    let source = Account::new(AccountId::new(1), "Source".to_string(), Currency::Cny).unwrap();
    let destination =
        Account::new(AccountId::new(2), "Destination".to_string(), Currency::Cny).unwrap();
    accounts.save(source.clone()).unwrap();
    accounts.save(destination.clone()).unwrap();
    let mut transfers = InMemoryTransferRepository::new();
    transfers
        .create(
            NewTransfer::new(
                source.id(),
                destination.id(),
                Money::from_minor_units(100, Currency::Cny),
                Money::from_minor_units(100, Currency::Cny),
                "2026-08-20T10:00:00+08:00[Asia/Shanghai]".parse().unwrap(),
                "Move".to_string(),
            )
            .unwrap(),
        )
        .unwrap();

    assert_eq!(
        get_account_balance_with_transfers(&accounts, &transactions, &transfers, source.id()),
        Ok(Money::from_minor_units(-100, Currency::Cny))
    );
    assert_eq!(
        get_account_balance_with_transfers(
            &accounts,
            &transactions,
            &transfers,
            destination.id()
        ),
        Ok(Money::from_minor_units(100, Currency::Cny))
    );
}

#[test]
fn calculates_balance_from_stored_transactions() {
    let mut account_repository = InMemoryAccountRepository::new();
    let mut transaction_repository = InMemoryTransactionRepository::new();
    let account_id = AccountId::new(1);
    let account = Account::new(account_id, String::from("Cash"), Currency::Cny).unwrap();
    account_repository.save(account).unwrap();
    let transaction1 = Transaction::new(
        TransactionId::new(1),
        account_id,
        TransactionKind::Income,
        Money::from_minor_units(1000, Currency::Cny),
        "2026-08-11T18:30:00+08:00[Asia/Shanghai]".parse().unwrap(),
        String::from("Salary"),
        Category::Food,
    )
    .unwrap();
    let transaction2 = Transaction::new(
        TransactionId::new(2),
        account_id,
        TransactionKind::Expense,
        Money::from_minor_units(200, Currency::Cny),
        "2026-08-11T18:30:00+08:00[Asia/Shanghai]".parse().unwrap(),
        String::from("Groceries"),
        Category::Food,
    )
    .unwrap();
    transaction_repository.save(transaction1).unwrap();
    transaction_repository.save(transaction2).unwrap();

    let result = get_account_balance(&account_repository, &transaction_repository, account_id);
    assert_eq!(result, Ok(Money::from_minor_units(800, Currency::Cny)));
}

#[test]
fn returns_balance_error_for_wrong_currency() {
    let mut account_repository = InMemoryAccountRepository::new();
    let mut transaction_repository = InMemoryTransactionRepository::new();
    let account_id = AccountId::new(1);
    let account = Account::new(account_id, String::from("Cash"), Currency::Cny).unwrap();
    account_repository.save(account).unwrap();
    let transaction1 = Transaction::new(
        TransactionId::new(1),
        account_id,
        TransactionKind::Income,
        Money::from_minor_units(1000, Currency::Cny),
        "2026-08-11T18:30:00+08:00[Asia/Shanghai]".parse().unwrap(),
        String::from("Salary"),
        Category::Food,
    )
    .unwrap();
    let transaction2 = Transaction::new(
        TransactionId::new(2),
        account_id,
        TransactionKind::Expense,
        Money::from_minor_units(200, Currency::Usd),
        "2026-08-11T18:30:00+08:00[Asia/Shanghai]".parse().unwrap(),
        String::from("Groceries"),
        Category::Food,
    )
    .unwrap();
    transaction_repository.save(transaction1).unwrap();
    transaction_repository.save(transaction2).unwrap();

    let result = get_account_balance(&account_repository, &transaction_repository, account_id);
    assert_eq!(
        result,
        Err(GetAccountBalanceError::Balance(
            BalanceError::CurrencyMismatch {
                expected: Currency::Cny,
                found: Currency::Usd,
            }
        ))
    );
}
