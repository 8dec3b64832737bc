use ledger_rs::application::repository::{AccountRepository, RepositoryError, TransactionRepository};
use ledger_rs::domain::account::{Account, AccountId, NewAccount};
use ledger_rs::domain::money::{Currency, Money};
use ledger_rs::domain::transaction::{Category, NewTransaction, Transaction, TransactionId, TransactionKind};
use ledger_rs::infrastructure::in_memory::{InMemoryAccountRepository, InMemoryTransactionRepository};

#[test]
fn new_repository_is_empty() {
    let repository = InMemoryAccountRepository::new();

    assert_eq!(repository.find_by_id(AccountId::new(1)).unwrap(), None);
}

#[test]
fn saves_and_finds_account_by_id() {
    let mut repository = InMemoryAccountRepository::new();
    let account = Account::new(AccountId::new(1), "Cash".to_string(), Currency::Cny).unwrap();

    repository.save(account.clone()).unwrap();

    assert_eq!(
        repository.find_by_id(AccountId::new(1)).unwrap(),
        Some(account)
    );
}

#[test]
fn creates_accounts_with_repository_allocated_ids() {
    let mut repository = InMemoryAccountRepository::new();

    let first = repository
        .create(NewAccount::new("Cash".to_string(), Currency::Cny).unwrap())
        .unwrap();
    let second = repository
        .create(NewAccount::new("Bank".to_string(), Currency::Cny).unwrap())
        .unwrap();

    assert_eq!(first.id(), AccountId::new(1));
    assert_eq!(second.id(), AccountId::new(2));
}

#[test]
fn in_memory_rejects_duplicate_account_id() {
    let mut repository = InMemoryAccountRepository::new();
    let account = Account::new(AccountId::new(1), "Cash".to_string(), Currency::Cny).unwrap();

    repository.save(account.clone()).unwrap();

    assert_eq!(
        repository.save(account),
        Err(RepositoryError::DuplicateAccountId(AccountId::new(1)))
    );
}

#[test]
fn new_transaction_repository_is_empty() {
    let repository = InMemoryTransactionRepository::new();

    assert_eq!(
        repository
            .find_by_account_id(AccountId::new(1))
            .unwrap()
            .len(),
        0
    );
}

#[test]
fn saves_and_finds_transactions_by_account_id() {
    let mut repository = InMemoryTransactionRepository::new();
    let transaction1 = Transaction::new(
        TransactionId::new(1),
        AccountId::new(1),
        ledger_rs::domain::transaction::TransactionKind::Income,
        ledger_rs::domain::money::Money::from_minor_units(1000, Currency::Cny),
        "2026-08-10T18:30:00+08:00[Asia/Shanghai]".parse().unwrap(),
        "Salary".to_string(),
        Category::Food,
    )
    .unwrap();
    let transaction2 = Transaction::new(
        TransactionId::new(2),
        AccountId::new(1),
        ledger_rs::domain::transaction::TransactionKind::Expense,
        ledger_rs::domain::money::Money::from_minor_units(500, Currency::Cny),
        "2026-08-11T18:30:00+08:00[Asia/Shanghai]".parse().unwrap(),
        "Groceries".to_string(),
        Category::Food,
    )
    .unwrap();
    repository.save(transaction1.clone()).unwrap();
    repository.save(transaction2.clone()).unwrap();
    assert_eq!(
        repository
            .find_by_account_id(AccountId::new(1))
            .unwrap()
            .len(),
        2
    );
}

#[test]
fn creates_transactions_with_repository_allocated_ids() {
    let mut repository = InMemoryTransactionRepository::new();
    let build = || {
        NewTransaction::new(
            AccountId::new(1),
            ledger_rs::domain::transaction::TransactionKind::Income,
            ledger_rs::domain::money::Money::from_minor_units(100, Currency::Cny),
            "2026-08-11T18:30:00+08:00[Asia/Shanghai]".parse().unwrap(),
            "Salary".to_string(),
            Category::Salary,
        )
        .unwrap()
    };

    let first = repository.create(build()).unwrap();
    let second = repository.create(build()).unwrap();

    assert_eq!(first.id(), TransactionId::new(1));
    assert_eq!(second.id(), TransactionId::new(2));
}

#[test]
fn does_not_return_other_accounts_transactions() {
    let mut repository = InMemoryTransactionRepository::new();
    let transaction1 = Transaction::new(
        TransactionId::new(1),
        AccountId::new(1),
        ledger_rs::domain::transaction::TransactionKind::Income,
        ledger_rs::domain::money::Money::from_minor_units(1000, Currency::Cny),
        "2026-08-10T18:30:00+08:00[Asia/Shanghai]".parse().unwrap(),
        "Salary".to_string(),
        Category::Food,
    )
    .unwrap();
    let transaction2 = Transaction::new(
        TransactionId::new(2),
        AccountId::new(2),
        ledger_rs::domain::transaction::TransactionKind::Expense,
        ledger_rs::domain::money::Money::from_minor_units(500, Currency::Cny),
        "2026-08-11T18:30:00+08:00[Asia/Shanghai]".parse().unwrap(),
        "Groceries".to_string(),
        Category::Food,
    )
    .unwrap();
    repository.save(transaction1.clone()).unwrap();
    repository.save(transaction2.clone()).unwrap();
    assert_eq!(
        repository
            .find_by_account_id(AccountId::new(1))
            .unwrap()
            .len(),
        1
    );
}

#[test]
fn in_memory_rejects_duplicate_transaction_id() {
    let mut repository = InMemoryTransactionRepository::new();
    let transaction = Transaction::new(
        TransactionId::new(1),
        AccountId::new(1),
        ledger_rs::domain::transaction::TransactionKind::Income,
        ledger_rs::domain::money::Money::from_minor_units(1000, Currency::Cny),
        "2026-08-10T18:30:00+08:00[Asia/Shanghai]".parse().unwrap(),
        "Salary".to_string(),
        Category::Food,
    )
    .unwrap();
    repository.save(transaction.clone()).unwrap();
    assert_eq!(
        repository.save(transaction),
        Err(RepositoryError::DuplicateTransactionId(TransactionId::new(
            1
        )))
    );
}

#[test]
fn in_memory_finds_all_accounts() {
    let mut repository = InMemoryAccountRepository::new();
    let account1 = Account::new(AccountId::new(1), "Cash".to_string(), Currency::Cny).unwrap();
    let account2 = Account::new(AccountId::new(2), "Bank".to_string(), Currency::Cny).unwrap();
    repository.save(account1.clone()).unwrap();
    repository.save(account2.clone()).unwrap();
    assert_eq!(repository.find_all().unwrap().len(), 2);
}

#[test]
fn allocates_the_identifier_after_the_largest_stored_one() {
    let mut repository = InMemoryAccountRepository::new();
    repository
        .save(Account::new(AccountId::new(5), "Bank".to_string(), Currency::Cny).unwrap())
        .unwrap();
    let created = repository
        .create(NewAccount::new("Cash".to_string(), Currency::Cny).unwrap())
        .unwrap();
    assert_eq!(created.id(), AccountId::new(6));
}

#[test]
fn refuses_to_create_when_identifiers_run_out() {
    let mut repository = InMemoryAccountRepository::new();
    repository
        .save(Account::new(AccountId::new(u64::MAX), "Bank".to_string(), Currency::Cny).unwrap())
        .unwrap();
    assert_eq!(
        repository.create(NewAccount::new("Cash".to_string(), Currency::Cny).unwrap()),
        Err(RepositoryError::IdExhausted)
    );
    assert_eq!(repository.find_all().unwrap().len(), 1);
}

#[test]
fn creates_a_batch_after_the_largest_stored_identifier() {
    let mut repository = InMemoryTransactionRepository::new();
    let occurred_at = || "2026-08-14T12:00:00+08:00[Asia/Shanghai]".parse().unwrap();
    repository
        .save(
            Transaction::new(
                TransactionId::new(3),
                AccountId::new(1),
                TransactionKind::Expense,
                Money::from_minor_units(100, Currency::Cny),
                occurred_at(),
                "Stored".to_string(),
                Category::Food,
            )
            .unwrap(),
        )
        .unwrap();
    let new_transaction = || {
        NewTransaction::new(
            AccountId::new(1),
            TransactionKind::Expense,
            Money::from_minor_units(200, Currency::Cny),
            occurred_at(),
            "Batch".to_string(),
            Category::Food,
        )
        .unwrap()
    };
    let created = repository
        .create_many(vec![new_transaction(), new_transaction()])
        .unwrap();
    let ids: Vec<TransactionId> = created.iter().map(|value| value.id()).collect();
    assert_eq!(ids, vec![TransactionId::new(4), TransactionId::new(5)]);
}

#[test]
fn refuses_a_batch_that_runs_past_the_last_identifier() {
    let mut repository = InMemoryTransactionRepository::new();
    let occurred_at = || "2026-08-14T12:00:00+08:00[Asia/Shanghai]".parse().unwrap();
    repository
        .save(
            Transaction::new(
                TransactionId::new(u64::MAX - 1),
                AccountId::new(1),
                TransactionKind::Expense,
                Money::from_minor_units(100, Currency::Cny),
                occurred_at(),
                "Stored".to_string(),
                Category::Food,
            )
            .unwrap(),
        )
        .unwrap();
    let new_transaction = || {
        NewTransaction::new(
            AccountId::new(1),
            TransactionKind::Expense,
            Money::from_minor_units(200, Currency::Cny),
            occurred_at(),
            "Batch".to_string(),
            Category::Food,
        )
        .unwrap()
    };
    assert_eq!(
        repository.create_many(vec![new_transaction(), new_transaction()]),
        Err(RepositoryError::IdExhausted)
    );
    assert_eq!(repository.find_by_account_id(AccountId::new(1)).unwrap().len(), 1);
}
