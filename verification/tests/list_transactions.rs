use ledger_rs::application::list_transactions::{ListTransactionsError, MAX_TRANSACTION_PAGE_SIZE, TransactionFilter, TransactionPageRequest, list_account_transaction_page, list_account_transactions};
use ledger_rs::application::repository::{AccountRepository, RepositoryError, TransactionRepository};
use ledger_rs::domain::account::{Account, AccountId, NewAccount};
use ledger_rs::domain::money::{Currency, Money};
use ledger_rs::domain::transaction::{Category, NewTransaction, Transaction, TransactionId, TransactionKind};
use ledger_rs::infrastructure::in_memory::{InMemoryAccountRepository, InMemoryTransactionRepository};

fn in_memory_repositories(
) -> Result<(InMemoryAccountRepository, InMemoryTransactionRepository), RepositoryError> {
    Ok((InMemoryAccountRepository::new(), InMemoryTransactionRepository::new()))
}

fn build_sample_transactions(
    transaction_repository: &mut impl TransactionRepository,
    account_id: AccountId,
) -> &impl TransactionRepository {
    let transaction1 = Transaction::new(
        TransactionId::new(1),
        account_id,
        TransactionKind::Expense,
        Money::from_minor_units(1_000, ledger_rs::domain::money::Currency::Cny),
        "2026-08-14T12:00:00+08:00[Asia/Shanghai]".parse().unwrap(),
        String::from("Lunch"),
        ledger_rs::domain::transaction::Category::Food,
    )
    .unwrap();
    let transaction2 = Transaction::new(
        TransactionId::new(2),
        account_id,
        TransactionKind::Income,
        Money::from_minor_units(2_000, ledger_rs::domain::money::Currency::Cny),
        "2026-08-15T12:00:00+08:00[Asia/Shanghai]".parse().unwrap(),
        String::from("Salary"),
        Category::Salary,
    )
    .unwrap();
    let transaction3 = Transaction::new(
        TransactionId::new(3),
        account_id,
        TransactionKind::Expense,
        Money::from_minor_units(500, ledger_rs::domain::money::Currency::Cny),
        "2026-08-15T12:00:40+08:00[Asia/Shanghai]".parse().unwrap(),
        String::from("Dinner"),
        Category::Food,
    )
    .unwrap();
    let transaction4 = Transaction::new(
        TransactionId::new(4),
        account_id,
        TransactionKind::Expense,
        Money::from_minor_units(500, ledger_rs::domain::money::Currency::Cny),
        "2026-08-15T12:00:40+08:00[Asia/Shanghai]".parse().unwrap(),
        String::from("Dinner"),
        Category::Food,
    )
    .unwrap();
    transaction_repository.save(transaction3).unwrap();
    transaction_repository.save(transaction4).unwrap();
    transaction_repository.save(transaction1).unwrap();
    transaction_repository.save(transaction2).unwrap();
    transaction_repository
}

#[test]
fn lists_transactions_for_existing_account() {
    let (mut account_repository, mut transaction_repository) =
        in_memory_repositories().unwrap();
    let account_id = AccountId::new(1);
    let account = Account::new(account_id, String::from("Cash"), Currency::Cny).unwrap();
    account_repository.save(account).unwrap();

    let transaction_repository =
        build_sample_transactions(&mut transaction_repository, account_id);

    let transactions = list_account_transactions(
        &account_repository,
        transaction_repository,
        account_id,
        TransactionFilter::default(),
    )
    .unwrap();

    assert_eq!(
        transactions,
        vec![
            Transaction::new(
                TransactionId::new(4),
                account_id,
                TransactionKind::Expense,
                Money::from_minor_units(500, ledger_rs::domain::money::Currency::Cny),
                "2026-08-15T12:00:40+08:00[Asia/Shanghai]".parse().unwrap(),
                String::from("Dinner"),
                Category::Food,
            )
            .unwrap(),
            Transaction::new(
                TransactionId::new(3),
                account_id,
                TransactionKind::Expense,
                Money::from_minor_units(500, ledger_rs::domain::money::Currency::Cny),
                "2026-08-15T12:00:40+08:00[Asia/Shanghai]".parse().unwrap(),
                String::from("Dinner"),
                Category::Food,
            )
            .unwrap(),
            Transaction::new(
                TransactionId::new(2),
                account_id,
                TransactionKind::Income,
                Money::from_minor_units(2_000, ledger_rs::domain::money::Currency::Cny),
                "2026-08-15T12:00:00+08:00[Asia/Shanghai]".parse().unwrap(),
                String::from("Salary"),
                Category::Salary,
            )
            .unwrap(),
            Transaction::new(
                TransactionId::new(1),
                account_id,
                TransactionKind::Expense,
                Money::from_minor_units(1_000, ledger_rs::domain::money::Currency::Cny),
                "2026-08-14T12:00:00+08:00[Asia/Shanghai]".parse().unwrap(),
                String::from("Lunch"),
                Category::Food,
            )
            .unwrap(),
        ]
    );
}

#[test]
fn returns_error_for_nonexistent_account() {
    let (mut account_repository, mut transaction_repository) =
        in_memory_repositories().unwrap();
    let account_id = AccountId::new(999);
    let _ = account_repository
        .save(Account::new(AccountId::new(1), String::from("Cash"), Currency::Cny).unwrap());

    let transaction_repository =
        build_sample_transactions(&mut transaction_repository, AccountId::new(1));

    let result = list_account_transactions(
        &account_repository,
        transaction_repository,
        account_id,
        TransactionFilter::default(),
    );
    assert_eq!(
        result,
        Err(ListTransactionsError::AccountNotFound(account_id))
    );
}

#[test]
fn return_empty_list_for_account_with_no_transactions() {
    let (mut account_repository, mut transaction_repository) =
        in_memory_repositories().unwrap();

    account_repository
        .save(Account::new(AccountId::new(1), String::from("Cash"), Currency::Cny).unwrap())
        .unwrap();

    account_repository
        .save(Account::new(AccountId::new(2), String::from("Cash"), Currency::Cny).unwrap())
        .unwrap();

    let transaction_repository =
        build_sample_transactions(&mut transaction_repository, AccountId::new(1));

    let transactions = list_account_transactions(
        &account_repository,
        transaction_repository,
        AccountId::new(2),
        TransactionFilter::default(),
    )
    .unwrap();

    assert_eq!(transactions.len(), 0);
}

struct FailingAccountRepository;

impl AccountRepository for FailingAccountRepository {
    fn save(&mut self, _account: Account) -> Result<(), RepositoryError> {
        Ok(())
    }

    fn find_by_id(&self, _id: AccountId) -> Result<Option<Account>, RepositoryError> {
        Err(RepositoryError::Storage(
            "account database unavailable".to_string(),
        ))
    }

    fn find_all(&self) -> Result<Vec<Account>, RepositoryError> {
        Err(RepositoryError::Storage(
            "account database unavailable".to_string(),
        ))
    }

    fn create(&mut self, _account: NewAccount) -> Result<Account, RepositoryError> {
        unreachable!()
    }

    fn update(&mut self, _account: Account) -> Result<bool, RepositoryError> {
        unreachable!()
    }

    fn delete(&mut self, _id: AccountId) -> Result<bool, RepositoryError> {
        unreachable!()
    }
}

#[test]
fn list_transactions_returns_repository_error_when_loading_account_fails() {
    let account_repository = FailingAccountRepository;
    let transaction_repository = InMemoryTransactionRepository::new();

    let result = list_account_transactions(
        &account_repository,
        &transaction_repository,
        AccountId::new(1),
        TransactionFilter::default(),
    );

    assert_eq!(
        result,
        Err(ListTransactionsError::Repository(RepositoryError::Storage(
            "account database unavailable".to_string(),
        ),)),
    );
}

struct FailingTransactionRepository;

impl TransactionRepository for FailingTransactionRepository {
    fn save(&mut self, _transaction: Transaction) -> Result<(), RepositoryError> {
        Ok(())
    }

    fn find_by_account_id(
        &self,
        _account_id: AccountId,
    ) -> Result<Vec<Transaction>, RepositoryError> {
        Err(RepositoryError::Storage(
            "transaction database unavailable".to_string(),
        ))
    }

    fn create(&mut self, _transaction: NewTransaction) -> Result<Transaction, RepositoryError> {
        unreachable!()
    }

    fn create_many(
        &mut self,
        _transactions: Vec<NewTransaction>,
    ) -> Result<Vec<Transaction>, RepositoryError> {
        unreachable!()
    }

    fn find_by_id(&self, _id: TransactionId) -> Result<Option<Transaction>, RepositoryError> {
        unreachable!()
    }

    fn update(&mut self, _transaction: Transaction) -> Result<bool, RepositoryError> {
        unreachable!()
    }

    fn delete(&mut self, _id: TransactionId) -> Result<bool, RepositoryError> {
        unreachable!()
    }
}

#[test]
fn list_transactions_returns_repository_error_when_loading_transactions_fails() {
    let mut account_repository = InMemoryAccountRepository::new();

    let account_id = AccountId::new(1);
    let account = Account::new(account_id, "Cash".to_string(), Currency::Cny).unwrap();

    account_repository.save(account).unwrap();

    let transaction_repository = FailingTransactionRepository;

    let result = list_account_transactions(
        &account_repository,
        &transaction_repository,
        account_id,
        TransactionFilter::default(),
    );

    assert_eq!(
        result,
        Err(ListTransactionsError::Repository(RepositoryError::Storage(
            "transaction database unavailable".to_string(),
        ),)),
    );
}

#[test]
fn filters_transactions_by_category() {
    let (mut account_repository, mut transaction_repository) =
        in_memory_repositories().unwrap();

    let account_id = AccountId::new(1);
    let account = Account::new(account_id, "Cash".to_string(), Currency::Cny).unwrap();
    account_repository.save(account).unwrap();

    let transaction_repository =
        build_sample_transactions(&mut transaction_repository, account_id);

    let filter = TransactionFilter {
        category: Some(Category::Food),
        kind: None,
        from: None,
        to: None,
        ..TransactionFilter::default()
    };

    let result = list_account_transactions(
        &account_repository,
        transaction_repository,
        account_id,
        filter,
    );

    assert_eq!(
        result,
        Ok(vec![
            Transaction::new(
                TransactionId::new(4),
                account_id,
                TransactionKind::Expense,
                Money::from_minor_units(500, ledger_rs::domain::money::Currency::Cny),
                "2026-08-15T12:00:40+08:00[Asia/Shanghai]".parse().unwrap(),
                String::from("Dinner"),
                Category::Food,
            )
            .unwrap(),
            Transaction::new(
                TransactionId::new(3),
                account_id,
                TransactionKind::Expense,
                Money::from_minor_units(500, ledger_rs::domain::money::Currency::Cny),
                "2026-08-15T12:00:40+08:00[Asia/Shanghai]".parse().unwrap(),
                String::from("Dinner"),
                Category::Food,
            )
            .unwrap(),
            Transaction::new(
                TransactionId::new(1),
                account_id,
                TransactionKind::Expense,
                Money::from_minor_units(1_000, ledger_rs::domain::money::Currency::Cny),
                "2026-08-14T12:00:00+08:00[Asia/Shanghai]".parse().unwrap(),
                String::from("Lunch"),
                Category::Food,
            )
            .unwrap(),
        ])
    );
}

#[test]
fn filters_transactions_by_kind() {
    let (mut account_repository, mut transaction_repository) =
        in_memory_repositories().unwrap();

    let account_id = AccountId::new(1);
    let account = Account::new(account_id, "Cash".to_string(), Currency::Cny).unwrap();
    account_repository.save(account).unwrap();

    let transaction_repository =
        build_sample_transactions(&mut transaction_repository, account_id);

    let filter = TransactionFilter {
        category: None,
        kind: Some(TransactionKind::Expense),
        from: None,
        to: None,
        ..TransactionFilter::default()
    };

    let result = list_account_transactions(
        &account_repository,
        transaction_repository,
        account_id,
        filter,
    );

    assert_eq!(
        result,
        Ok(vec![
            Transaction::new(
                TransactionId::new(4),
                account_id,
                TransactionKind::Expense,
                Money::from_minor_units(500, ledger_rs::domain::money::Currency::Cny),
                "2026-08-15T12:00:40+08:00[Asia/Shanghai]".parse().unwrap(),
                String::from("Dinner"),
                Category::Food,
            )
            .unwrap(),
            Transaction::new(
                TransactionId::new(3),
                account_id,
                TransactionKind::Expense,
                Money::from_minor_units(500, ledger_rs::domain::money::Currency::Cny),
                "2026-08-15T12:00:40+08:00[Asia/Shanghai]".parse().unwrap(),
                String::from("Dinner"),
                Category::Food,
            )
            .unwrap(),
            Transaction::new(
                TransactionId::new(1),
                account_id,
                TransactionKind::Expense,
                Money::from_minor_units(1_000, ledger_rs::domain::money::Currency::Cny),
                "2026-08-14T12:00:00+08:00[Asia/Shanghai]".parse().unwrap(),
                String::from("Lunch"),
                Category::Food,
            )
            .unwrap(),
        ])
    );
}

#[test]
fn returns_empty_list_when_no_transactions_match_filter() {
    let (mut account_repository, mut transaction_repository) =
        in_memory_repositories().unwrap();

    let account_id = AccountId::new(1);
    let account = Account::new(account_id, "Cash".to_string(), Currency::Cny).unwrap();
    account_repository.save(account).unwrap();

    let transaction_repository =
        build_sample_transactions(&mut transaction_repository, account_id);

    let filter = TransactionFilter {
        category: Some(Category::Entertainment),
        kind: Some(TransactionKind::Expense),
        from: None,
        to: None,
        ..TransactionFilter::default()
    };

    let result = list_account_transactions(
        &account_repository,
        transaction_repository,
        account_id,
        filter,
    );

    assert_eq!(result, Ok(vec![]));
}

#[test]
fn returns_error_when_from_date_is_after_to_date() {
    let (mut account_repository, mut transaction_repository) =
        in_memory_repositories().unwrap();

    let account_id = AccountId::new(1);
    let account = Account::new(account_id, "Cash".to_string(), Currency::Cny).unwrap();
    account_repository.save(account).unwrap();

    let transaction_repository =
        build_sample_transactions(&mut transaction_repository, account_id);

    let filter = TransactionFilter {
        category: None,
        kind: Some(TransactionKind::Expense),
        from: Some("2026-08-15T12:00:00+08:00[Asia/Shanghai]".parse().unwrap()),
        to: Some("2026-08-14T12:00:00+08:00[Asia/Shanghai]".parse().unwrap()),
        ..TransactionFilter::default()
    };

    let result = list_account_transactions(
        &account_repository,
        transaction_repository,
        account_id,
        filter,
    );

    assert_eq!(
        result,
        Err(ListTransactionsError::TimeRangeError {
            from: "2026-08-15T12:00:00+08:00[Asia/Shanghai]".parse().unwrap(),
            to: "2026-08-14T12:00:00+08:00[Asia/Shanghai]".parse().unwrap(),
        })
    );
}

#[test]
fn filters_transactions_by_time_range() {
    let (mut account_repository, mut transaction_repository) =
        in_memory_repositories().unwrap();

    let account_id = AccountId::new(1);
    let account = Account::new(account_id, "Cash".to_string(), Currency::Cny).unwrap();
    account_repository.save(account).unwrap();

    let transaction_repository =
        build_sample_transactions(&mut transaction_repository, account_id);

    let filter = TransactionFilter {
        category: None,
        kind: Some(TransactionKind::Expense),
        from: Some("2026-08-14T12:00:00+08:00[Asia/Shanghai]".parse().unwrap()),
        to: Some("2026-08-15T12:00:00+08:00[Asia/Shanghai]".parse().unwrap()),
        ..TransactionFilter::default()
    };

    let result = list_account_transactions(
        &account_repository,
        transaction_repository,
        account_id,
        filter,
    );

    assert_eq!(
        result,
        Ok(vec![
            Transaction::new(
                TransactionId::new(1),
                account_id,
                TransactionKind::Expense,
                Money::from_minor_units(1_000, ledger_rs::domain::money::Currency::Cny),
                "2026-08-14T12:00:00+08:00[Asia/Shanghai]".parse().unwrap(),
                String::from("Lunch"),
                Category::Food,
            )
            .unwrap(),
        ])
    );
}

#[test]
fn filters_by_description_and_amount_range() {
    let (mut accounts, mut transactions) = in_memory_repositories().unwrap();
    let account_id = AccountId::new(1);
    accounts
        .save(Account::new(account_id, "Cash".to_string(), Currency::Cny).unwrap())
        .unwrap();
    let transactions = build_sample_transactions(&mut transactions, account_id);

    let result = list_account_transactions(
        &accounts,
        transactions,
        account_id,
        TransactionFilter {
            description_contains: Some("DIN".to_string()),
            min_amount_minor: Some(400),
            max_amount_minor: Some(600),
            ..TransactionFilter::default()
        },
    )
    .unwrap();

    assert_eq!(result.len(), 2);
    assert!(result.iter().all(|item| item.description() == "Dinner"));
}

#[test]
fn rejects_invalid_search_and_page_ranges() {
    let (mut accounts, transactions) = in_memory_repositories().unwrap();
    let account_id = AccountId::new(1);
    accounts
        .save(Account::new(account_id, "Cash".to_string(), Currency::Cny).unwrap())
        .unwrap();

    assert_eq!(
        list_account_transactions(
            &accounts,
            &transactions,
            account_id,
            TransactionFilter {
                min_amount_minor: Some(10),
                max_amount_minor: Some(5),
                ..TransactionFilter::default()
            },
        ),
        Err(ListTransactionsError::InvalidAmountRange {
            min: Some(10),
            max: Some(5),
        })
    );
    assert_eq!(
        list_account_transaction_page(
            &accounts,
            &transactions,
            account_id,
            TransactionFilter::default(),
            TransactionPageRequest {
                limit: 0,
                cursor: None,
            },
        ),
        Err(ListTransactionsError::InvalidPageLimit {
            limit: 0,
            max: MAX_TRANSACTION_PAGE_SIZE,
        })
    );
}

#[test]
fn pages_with_stable_time_and_id_cursor() {
    let (mut accounts, mut transactions) = in_memory_repositories().unwrap();
    let account_id = AccountId::new(1);
    accounts
        .save(Account::new(account_id, "Cash".to_string(), Currency::Cny).unwrap())
        .unwrap();
    build_sample_transactions(&mut transactions, account_id);

    let first = list_account_transaction_page(
        &accounts,
        &transactions,
        account_id,
        TransactionFilter::default(),
        TransactionPageRequest {
            limit: 2,
            cursor: None,
        },
    )
    .unwrap();
    assert_eq!(
        first
            .items
            .iter()
            .map(|item| item.id().value())
            .collect::<Vec<_>>(),
        vec![4, 3]
    );

    let second = list_account_transaction_page(
        &accounts,
        &transactions,
        account_id,
        TransactionFilter::default(),
        TransactionPageRequest {
            limit: 2,
            cursor: first.next_cursor,
        },
    )
    .unwrap();
    assert_eq!(
        second
            .items
            .iter()
            .map(|item| item.id().value())
            .collect::<Vec<_>>(),
        vec![2, 1]
    );
    assert_eq!(second.next_cursor, None);
}

#[test]
fn adjacent_month_ranges_do_not_overlap() {
    let (mut account_repository, mut transaction_repository) =
        in_memory_repositories().unwrap();
    let account_id = AccountId::new(1);
    account_repository
        .save(Account::new(account_id, String::from("Cash"), Currency::Cny).unwrap())
        .unwrap();
    for (id, occurred_at) in [
        (1, "2026-08-31T23:59:59+08:00[Asia/Shanghai]"),
        (2, "2026-09-01T00:00:00+08:00[Asia/Shanghai]"),
    ] {
        transaction_repository
            .save(
                Transaction::new(
                    TransactionId::new(id),
                    account_id,
                    TransactionKind::Expense,
                    Money::from_minor_units(100, Currency::Cny),
                    occurred_at.parse().unwrap(),
                    String::from("Boundary"),
                    Category::Food,
                )
                .unwrap(),
            )
            .unwrap();
    }
    let ids_between = |from: &str, to: &str| -> Vec<u64> {
        list_account_transactions(
            &account_repository,
            &transaction_repository,
            account_id,
            TransactionFilter {
                from: Some(from.parse().unwrap()),
                to: Some(to.parse().unwrap()),
                ..TransactionFilter::default()
            },
        )
        .unwrap()
        .iter()
        .map(|value| value.id().value())
        .collect()
    };
    let august = ids_between(
        "2026-08-01T00:00:00+08:00[Asia/Shanghai]",
        "2026-09-01T00:00:00+08:00[Asia/Shanghai]",
    );
    let september = ids_between(
        "2026-09-01T00:00:00+08:00[Asia/Shanghai]",
        "2026-10-01T00:00:00+08:00[Asia/Shanghai]",
    );
    let both = ids_between(
        "2026-08-01T00:00:00+08:00[Asia/Shanghai]",
        "2026-10-01T00:00:00+08:00[Asia/Shanghai]",
    );
    assert_eq!(august, vec![1]);
    assert_eq!(september, vec![2]);
    assert_eq!(both, vec![2, 1]);
}
