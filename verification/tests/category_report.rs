use ledger_rs::application::category_report::{GetCategoryReportError, get_net_outflow_by_category};
use ledger_rs::application::repository::{AccountRepository, RepositoryError, TransactionRepository};
use ledger_rs::domain::account::{Account, AccountId, NewAccount};
use ledger_rs::domain::category_report::CategoryReportError;
use ledger_rs::domain::money::{Currency, Money};
use ledger_rs::domain::time::ZonedTime;
use ledger_rs::domain::transaction::{Category, NewTransaction, Transaction, TransactionId, TransactionKind};
use ledger_rs::infrastructure::in_memory::{InMemoryAccountRepository, InMemoryTransactionRepository};

fn fixed_time() -> ZonedTime {
    "2026-08-20T10:00:00+08:00[Asia/Shanghai]".parse().unwrap()
}

fn sample_account_repository() -> InMemoryAccountRepository {
    let mut account_repository = InMemoryAccountRepository::new();
    let account_id = AccountId::new(1);
    let account = ledger_rs::domain::account::Account::new(
        account_id,
        String::from("Cash"),
        ledger_rs::domain::money::Currency::Cny,
    )
    .unwrap();
    account_repository.save(account).unwrap();
    account_repository
}

fn sample_transaction_repository() -> InMemoryTransactionRepository {
    let mut transaction_repository = InMemoryTransactionRepository::new();
    let account_id = AccountId::new(1);

    let transactions = vec![
        Transaction::new(
            TransactionId::new(1),
            account_id,
            ledger_rs::domain::transaction::TransactionKind::Expense,
            ledger_rs::domain::money::Money::from_minor_units(
                100,
                ledger_rs::domain::money::Currency::Cny,
            ),
            fixed_time(),
            String::from("Lunch"),
            ledger_rs::domain::transaction::Category::Food,
        )
        .unwrap(),
        Transaction::new(
            TransactionId::new(2),
            account_id,
            ledger_rs::domain::transaction::TransactionKind::Expense,
            ledger_rs::domain::money::Money::from_minor_units(
                50,
                ledger_rs::domain::money::Currency::Cny,
            ),
            fixed_time(),
            String::from("Lunch"),
            ledger_rs::domain::transaction::Category::Food,
        )
        .unwrap(),
        Transaction::new(
            TransactionId::new(3),
            account_id,
            ledger_rs::domain::transaction::TransactionKind::Expense,
            ledger_rs::domain::money::Money::from_minor_units(
                50,
                ledger_rs::domain::money::Currency::Cny,
            ),
            fixed_time(),
            String::from("Bus fare"),
            ledger_rs::domain::transaction::Category::Transportation,
        )
        .unwrap(),
    ];

    for transaction in transactions {
        transaction_repository.save(transaction).unwrap();
    }

    transaction_repository
}

#[test]
fn category_report_returns_account_not_found_for_unknown_account() {
    let account_repository = InMemoryAccountRepository::new();
    let transaction_repository = InMemoryTransactionRepository::new();

    let account_id = AccountId::new(1);
    let result =
        get_net_outflow_by_category(&account_repository, &transaction_repository, account_id);
    assert_eq!(
        result,
        Err(GetCategoryReportError::AccountNotFound(account_id))
    );
}

#[test]
fn returns_empty_report_for_account_with_no_transactions() {
    let account_repository = sample_account_repository();
    let transaction_repository = InMemoryTransactionRepository::new();

    let account_id = AccountId::new(1);
    let result =
        get_net_outflow_by_category(&account_repository, &transaction_repository, account_id);
    assert_eq!(result.map(|totals| totals.to_pairs()), Ok(vec![]));
}

#[test]
fn returns_correct_report_for_account_with_transactions() {
    let account_repository = sample_account_repository();
    let transaction_repository = sample_transaction_repository();

    let account_id = AccountId::new(1);
    let result =
        get_net_outflow_by_category(&account_repository, &transaction_repository, account_id);
    let expected = vec![
        (
            Category::Food,
            Money::from_minor_units(150, ledger_rs::domain::money::Currency::Cny),
        ),
        (
            Category::Transportation,
            Money::from_minor_units(50, ledger_rs::domain::money::Currency::Cny),
        ),
    ];
    assert_eq!(result.map(|totals| totals.to_pairs()), Ok(expected));
}

struct FailingAccountRepository;

impl AccountRepository for FailingAccountRepository {
    fn create(
        &mut self,
        _account: ledger_rs::domain::account::NewAccount,
    ) -> Result<Account, RepositoryError> {
        Err(RepositoryError::Storage("database unavailable".to_string()))
    }

    fn save(&mut self, _account: Account) -> Result<(), RepositoryError> {
        Err(RepositoryError::Storage("database unavailable".to_string()))
    }

    fn find_by_id(&self, _id: AccountId) -> Result<Option<Account>, RepositoryError> {
        Err(RepositoryError::Storage("database unavailable".to_string()))
    }

    fn find_all(&self) -> Result<Vec<Account>, RepositoryError> {
        Err(RepositoryError::Storage("database unavailable".to_string()))
    }

    fn update(&mut self, _account: Account) -> Result<bool, RepositoryError> {
        Err(RepositoryError::Storage("database unavailable".to_string()))
    }

    fn delete(&mut self, _id: AccountId) -> Result<bool, RepositoryError> {
        Err(RepositoryError::Storage("database unavailable".to_string()))
    }
}

#[test]
fn category_report_returns_repository_error_when_loading_account_fails() {
    let account_repository = FailingAccountRepository;
    let transaction_repository = InMemoryTransactionRepository::new();
    let account_id = AccountId::new(1);

    let result =
        get_net_outflow_by_category(&account_repository, &transaction_repository, account_id);

    assert_eq!(
        result,
        Err(GetCategoryReportError::Repository(
            RepositoryError::Storage("database unavailable".to_string(),),
        )),
    );
}

struct FailingTransactionRepository;

impl TransactionRepository for FailingTransactionRepository {
    fn create(
        &mut self,
        _transaction: ledger_rs::domain::transaction::NewTransaction,
    ) -> Result<Transaction, RepositoryError> {
        Err(RepositoryError::Storage("database unavailable".to_string()))
    }

    fn create_many(
        &mut self,
        _transactions: Vec<ledger_rs::domain::transaction::NewTransaction>,
    ) -> Result<Vec<Transaction>, RepositoryError> {
        Err(RepositoryError::Storage("database unavailable".to_string()))
    }

    fn save(&mut self, _transaction: Transaction) -> Result<(), RepositoryError> {
        Err(RepositoryError::Storage("database unavailable".to_string()))
    }

    fn find_by_id(&self, _id: TransactionId) -> Result<Option<Transaction>, RepositoryError> {
        Err(RepositoryError::Storage("database unavailable".to_string()))
    }

    fn find_by_account_id(
        &self,
        _account_id: AccountId,
    ) -> Result<Vec<Transaction>, RepositoryError> {
        Err(RepositoryError::Storage("database unavailable".to_string()))
    }

    fn update(&mut self, _transaction: Transaction) -> Result<bool, RepositoryError> {
        Err(RepositoryError::Storage("database unavailable".to_string()))
    }

    fn delete(&mut self, _id: TransactionId) -> Result<bool, RepositoryError> {
        Err(RepositoryError::Storage("database unavailable".to_string()))
    }
}

#[test]
fn category_report_returns_repository_error_when_loading_transactions_fails() {
    let account_repository = sample_account_repository();
    let transaction_repository = FailingTransactionRepository;
    let account_id = AccountId::new(1);

    let result =
        get_net_outflow_by_category(&account_repository, &transaction_repository, account_id);

    assert_eq!(
        result,
        Err(GetCategoryReportError::Repository(
            RepositoryError::Storage("database unavailable".to_string(),),
        )),
    );
}

#[test]
fn returns_report_error_for_currency_mismatch() {
    let account_repository = sample_account_repository();
    let mut transaction_repository = InMemoryTransactionRepository::new();
    let account_id = AccountId::new(1);

    let transaction = Transaction::new(
        TransactionId::new(1),
        account_id,
        ledger_rs::domain::transaction::TransactionKind::Expense,
        Money::from_minor_units(100, ledger_rs::domain::money::Currency::Usd),
        fixed_time(),
        String::from("Lunch"),
        ledger_rs::domain::transaction::Category::Food,
    )
    .unwrap();
    transaction_repository.save(transaction).unwrap();

    let result =
        get_net_outflow_by_category(&account_repository, &transaction_repository, account_id);

    assert_eq!(
        result,
        Err(GetCategoryReportError::Report(
            CategoryReportError::CurrencyMismatch {
                expected: ledger_rs::domain::money::Currency::Cny,
                found: ledger_rs::domain::money::Currency::Usd,
            }
        )),
    );
}
