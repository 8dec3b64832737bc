use ledger_rs::application::budget_report::BudgetReportError;
use ledger_rs::application::manage_transfer::ManageTransferError;
use ledger_rs::application::record_transaction::RecordTransactionError;
use ledger_rs::application::repository::RepositoryError;
use ledger_rs::domain::account::{AccountError, AccountId};
use ledger_rs::domain::balance::BalanceError;
use ledger_rs::domain::budget::BudgetError;
use ledger_rs::domain::money::{Currency, MoneyError};
use ledger_rs::domain::transaction::{TransactionError, TransactionId};
use ledger_rs::domain::transfer::TransferError;

#[test]
fn describes_domain_errors() {
    assert_eq!(
        AccountError::EmptyName.message(),
        "account name must not be empty"
    );
    assert_eq!(
        TransactionError::InvalidAmount.message(),
        "amount must be greater than zero"
    );
    assert_eq!(
        MoneyError::CurrencyMismatch {
            expected: Currency::Cny,
            found: Currency::Usd
        }
        .message(),
        "currency mismatch: expected CNY, found USD"
    );
    assert_eq!(
        BalanceError::AccountMismatch {
            expected: AccountId::new(1),
            found: AccountId::new(22)
        }
        .message(),
        "account mismatch: expected account 1, found account 22"
    );
    assert_eq!(BalanceError::ArithmeticOverflow.message(), "arithmetic overflow");
}

#[test]
fn pads_invalid_budget_months() {
    assert_eq!(
        BudgetError::InvalidMonth { year: 26, month: 3 }.message(),
        "invalid month 0026-03"
    );
    assert_eq!(
        BudgetError::InvalidMonth { year: -5, month: 13 }.message(),
        "invalid month -005-13"
    );
    assert_eq!(
        BudgetError::InvalidMonth {
            year: 12345,
            month: 0
        }
        .message(),
        "invalid month 12345-00"
    );
    assert_eq!(
        BudgetError::InvalidLimit.message(),
        "budget limit must be greater than zero"
    );
}

#[test]
fn wraps_repository_errors() {
    assert_eq!(
        RepositoryError::DuplicateTransactionId(TransactionId::new(7)).message(),
        "duplicate transaction id 7"
    );
    assert_eq!(
        RepositoryError::InvalidStoredData("bad row".to_string()).message(),
        "invalid stored data: bad row"
    );
    assert_eq!(
        RecordTransactionError::Repository(RepositoryError::IdExhausted).message(),
        "repository error: repository exhausted its id space"
    );
    assert_eq!(
        RecordTransactionError::AccountNotFound(AccountId::new(3)).message(),
        "account 3 not found"
    );
}

#[test]
fn describes_report_and_transfer_errors() {
    assert_eq!(
        BudgetReportError::InvalidTimeZone("Mars/Base".to_string()).message(),
        "invalid time zone \"Mars/Base\""
    );
    assert_eq!(
        ManageTransferError::CurrencyMismatch {
            account_id: AccountId::new(2),
            expected: Currency::Eur,
            found: Currency::Hkd,
        }
        .message(),
        "currency mismatch for account 2: expected EUR, found HKD"
    );
    assert_eq!(
        ManageTransferError::Transfer(TransferError::SameAccount).message(),
        "SameAccount"
    );
}
