use ledger_rs::domain::account::AccountId;
use ledger_rs::domain::money::{Currency, Money};
use ledger_rs::domain::time::ZonedTime;
use ledger_rs::domain::transaction::{Category, Transaction, TransactionError, TransactionId, TransactionKind};

fn sample_occurred_at() -> ZonedTime {
    "2026-08-10T18:30:00+08:00[Asia/Shanghai]".parse().unwrap()
}

#[test]
fn transaction_id_preserves_its_value() {
    let id = TransactionId::new(42);
    assert_eq!(id.value(), 42);
}

#[test]
fn creates_income_transaction() {
    let transaction = Transaction::new(
        TransactionId::new(1),
        AccountId::new(1),
        TransactionKind::Income,
        Money::from_minor_units(1_000, Currency::Cny),
        sample_occurred_at(),
        "Salary".to_string(),
        Category::Food,
    )
    .unwrap();

    assert_eq!(transaction.id(), TransactionId::new(1));
    assert_eq!(transaction.account_id(), AccountId::new(1));
    assert_eq!(transaction.kind(), TransactionKind::Income);
    assert_eq!(
        transaction.amount(),
        &Money::from_minor_units(1_000, Currency::Cny)
    );
    assert_eq!(transaction.description(), "Salary");
}

#[test]
fn creates_expense_transaction() {
    let transaction = Transaction::new(
        TransactionId::new(1),
        AccountId::new(1),
        TransactionKind::Expense,
        Money::from_minor_units(500, Currency::Cny),
        sample_occurred_at(),
        "Groceries".to_string(),
        Category::Food,
    )
    .unwrap();

    assert_eq!(transaction.id(), TransactionId::new(1));
    assert_eq!(transaction.account_id(), AccountId::new(1));
    assert_eq!(transaction.kind(), TransactionKind::Expense);
    assert_eq!(
        transaction.amount(),
        &Money::from_minor_units(500, Currency::Cny)
    );
    assert_eq!(transaction.description(), "Groceries");
}

#[test]
fn creates_expense_refund_transaction() {
    let transaction = Transaction::new(
        TransactionId::new(2),
        AccountId::new(1),
        TransactionKind::ExpenseRefund,
        Money::from_minor_units(20_000, Currency::Cny),
        sample_occurred_at(),
        String::from("Dinner reimbursement"),
        Category::Food,
    )
    .unwrap();

    assert_eq!(transaction.kind(), TransactionKind::ExpenseRefund);
    assert_eq!(transaction.amount().minor_units(), 20_000);
    assert_eq!(transaction.category(), Category::Food);
}

#[test]
fn rejects_zero_amount() {
    let result = Transaction::new(
        TransactionId::new(1),
        AccountId::new(1),
        TransactionKind::Income,
        Money::from_minor_units(0, Currency::Cny),
        sample_occurred_at(),
        "Test".to_string(),
        Category::Food,
    );

    assert_eq!(result, Err(TransactionError::InvalidAmount));
}

#[test]
fn rejects_negative_amount() {
    let result = Transaction::new(
        TransactionId::new(1),
        AccountId::new(1),
        TransactionKind::Income,
        Money::from_minor_units(-100, Currency::Cny),
        sample_occurred_at(),
        "Test".to_string(),
        Category::Food,
    );

    assert_eq!(result, Err(TransactionError::InvalidAmount));
}

#[test]
fn rejects_empty_description() {
    let result = Transaction::new(
        TransactionId::new(1),
        AccountId::new(1),
        TransactionKind::Income,
        Money::from_minor_units(1_000, Currency::Cny),
        sample_occurred_at(),
        "".to_string(),
        Category::Food,
    );

    assert_eq!(result, Err(TransactionError::EmptyDescription));
}

#[test]
fn rejects_whitespace_only_description() {
    let result = Transaction::new(
        TransactionId::new(1),
        AccountId::new(1),
        TransactionKind::Income,
        Money::from_minor_units(1_000, Currency::Cny),
        sample_occurred_at(),
        "   ".to_string(),
        Category::Food,
    );

    assert_eq!(result, Err(TransactionError::EmptyDescription));
}

#[test]
fn trims_description() {
    let transaction = Transaction::new(
        TransactionId::new(1),
        AccountId::new(1),
        TransactionKind::Income,
        Money::from_minor_units(1_000, Currency::Cny),
        sample_occurred_at(),
        "  Test  ".to_string(),
        Category::Food,
    )
    .unwrap();

    assert_eq!(transaction.description(), "Test");
}

#[test]
fn preserves_occurrence_time_and_time_zone() {
    let occurred_at = sample_occurred_at();
    let expected_timestamp = occurred_at.timestamp_nanos();

    let transaction = Transaction::new(
        TransactionId::new(1),
        AccountId::new(1),
        TransactionKind::Expense,
        Money::from_minor_units(1_000, Currency::Cny),
        occurred_at,
        String::from("Dinner"),
        Category::Food,
    )
    .unwrap();

    assert_eq!(transaction.occurred_at().timestamp_nanos(), expected_timestamp,);

    assert_eq!(
        transaction.occurred_at().time_zone_name(),
        Some("Asia/Shanghai"),
    );
}
