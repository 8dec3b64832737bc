use ledger_rs::domain::account::{Account, AccountId};
use ledger_rs::domain::balance::{BalanceError, calculate_balance};
use ledger_rs::domain::money::{Currency, Money};
use ledger_rs::domain::time::ZonedTime;
use ledger_rs::domain::transaction::{Category, Transaction, TransactionId, TransactionKind};

fn sample_account() -> Account {
    Account::new(AccountId::new(1), "Cash".to_string(), Currency::Cny).unwrap()
}

fn sample_occurred_at() -> ZonedTime {
    "2026-08-10T18:30:00+08:00[Asia/Shanghai]".parse().unwrap()
}

#[test]
fn balance_calculates_balance_from_income_and_expense_transactions() {
    let account = sample_account();
    let occurred_at = sample_occurred_at();

    let transactions = vec![
        Transaction::new(
            TransactionId::new(1),
            AccountId::new(1),
            TransactionKind::Income,
            Money::from_minor_units(1_000, Currency::Cny),
            occurred_at.clone(),
            "Salary".to_string(),
            Category::Food,
        )
        .unwrap(),
        Transaction::new(
            TransactionId::new(2),
            AccountId::new(1),
            TransactionKind::Expense,
            Money::from_minor_units(250, Currency::Cny),
            occurred_at,
            "Groceries".to_string(),
            Category::Food,
        )
        .unwrap(),
    ];

    let balance = calculate_balance(&account, &transactions).unwrap();

    assert_eq!(balance, Money::from_minor_units(750, Currency::Cny));
}

#[test]
fn check_account_error() {
    let account = sample_account();
    let occurred_at = sample_occurred_at();

    let transactions = vec![
        Transaction::new(
            TransactionId::new(1),
            AccountId::new(1),
            TransactionKind::Income,
            Money::from_minor_units(1_000, Currency::Cny),
            occurred_at.clone(),
            "Salary".to_string(),
            Category::Food,
        )
        .unwrap(),
        Transaction::new(
            TransactionId::new(2),
            AccountId::new(2),
            TransactionKind::Expense,
            Money::from_minor_units(250, Currency::Cny),
            occurred_at,
            "Groceries".to_string(),
            Category::Food,
        )
        .unwrap(),
    ];

    assert_eq!(
        calculate_balance(&account, &transactions),
        Err(BalanceError::AccountMismatch {
            expected: account.id(),
            found: AccountId::new(2),
        })
    );
}

#[test]
fn check_currency_error() {
    let account = sample_account();
    let occurred_at = sample_occurred_at();

    let transactions = vec![
        Transaction::new(
            TransactionId::new(1),
            AccountId::new(1),
            TransactionKind::Income,
            Money::from_minor_units(1_000, Currency::Cny),
            occurred_at.clone(),
            "Salary".to_string(),
            Category::Food,
        )
        .unwrap(),
        Transaction::new(
            TransactionId::new(2),
            AccountId::new(1),
            TransactionKind::Expense,
            Money::from_minor_units(250, Currency::Usd),
            occurred_at,
            "Groceries".to_string(),
            Category::Food,
        )
        .unwrap(),
    ];

    assert_eq!(
        calculate_balance(&account, &transactions),
        Err(BalanceError::CurrencyMismatch {
            expected: account.currency(),
            found: Currency::Usd,
        })
    );
}

#[test]
fn check_empty_transactions() {
    let account = sample_account();

    let transactions = vec![];

    assert_eq!(
        calculate_balance(&account, &transactions),
        Ok(Money::from_minor_units(0, Currency::Cny))
    );
}

#[test]
fn expense_refund_increases_balance() {
    let account = sample_account();
    let occurred_at = sample_occurred_at();

    let transactions = vec![
        Transaction::new(
            TransactionId::new(1),
            AccountId::new(1),
            TransactionKind::ExpenseRefund,
            Money::from_minor_units(250, Currency::Cny),
            occurred_at,
            "Refund".to_string(),
            Category::Food,
        )
        .unwrap(),
    ];

    let balance = calculate_balance(&account, &transactions).unwrap();

    assert_eq!(balance, Money::from_minor_units(250, Currency::Cny));
}

#[test]
fn returns_overflow_when_income_addition_overflows() {
    let account = sample_account();
    let occurred_at = sample_occurred_at();

    let transactions = vec![
        Transaction::new(
            TransactionId::new(1),
            AccountId::new(1),
            TransactionKind::Income,
            Money::from_minor_units(i64::MAX, Currency::Cny),
            occurred_at.clone(),
            "Max income".to_string(),
            Category::Food,
        )
        .unwrap(),
        Transaction::new(
            TransactionId::new(2),
            AccountId::new(1),
            TransactionKind::Income,
            Money::from_minor_units(1, Currency::Cny),
            occurred_at,
            "Overflow income".to_string(),
            Category::Food,
        )
        .unwrap(),
    ];

    assert_eq!(
        calculate_balance(&account, &transactions),
        Err(BalanceError::ArithmeticOverflow)
    );
}

#[test]
fn returns_overflow_when_expense_subtraction_overflows() {
    let account = sample_account();
    let occurred_at = sample_occurred_at();

    let transactions = vec![
        Transaction::new(
            TransactionId::new(1),
            AccountId::new(1),
            TransactionKind::Expense,
            Money::from_minor_units(i64::MAX, Currency::Cny),
            occurred_at.clone(),
            "Max expense".to_string(),
            Category::Food,
        )
        .unwrap(),
        Transaction::new(
            TransactionId::new(2),
            AccountId::new(1),
            TransactionKind::Expense,
            Money::from_minor_units(1, Currency::Cny),
            occurred_at.clone(),
            "Min balance".to_string(),
            Category::Food,
        )
        .unwrap(),
        Transaction::new(
            TransactionId::new(3),
            AccountId::new(1),
            TransactionKind::Expense,
            Money::from_minor_units(1, Currency::Cny),
            occurred_at,
            "Overflow expense".to_string(),
            Category::Food,
        )
        .unwrap(),
    ];

    assert_eq!(
        calculate_balance(&account, &transactions),
        Err(BalanceError::ArithmeticOverflow)
    );
}
