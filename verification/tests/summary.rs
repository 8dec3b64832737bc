use ledger_rs::domain::account::{Account, AccountId};
use ledger_rs::domain::money::{Currency, Money};
use ledger_rs::domain::summary::{SummaryError, calculate_summary};
use ledger_rs::domain::time::ZonedTime;
use ledger_rs::domain::transaction::{Category, Transaction, TransactionId, TransactionKind};

fn fixed_time() -> ZonedTime {
    "2026-08-20T10:00:00+08:00[Asia/Shanghai]".parse().unwrap()
}

fn sample_account() -> Account {
    Account::new(AccountId::new(1), String::from("Cash"), Currency::Cny).unwrap()
}

fn sample_transactions() -> Vec<Transaction> {
    let account_id = AccountId::new(1);
    vec![
        Transaction::new(
            TransactionId::new(1),
            account_id,
            TransactionKind::Income,
            Money::from_minor_units(1000, Currency::Cny),
            fixed_time(),
            "Salary for August".to_string(),
            Category::Salary,
        )
        .unwrap(),
        Transaction::new(
            TransactionId::new(2),
            account_id,
            TransactionKind::Expense,
            Money::from_minor_units(200, Currency::Cny),
            fixed_time(),
            "Food for August".to_string(),
            Category::Food,
        )
        .unwrap(),
        Transaction::new(
            TransactionId::new(3),
            account_id,
            TransactionKind::ExpenseRefund,
            Money::from_minor_units(50, Currency::Cny),
            fixed_time(),
            "Refund for Food".to_string(),
            Category::Food,
        )
        .unwrap(),
    ]
}

#[test]
fn calculates_summary_report() {
    let account = sample_account();
    let transactions = sample_transactions();

    let report = calculate_summary(&account, &transactions).unwrap();

    assert_eq!(report.income_total().minor_units(), 1000);
    assert_eq!(report.net_expense_total().minor_units(), 150);
    assert_eq!(report.net_change().minor_units(), 850);

    let food_outflow = report.net_outflow_by_category().get(Category::Food).unwrap();
    assert_eq!(food_outflow.minor_units(), 150);
}

#[test]
fn empty_transactions() {
    let account = sample_account();
    let transactions: Vec<Transaction> = vec![];

    let report = calculate_summary(&account, &transactions).unwrap();

    assert_eq!(report.income_total().minor_units(), 0);
    assert_eq!(report.net_expense_total().minor_units(), 0);
    assert_eq!(report.net_change().minor_units(), 0);
    assert!(report.net_outflow_by_category().is_empty());
}

#[test]
fn account_mismatch() {
    let account = sample_account();
    let transactions = vec![
        Transaction::new(
            TransactionId::new(1),
            AccountId::new(2), // Different account ID
            TransactionKind::Income,
            Money::from_minor_units(1000, Currency::Cny),
            fixed_time(),
            "Salary".to_string(),
            Category::Salary,
        )
        .unwrap(),
    ];

    let result = calculate_summary(&account, &transactions);
    assert_eq!(
        result,
        Err(SummaryError::AccountMismatch {
            expected: account.id(),
            found: AccountId::new(2),
        })
    );
}

#[test]
fn currency_mismatch() {
    let account = sample_account();
    let transactions = vec![
        Transaction::new(
            TransactionId::new(1),
            account.id(),
            TransactionKind::Income,
            Money::from_minor_units(1000, Currency::Usd), // Different currency
            fixed_time(),
            "Salary".to_string(),
            Category::Salary,
        )
        .unwrap(),
    ];
    let result = calculate_summary(&account, &transactions);
    assert_eq!(
        result,
        Err(SummaryError::CurrencyMismatch {
            expected: account.currency(),
            found: Currency::Usd,
        })
    );
}

#[test]
fn arithmetic_overflow() {
    let account = sample_account();
    let transactions = vec![
        Transaction::new(
            TransactionId::new(1),
            account.id(),
            TransactionKind::Income,
            Money::from_minor_units(i64::MAX, Currency::Cny),
            fixed_time(),
            "Salary".to_string(),
            Category::Salary,
        )
        .unwrap(),
        Transaction::new(
            TransactionId::new(2),
            account.id(),
            TransactionKind::Income,
            Money::from_minor_units(1, Currency::Cny),
            fixed_time(),
            "Bonus".to_string(),
            Category::Salary,
        )
        .unwrap(),
    ];
    let result = calculate_summary(&account, &transactions);
    assert_eq!(result, Err(SummaryError::ArithmeticOverflow));
}

#[test]
fn negative_expense() {
    let account = sample_account();
    let transactions = vec![
        Transaction::new(
            TransactionId::new(1),
            account.id(),
            TransactionKind::Expense,
            Money::from_minor_units(100, Currency::Cny),
            fixed_time(),
            "Refund".to_string(),
            Category::Food,
        )
        .unwrap(),
        Transaction::new(
            TransactionId::new(1),
            account.id(),
            TransactionKind::ExpenseRefund,
            Money::from_minor_units(200, Currency::Cny),
            fixed_time(),
            "Refund".to_string(),
            Category::Food,
        )
        .unwrap(),
    ];
    let result = calculate_summary(&account, &transactions).unwrap();
    assert_eq!(result.net_expense_total().minor_units(), -100);
}
