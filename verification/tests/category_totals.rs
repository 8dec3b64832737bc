use ledger_rs::domain::account::{Account, AccountId};
use ledger_rs::domain::category_report::{CategoryReportError, calculate_net_outflow_by_category};
use ledger_rs::domain::money::{Currency, Money};
use ledger_rs::domain::time::ZonedTime;
use ledger_rs::domain::transaction::{Category, Transaction, TransactionId, TransactionKind};

fn fixed_time() -> ZonedTime {
    "2026-08-20T10:00:00+08:00[Asia/Shanghai]".parse().unwrap()
}

fn sample_account() -> Account {
    Account::new(AccountId::new(1), String::from("Cash"), Currency::Cny).unwrap()
}

fn sample_transactions() -> Vec<Transaction> {
    vec![
        Transaction::new(
            TransactionId::new(1),
            AccountId::new(1),
            TransactionKind::Expense,
            Money::from_minor_units(1000, Currency::Cny),
            fixed_time(),
            String::from("Groceries"),
            Category::Food,
        )
        .unwrap(),
        Transaction::new(
            TransactionId::new(2),
            AccountId::new(1),
            TransactionKind::ExpenseRefund,
            Money::from_minor_units(500, Currency::Cny),
            fixed_time(),
            String::from("Bus fare"),
            Category::Transportation,
        )
        .unwrap(),
        Transaction::new(
            TransactionId::new(3),
            AccountId::new(1),
            TransactionKind::Expense,
            Money::from_minor_units(500, Currency::Cny),
            fixed_time(),
            String::from("Groceries"),
            Category::Food,
        )
        .unwrap(),
        Transaction::new(
            TransactionId::new(3),
            AccountId::new(1),
            TransactionKind::ExpenseRefund,
            Money::from_minor_units(200, Currency::Cny),
            fixed_time(),
            String::from("Groceries"),
            Category::Food,
        )
        .unwrap(),
        Transaction::new(
            TransactionId::new(4),
            AccountId::new(1),
            TransactionKind::Income,
            Money::from_minor_units(2000, Currency::Cny),
            fixed_time(),
            String::from("Salary"),
            Category::Salary,
        )
        .unwrap(),
    ]
}

#[test]
fn calculates_expenses_by_category() {
    let account = sample_account();
    let transactions = sample_transactions();

    let result = calculate_net_outflow_by_category(&account, &transactions).unwrap();

    assert_eq!(result.to_pairs().len(), 3);
    assert_eq!(result.get(Category::Food).unwrap().minor_units(), 1300);
    assert_eq!(
        result.get(Category::Transportation).unwrap().minor_units(),
        -500
    );
    assert_eq!(result.get(Category::Salary).unwrap().minor_units(), -2000);
}

#[test]
fn returns_account_mismatch_error() {
    let account = sample_account();
    let transactions = vec![
        Transaction::new(
            TransactionId::new(1),
            AccountId::new(2),
            TransactionKind::Expense,
            Money::from_minor_units(1000, Currency::Cny),
            fixed_time(),
            String::from("Groceries"),
            Category::Food,
        )
        .unwrap(),
    ];

    let result = calculate_net_outflow_by_category(&account, &transactions);

    assert_eq!(
        result,
        Err(CategoryReportError::AccountMismatch {
            expected: account.id(),
            found: AccountId::new(2),
        })
    );
}

#[test]
fn returns_arithmetic_overflow_error() {
    let account = sample_account();
    let mut transactions = sample_transactions();
    transactions.push(
        Transaction::new(
            TransactionId::new(4),
            AccountId::new(1),
            TransactionKind::Expense,
            Money::from_minor_units(i64::MAX, Currency::Cny),
            fixed_time(),
            String::from("Groceries"),
            Category::Food,
        )
        .unwrap(),
    );
    let result = calculate_net_outflow_by_category(&account, &transactions);
    assert_eq!(result, Err(CategoryReportError::ArithmeticOverflow));
}

#[test]
fn returns_currency_mismatch_error() {
    let account = Account::new(AccountId::new(1), String::from("Cash"), Currency::Usd).unwrap();
    let transactions = vec![
        Transaction::new(
            TransactionId::new(1),
            AccountId::new(1),
            TransactionKind::Expense,
            Money::from_minor_units(1000, Currency::Cny),
            fixed_time(),
            String::from("Groceries"),
            Category::Food,
        )
        .unwrap(),
    ];
    let result = calculate_net_outflow_by_category(&account, &transactions);
    assert_eq!(
        result,
        Err(CategoryReportError::CurrencyMismatch {
            expected: Currency::Usd,
            found: Currency::Cny,
        })
    );
}

#[test]
fn empty_transactions_returns_empty_result() {
    let account = sample_account();
    let transactions = vec![];

    let result = calculate_net_outflow_by_category(&account, &transactions).unwrap();

    assert!(result.is_empty());
}
