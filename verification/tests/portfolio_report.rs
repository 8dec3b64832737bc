use ledger_rs::application::monthly_trend::MonthlyTrendError;
use ledger_rs::application::portfolio_report::{ReportScope, get_portfolio_summary, get_portfolio_trend};
use ledger_rs::application::ranged_summary::{GetRangedSummaryError, get_ranged_summary};
use ledger_rs::application::repository::{AccountRepository, TransactionRepository};
use ledger_rs::domain::account::{AccountId, NewAccount};
use ledger_rs::domain::budget::BudgetMonth;
use ledger_rs::domain::money::{Currency, Money};
use ledger_rs::domain::summary::SummaryError;
use ledger_rs::domain::time::ZonedTime;
use ledger_rs::domain::transaction::{Category, NewTransaction, TransactionKind};
use ledger_rs::infrastructure::in_memory::{InMemoryAccountRepository, InMemoryTransactionRepository};

fn setup() -> (InMemoryAccountRepository, InMemoryTransactionRepository) {
    let mut accounts = InMemoryAccountRepository::new();
    let mut transactions = InMemoryTransactionRepository::new();
    for (name, currency, kind, amount) in [
        ("Bank", Currency::Cny, TransactionKind::Income, 1000),
        ("Cash", Currency::Cny, TransactionKind::Expense, 300),
        ("Wallet", Currency::Cny, TransactionKind::ExpenseRefund, 50),
        ("USD", Currency::Usd, TransactionKind::Income, 200),
    ] {
        let account = accounts
            .create(NewAccount::new(name.into(), currency).unwrap())
            .unwrap();
        transactions
            .create(
                NewTransaction::new(
                    account.id(),
                    kind,
                    Money::from_minor_units(amount, currency),
                    start(),
                    name.into(),
                    Category::Food,
                )
                .unwrap(),
            )
            .unwrap();
    }
    accounts
        .create(NewAccount::new("Empty".into(), Currency::Myr).unwrap())
        .unwrap();
    (accounts, transactions)
}
fn entry<'a, T>(report: &'a [(String, T)], code: &str) -> &'a T {
    &report.iter().find(|(name, _)| name == code).unwrap().1
}

fn start() -> ZonedTime {
    "2026-08-01T00:00:00+08:00[Asia/Shanghai]".parse().unwrap()
}
fn end() -> ZonedTime {
    "2026-09-01T00:00:00+08:00[Asia/Shanghai]".parse().unwrap()
}

#[test]
fn aggregates_currencies_refunds_and_empty_accounts() {
    let (a, t) = setup();
    let report = get_portfolio_summary(&a, &t, &ReportScope::All, start(), end()).unwrap();
    assert_eq!(
        report.iter().map(|(code, _)| code.as_str()).collect::<Vec<_>>(),
        ["CNY", "MYR", "USD"]
    );
    assert_eq!(entry(&report, "CNY").income_total().minor_units(), 1000);
    assert_eq!(entry(&report, "CNY").net_expense_total().minor_units(), 250);
    assert_eq!(entry(&report, "CNY").net_change().minor_units(), 750);
    assert_eq!(
        entry(&report, "CNY").net_outflow_by_category().get(Category::Food).unwrap().minor_units(),
        -750
    );
    assert_eq!(entry(&report, "USD").net_change().minor_units(), 200);
    assert_eq!(entry(&report, "MYR").net_change().minor_units(), 0);
}
#[test]
fn subset_deduplicates_and_preserves_single_account_result() {
    let (a, t) = setup();
    let id = AccountId::new(2);
    let report =
        get_portfolio_summary(&a, &t, &ReportScope::Accounts(vec![id, id]), start(), end())
            .unwrap();
    assert_eq!(report.len(), 1);
    assert_eq!(
        *entry(&report, "CNY"),
        get_ranged_summary(&a, &t, id, start(), end()).unwrap()
    );
    assert!(
        get_portfolio_summary(&a, &t, &ReportScope::Accounts(vec![]), start(), end())
            .unwrap()
            .is_empty()
    );
    assert!(matches!(
        get_portfolio_summary(
            &a,
            &t,
            &ReportScope::Accounts(vec![AccountId::new(99)]),
            start(),
            end()
        ),
        Err(GetRangedSummaryError::AccountNotFound(_))
    ));
}
#[test]
fn trends_include_empty_months_and_use_time_zone_boundaries() {
    let (a, t) = setup();
    let from = BudgetMonth::new(2026, 7).unwrap();
    let to = BudgetMonth::new(2026, 9).unwrap();
    let report = get_portfolio_trend(&a, &t, &ReportScope::All, from, to, "UTC").unwrap();
    assert_eq!(entry(&report, "CNY").len(), 3);
    assert_eq!(entry(&report, "CNY")[0].summary.net_change().minor_units(), 750);
    assert_eq!(entry(&report, "CNY")[1].summary.net_change().minor_units(), 0);
    assert_eq!(entry(&report, "CNY")[2].summary.net_change().minor_units(), 0);
    assert_eq!(entry(&report, "USD")[0].summary.net_change().minor_units(), 200);
}
#[test]
fn validates_empty_scope_ranges_and_zone() {
    let (a, t) = setup();
    let scope = ReportScope::Accounts(vec![]);
    assert!(get_portfolio_summary(&a, &t, &scope, end(), start()).is_err());
    let month = BudgetMonth::new(2026, 8).unwrap();
    assert!(matches!(
        get_portfolio_trend(&a, &t, &scope, month, month, "invalid"),
        Err(MonthlyTrendError::InvalidTimeZone(_))
    ));
}
#[test]
fn rejects_cross_account_overflow() {
    let (a, mut t) = setup();
    t.create(
        NewTransaction::new(
            AccountId::new(2),
            TransactionKind::Income,
            Money::from_minor_units(i64::MAX, Currency::Cny),
            start(),
            "Huge".into(),
            Category::Salary,
        )
        .unwrap(),
    )
    .unwrap();
    assert!(matches!(
        get_portfolio_summary(&a, &t, &ReportScope::All, start(), end()),
        Err(GetRangedSummaryError::Summary(
            SummaryError::ArithmeticOverflow
        ))
    ));
}
