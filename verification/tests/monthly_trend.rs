use ledger_rs::application::monthly_trend::{MonthlyTrendError, get_monthly_trend, month_start};
use ledger_rs::application::repository::{AccountRepository, TransactionRepository};
use ledger_rs::domain::account::{AccountId, NewAccount};
use ledger_rs::domain::budget::BudgetMonth;
use ledger_rs::domain::money::{Currency, Money};
use ledger_rs::domain::transaction::{Category, NewTransaction, TransactionKind};
use ledger_rs::infrastructure::in_memory::{InMemoryAccountRepository, InMemoryTransactionRepository};

#[test]
fn returns_each_month_including_empty_months() {
    let mut accounts = InMemoryAccountRepository::new();
    let account = accounts
        .create(NewAccount::new("Cash".to_string(), Currency::Cny).unwrap())
        .unwrap();
    let mut transactions = InMemoryTransactionRepository::new();
    transactions
        .create(
            NewTransaction::new(
                account.id(),
                TransactionKind::Income,
                Money::from_minor_units(100, Currency::Cny),
                "2026-08-31T23:30:00+08:00[Asia/Shanghai]".parse().unwrap(),
                "August income".to_string(),
                Category::Salary,
            )
            .unwrap(),
        )
        .unwrap();

    let rows = get_monthly_trend(
        &accounts,
        &transactions,
        account.id(),
        BudgetMonth::new(2026, 8).unwrap(),
        BudgetMonth::new(2026, 9).unwrap(),
        "Asia/Shanghai",
    )
    .unwrap();
    assert_eq!(rows.len(), 2);
    assert_eq!(rows[0].summary.income_total().minor_units(), 100);
    assert_eq!(rows[1].summary.income_total().minor_units(), 0);
    assert!(rows[1].summary.net_outflow_by_category().is_empty());
}

#[test]
fn rejects_reversed_range() {
    let accounts = InMemoryAccountRepository::new();
    let transactions = InMemoryTransactionRepository::new();
    let from = BudgetMonth::new(2026, 9).unwrap();
    let to = BudgetMonth::new(2026, 8).unwrap();
    assert_eq!(
        get_monthly_trend(
            &accounts,
            &transactions,
            AccountId::new(1),
            from,
            to,
            "Asia/Shanghai",
        ),
        Err(MonthlyTrendError::InvalidRange { from, to })
    );
}

#[test]
fn months_start_at_local_midnight_in_the_named_zone() {
    let january = BudgetMonth::new(2026, 1).unwrap();
    let start = month_start(january, "asia/shanghai").unwrap();
    assert_eq!(start.time_zone_name(), Some("Asia/Shanghai"));
    assert_eq!(start.timestamp_nanos(), 1_767_196_800_000_000_000);
    let utc = month_start(january, "UTC").unwrap();
    assert_eq!(utc.timestamp_nanos(), 1_767_225_600_000_000_000);
    assert_eq!(utc.time_zone_name(), Some("UTC"));
}

#[test]
fn an_unknown_zone_is_reported_by_its_name() {
    let january = BudgetMonth::new(2026, 1).unwrap();
    assert_eq!(
        month_start(january, "Mars/Olympus").unwrap_err(),
        MonthlyTrendError::InvalidTimeZone("Mars/Olympus".to_string())
    );
}
