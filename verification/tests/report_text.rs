use ledger_rs::application::list_transactions::{TransactionCursor, TransactionPage};
use ledger_rs::domain::account::{Account, AccountId};
use ledger_rs::domain::budget::BudgetMonth;
use ledger_rs::domain::category_report::CategoryTotals;
use ledger_rs::domain::money::{Currency, Money};
use ledger_rs::domain::time::ZonedTime;
use ledger_rs::domain::transaction::{Category, Transaction, TransactionId, TransactionKind};
use ledger_rs::application::audit_log::{AuditEntity, AuditLogEntry, AuditOperation};
use ledger_rs::domain::budget::{Budget, BudgetId};
use ledger_rs::domain::transfer::{Transfer, TransferId};
use ledger_rs::report_text::{
    account_lines, audit_line, audit_lines, balance_line, budget_detail_line, category_rows,
    created_account_line, recorded_transaction_line, status_lines, transaction_line,
    transaction_page_lines, transfer_detail_line, transfer_lines, updated_account_line,
};

fn time() -> ZonedTime {
    "2026-08-14T12:00:00+08:00[Asia/Shanghai]".parse().unwrap()
}

fn lunch(id: u64) -> Transaction {
    Transaction::new(
        TransactionId::new(id),
        AccountId::new(1),
        TransactionKind::Expense,
        Money::from_minor_units(1250, Currency::Cny),
        time(),
        "Lunch".to_string(),
        Category::Food,
    )
    .unwrap()
}

#[test]
fn category_rows_come_in_alphabetical_order_of_names() {
    let mut totals = CategoryTotals::new();
    totals.set(Category::Travel, Money::from_minor_units(-30, Currency::Cny));
    totals.set(Category::Sale, Money::from_minor_units(5, Currency::Cny));
    totals.set(Category::Salary, Money::from_minor_units(-100, Currency::Cny));
    totals.set(Category::Food, Money::from_minor_units(130, Currency::Cny));
    let rows = category_rows(&totals, "Total");
    let mut sorted = rows.clone();
    sorted.sort();
    assert_eq!(
        rows,
        vec![
            "Category: Food, Total: 130 (Cny)".to_string(),
            "Category: Salary, Total: -100 (Cny)".to_string(),
            "Category: Sale, Total: 5 (Cny)".to_string(),
            "Category: Travel, Total: -30 (Cny)".to_string(),
        ]
    );
    assert_eq!(rows, sorted);
}

#[test]
fn writes_a_transaction_line() {
    assert_eq!(
        transaction_line(&lunch(7)),
        "Transaction 7 | Expense | 2026-08-14T12:00:00+08:00[Asia/Shanghai] | 1250(Cny) | Lunch | Food"
    );
}

#[test]
fn a_page_ends_with_its_next_cursor() {
    let page = TransactionPage {
        items: vec![lunch(2)],
        next_cursor: Some(TransactionCursor { occurred_at: time(), id: 2 }),
    };
    let lines = transaction_page_lines(1, &page);
    assert_eq!(lines.len(), 2);
    assert_eq!(lines[1], "Next cursor: 2026-08-14T12:00:00+08:00[Asia/Shanghai]|2");
    let empty = TransactionPage { items: Vec::new(), next_cursor: None };
    assert_eq!(
        transaction_page_lines(3, &empty),
        vec!["No transactions found for account 3".to_string()]
    );
}

#[test]
fn empty_listings_say_so() {
    assert_eq!(account_lines(&Vec::new()), vec!["No accounts found".to_string()]);
    assert_eq!(
        transfer_lines(4, &Vec::new()),
        vec!["No transfers found for account 4".to_string()]
    );
    assert_eq!(
        status_lines(4, BudgetMonth::new(2026, 8).unwrap(), &Vec::new()),
        vec!["No budgets found for account 4 in 2026-08".to_string()]
    );
    let cash = Account::new(AccountId::new(1), "Cash".to_string(), Currency::Usd).unwrap();
    assert_eq!(account_lines(&vec![cash]), vec!["Account 1: Cash (Usd)".to_string()]);
}

#[test]
fn writes_account_event_and_balance_lines() {
    let account = Account::new(AccountId::new(3), "Wallet".to_string(), Currency::Usd).unwrap();
    assert_eq!(created_account_line(&account), "Created Account 3: Wallet (Usd)");
    assert_eq!(updated_account_line(&account), "Updated Account 3: Wallet (Usd)");
    assert_eq!(
        balance_line(3, &Money::from_minor_units(-420, Currency::Usd)),
        "Account 3 balance: -420 (Usd)"
    );
}

#[test]
fn writes_a_recorded_transaction_line() {
    assert_eq!(
        recorded_transaction_line(1, &lunch(9)),
        "Recorded transaction 9 for account 1: 1250(Cny) Lunch Food at 2026-08-14T12:00:00+08:00[Asia/Shanghai]"
    );
}

#[test]
fn writes_a_transfer_detail_line() {
    let transfer = Transfer::new(
        TransferId::new(4),
        AccountId::new(1),
        AccountId::new(2),
        Money::from_minor_units(1000, Currency::Cny),
        Money::from_minor_units(140, Currency::Usd),
        time(),
        "Exchange".to_string(),
    )
    .unwrap();
    assert_eq!(
        transfer_detail_line(&transfer),
        "Transfer 4 | 1 -> 2 | 1000(Cny) -> 140(Usd) | 2026-08-14T12:00:00+08:00[Asia/Shanghai] | Exchange"
    );
}

#[test]
fn writes_a_budget_detail_line() {
    let budget = Budget::new(
        BudgetId::new(6),
        AccountId::new(2),
        Category::Travel,
        BudgetMonth::new(2026, 3).unwrap(),
        Money::from_minor_units(5000, Currency::Eur),
    )
    .unwrap();
    assert_eq!(budget_detail_line(&budget), "Budget 6 | account 2 | Travel | 2026-03 | 5000(Eur)");
}

#[test]
fn writes_audit_lines_with_utc_times() {
    let entry = AuditLogEntry::from_stored(
        5,
        1_767_225_600_000_000_000,
        AuditEntity::Account,
        3,
        AuditOperation::Update,
        Some("{\"name\":\"Cash\"}".to_string()),
        None,
    );
    assert_eq!(
        audit_lines(&vec![entry]),
        vec!["5 | 2026-01-01T00:00:00Z | account 3 | update | before {\"name\":\"Cash\"} | after -".to_string()]
    );
    assert_eq!(audit_lines(&Vec::new()), vec!["No database changes recorded".to_string()]);
}

#[test]
fn audit_times_outside_the_supported_range_are_written_in_nanoseconds() {
    let entry = AuditLogEntry::from_stored(
        1,
        i128::MAX,
        AuditEntity::Budget,
        8,
        AuditOperation::Delete,
        None,
        None,
    );
    assert_eq!(
        audit_line(&entry),
        format!("1 | {} | budget 8 | delete | before - | after -", i128::MAX)
    );
}
