use ledger_rs::application::budget_report::get_budget_statuses;
use ledger_rs::application::repository::{AccountRepository, BudgetRepository, TransactionRepository};
use ledger_rs::domain::account::NewAccount;
use ledger_rs::domain::budget::{BudgetMonth, NewBudget};
use ledger_rs::domain::money::{Currency, Money};
use ledger_rs::domain::transaction::{Category, NewTransaction, TransactionKind};
use ledger_rs::infrastructure::in_memory::{InMemoryAccountRepository, InMemoryBudgetRepository, InMemoryTransactionRepository};

#[test]
fn calculates_overrun_and_negative_usage() {
    let mut accounts = InMemoryAccountRepository::new();
    let account = accounts
        .create(NewAccount::new("Cash".to_string(), Currency::Cny).unwrap())
        .unwrap();
    let month = BudgetMonth::new(2026, 8).unwrap();
    let mut budgets = InMemoryBudgetRepository::new();
    for category in [Category::Food, Category::Travel] {
        budgets
            .set(
                NewBudget::new(
                    account.id(),
                    category,
                    month,
                    Money::from_minor_units(100, Currency::Cny),
                )
                .unwrap(),
            )
            .unwrap();
    }
    let mut transactions = InMemoryTransactionRepository::new();
    for (kind, amount, category, description) in [
        (TransactionKind::Expense, 150, Category::Food, "Dinner"),
        (TransactionKind::ExpenseRefund, 20, Category::Food, "Refund"),
        (
            TransactionKind::ExpenseRefund,
            30,
            Category::Travel,
            "Travel refund",
        ),
        (TransactionKind::Income, 999, Category::Food, "Ignored"),
    ] {
        transactions
            .create(
                NewTransaction::new(
                    account.id(),
                    kind,
                    Money::from_minor_units(amount, Currency::Cny),
                    "2026-08-15T12:00:00+08:00[Asia/Shanghai]".parse().unwrap(),
                    description.to_string(),
                    category,
                )
                .unwrap(),
            )
            .unwrap();
    }

    let statuses = get_budget_statuses(
        &accounts,
        &transactions,
        &budgets,
        account.id(),
        month,
        "Asia/Shanghai",
    )
    .unwrap();
    let food = statuses
        .iter()
        .find(|item| item.budget.category() == Category::Food)
        .unwrap();
    assert_eq!(
        (food.used.minor_units(), food.remaining.minor_units()),
        (130, -30)
    );
    assert!(food.overrun);
    let travel = statuses
        .iter()
        .find(|item| item.budget.category() == Category::Travel)
        .unwrap();
    assert_eq!(
        (travel.used.minor_units(), travel.remaining.minor_units()),
        (-30, 130)
    );
    assert!(!travel.overrun);
}
