use ledger_rs::application::manage_budget::{ManageBudgetError, delete_budget, list_budgets, set_budget};
use ledger_rs::application::repository::{AccountRepository, BudgetRepository};
use ledger_rs::domain::account::{AccountId, NewAccount};
use ledger_rs::domain::budget::BudgetMonth;
use ledger_rs::domain::money::Currency;
use ledger_rs::domain::transaction::Category;
use ledger_rs::infrastructure::in_memory::{InMemoryAccountRepository, InMemoryBudgetRepository};

#[test]
fn sets_updates_lists_and_deletes_budget() {
    let mut accounts = InMemoryAccountRepository::new();
    let account = accounts
        .create(NewAccount::new("Cash".to_string(), Currency::Cny).unwrap())
        .unwrap();
    let mut budgets = InMemoryBudgetRepository::new();
    let month = BudgetMonth::new(2026, 8).unwrap();
    let first = set_budget(
        &accounts,
        &mut budgets,
        account.id(),
        Category::Food,
        month,
        1000,
    )
    .unwrap();
    let updated = set_budget(
        &accounts,
        &mut budgets,
        account.id(),
        Category::Food,
        month,
        2000,
    )
    .unwrap();
    assert_eq!(first.id(), updated.id());
    assert_eq!(updated.limit().minor_units(), 2000);
    assert_eq!(
        list_budgets(&accounts, &budgets, account.id()).unwrap(),
        vec![updated]
    );
    delete_budget(&mut budgets, first.id()).unwrap();
    assert!(budgets.find_by_account_id(account.id()).unwrap().is_empty());
}

#[test]
fn rejects_unknown_account_and_invalid_limit() {
    let accounts = InMemoryAccountRepository::new();
    let mut budgets = InMemoryBudgetRepository::new();
    let missing = AccountId::new(9);
    assert_eq!(
        set_budget(
            &accounts,
            &mut budgets,
            missing,
            Category::Food,
            BudgetMonth::new(2026, 8).unwrap(),
            100,
        ),
        Err(ManageBudgetError::AccountNotFound(missing))
    );
}
