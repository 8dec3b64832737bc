use ledger_rs::domain::account::AccountId;
use ledger_rs::domain::budget::{BudgetError, BudgetMonth, NewBudget};
use ledger_rs::domain::money::{Currency, Money};
use ledger_rs::domain::transaction::Category;

#[test]
fn validates_month_and_positive_limit() {
    assert_eq!(
        BudgetMonth::new(2026, 13),
        Err(BudgetError::InvalidMonth {
            year: 2026,
            month: 13
        })
    );
    assert_eq!(
        NewBudget::new(
            AccountId::new(1),
            Category::Food,
            BudgetMonth::new(2026, 8).unwrap(),
            Money::from_minor_units(0, Currency::Cny),
        ),
        Err(BudgetError::InvalidLimit)
    );
}
