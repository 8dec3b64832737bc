use ledger_rs::application::repository::RepositoryError;
use ledger_rs::domain::account::AccountId;
use ledger_rs::domain::budget::BudgetMonth;
use ledger_rs::domain::money::{Currency, Money};
use ledger_rs::domain::transaction::{Category, TransactionId, TransactionKind};
use ledger_rs::infrastructure::stored::{
    budget_from_stored, category_from_stored, currency_from_stored, kind_from_stored,
    transaction_from_reading, transaction_from_stored, transfer_from_stored,
};

fn invalid(message: &str) -> RepositoryError {
    RepositoryError::InvalidStoredData(message.to_string())
}

#[test]
fn reads_stored_codes() {
    assert_eq!(currency_from_stored("HKD"), Ok(Currency::Hkd));
    assert_eq!(kind_from_stored("expense_refund"), Ok(TransactionKind::ExpenseRefund));
    assert_eq!(category_from_stored("housing"), Ok(Category::Housing));
    assert_eq!(
        currency_from_stored("cny"),
        Err(invalid("unsupported currency: cny"))
    );
    assert_eq!(
        kind_from_stored("gift"),
        Err(invalid("unsupported transaction kind: gift"))
    );
    assert_eq!(
        category_from_stored("pets"),
        Err(invalid("unsupported category: pets"))
    );
}

#[test]
fn preserves_timestamp_and_iana_time_zone() {
    let transaction = transaction_from_stored(
        3,
        1,
        "expense".to_string(),
        1250,
        "CNY".to_string(),
        "2026-08-20T10:00:00+08:00[Asia/Shanghai]".to_string(),
        "Dinner".to_string(),
        "food".to_string(),
    )
    .unwrap();
    assert_eq!(transaction.id(), TransactionId::new(3));
    assert_eq!(transaction.account_id(), AccountId::new(1));
    assert_eq!(transaction.amount(), &Money::from_minor_units(1250, Currency::Cny));
    assert_eq!(
        transaction.occurred_at().as_str(),
        "2026-08-20T10:00:00+08:00[Asia/Shanghai]"
    );
    assert_eq!(transaction.occurred_at().time_zone_name(), Some("Asia/Shanghai"));
}

#[test]
fn rejects_invalid_stored_rows() {
    assert_eq!(
        transaction_from_stored(
            -1,
            1,
            "expense".to_string(),
            1,
            "CNY".to_string(),
            "2026-08-20T10:00:00+08:00[Asia/Shanghai]".to_string(),
            "x".to_string(),
            "food".to_string(),
        ),
        Err(invalid("invalid transaction id: -1"))
    );
    assert_eq!(
        transaction_from_stored(
            1,
            1,
            "expense".to_string(),
            1,
            "XYZ".to_string(),
            "2026-08-20T10:00:00+08:00[Asia/Shanghai]".to_string(),
            "x".to_string(),
            "food".to_string(),
        ),
        Err(invalid("unsupported currency: XYZ"))
    );
    assert_eq!(
        transaction_from_stored(
            1,
            1,
            "expense".to_string(),
            0,
            "CNY".to_string(),
            "2026-08-20T10:00:00+08:00[Asia/Shanghai]".to_string(),
            "x".to_string(),
            "food".to_string(),
        ),
        Err(invalid("invalid transaction data: InvalidAmount"))
    );
}

#[test]
fn rejects_invalid_stored_occurrence_time() {
    assert_eq!(
        transaction_from_reading(
            1,
            1,
            "expense",
            1,
            "CNY",
            "yesterday",
            Err("unrecognized".to_string()),
            "x".to_string(),
            "food",
        ),
        Err(invalid("invalid occurred_at: yesterday, error: unrecognized"))
    );
    assert!(matches!(
        transaction_from_stored(
            1,
            1,
            "expense".to_string(),
            1,
            "CNY".to_string(),
            "not-a-time".to_string(),
            "x".to_string(),
            "food".to_string(),
        ),
        Err(RepositoryError::InvalidStoredData(message)) if message.starts_with("invalid occurred_at: not-a-time, error: ")
    ));
}

#[test]
fn reads_stored_transfers_and_budgets() {
    let transfer = transfer_from_stored((
        5,
        1,
        2,
        700,
        "CNY".to_string(),
        100,
        "USD".to_string(),
        "2026-08-20T10:00:00+08:00[Asia/Shanghai]".to_string(),
        "Exchange".to_string(),
    ))
    .unwrap();
    assert_eq!(transfer.id().value(), 5);
    assert_eq!(transfer.destination_amount(), &Money::from_minor_units(100, Currency::Usd));
    assert_eq!(
        transfer_from_stored((
            5,
            -2,
            2,
            700,
            "CNY".to_string(),
            100,
            "USD".to_string(),
            "2026-08-20T10:00:00+08:00[Asia/Shanghai]".to_string(),
            "Exchange".to_string(),
        )),
        Err(invalid("invalid transfer source account id"))
    );

    let budget = budget_from_stored((4, 1, "food".to_string(), 2026, 8, 500, "CNY".to_string())).unwrap();
    assert_eq!(budget.month(), BudgetMonth::new(2026, 8).unwrap());
    assert_eq!(
        budget_from_stored((4, 1, "food".to_string(), 2026, 13, 500, "CNY".to_string())),
        Err(invalid("invalid budget month: InvalidMonth { year: 2026, month: 13 }"))
    );
    assert_eq!(
        budget_from_stored((4, 1, "food".to_string(), 2026, 8, 0, "CNY".to_string())),
        Err(invalid("invalid budget: InvalidLimit"))
    );
}
