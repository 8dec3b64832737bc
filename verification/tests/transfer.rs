use ledger_rs::domain::account::AccountId;
use ledger_rs::domain::money::{Currency, Money};
use ledger_rs::domain::time::ZonedTime;
use ledger_rs::domain::transfer::{NewTransfer, TransferError};

fn occurred_at() -> ZonedTime {
    "2026-08-20T10:00:00+08:00[Asia/Shanghai]".parse().unwrap()
}

#[test]
fn creates_same_and_cross_currency_transfers() {
    let same = NewTransfer::new(
        AccountId::new(1),
        AccountId::new(2),
        Money::from_minor_units(100, Currency::Cny),
        Money::from_minor_units(100, Currency::Cny),
        occurred_at(),
        "Move money".to_string(),
    );
    let cross = NewTransfer::new(
        AccountId::new(1),
        AccountId::new(2),
        Money::from_minor_units(700, Currency::Cny),
        Money::from_minor_units(100, Currency::Usd),
        occurred_at(),
        "Exchange".to_string(),
    );
    assert!(same.is_ok());
    assert!(cross.is_ok());
}

#[test]
fn rejects_invalid_transfer_rules() {
    assert_eq!(
        NewTransfer::new(
            AccountId::new(1),
            AccountId::new(1),
            Money::from_minor_units(100, Currency::Cny),
            Money::from_minor_units(100, Currency::Cny),
            occurred_at(),
            "Move".to_string(),
        ),
        Err(TransferError::SameAccount)
    );
    assert_eq!(
        NewTransfer::new(
            AccountId::new(1),
            AccountId::new(2),
            Money::from_minor_units(100, Currency::Cny),
            Money::from_minor_units(99, Currency::Cny),
            occurred_at(),
            "Move".to_string(),
        ),
        Err(TransferError::SameCurrencyAmountMismatch)
    );
}
