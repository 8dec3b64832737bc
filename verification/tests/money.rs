use ledger_rs::domain::money::{Currency, Money, MoneyError};

#[test]
fn creates_money_from_cents() {
    let money = Money::from_minor_units(1_250, Currency::Cny);

    assert_eq!(money.minor_units(), 1_250);
    assert_eq!(money.currency(), Currency::Cny);
}

#[test]
fn creates_money_from_negative_cents() {
    let money = Money::from_minor_units(-1_250, Currency::Cny);
    assert_eq!(money.minor_units(), -1_250);
    assert_eq!(money.currency(), Currency::Cny);
}

#[test]
fn creates_money_from_zero_cents() {
    let money = Money::from_minor_units(0, Currency::Cny);
    assert_eq!(money.minor_units(), 0);
    assert_eq!(money.currency(), Currency::Cny);
}

#[test]
fn equal_amounts_are_equal() {
    let money1 = Money::from_minor_units(1_250, Currency::Cny);
    let money2 = Money::from_minor_units(1_250, Currency::Cny);
    assert_eq!(money1, money2);
}

#[test]
fn adds_money() {
    let left = Money::from_minor_units(1_000, Currency::Cny);
    let right = Money::from_minor_units(250, Currency::Cny);

    assert_eq!(
        left.add(&right),
        Ok(Money::from_minor_units(1_250, Currency::Cny))
    );
}

#[test]
fn subtracts_money() {
    let left = Money::from_minor_units(1_250, Currency::Cny);
    let right = Money::from_minor_units(250, Currency::Cny);

    assert_eq!(
        left.sub(&right),
        Ok(Money::from_minor_units(1_000, Currency::Cny))
    );
}

#[test]
fn adding_different_currencies_returns_error() {
    let left = Money::from_minor_units(1_000, Currency::Cny);
    let right = Money::from_minor_units(250, Currency::Usd);

    assert_eq!(
        left.add(&right),
        Err(MoneyError::CurrencyMismatch {
            expected: Currency::Cny,
            found: Currency::Usd,
        })
    );
}

#[test]
fn subtracting_different_currencies_returns_error() {
    let left = Money::from_minor_units(1_000, Currency::Cny);
    let right = Money::from_minor_units(250, Currency::Usd);

    assert_eq!(
        left.sub(&right),
        Err(MoneyError::CurrencyMismatch {
            expected: Currency::Cny,
            found: Currency::Usd,
        })
    );
}

#[test]
fn adding_overflow_returns_error() {
    let left = Money::from_minor_units(i64::MAX, Currency::Cny);
    let right = Money::from_minor_units(1, Currency::Cny);

    assert_eq!(left.add(&right), Err(MoneyError::ArithmeticOverflow));
}

#[test]
fn subtracting_overflow_returns_error() {
    let left = Money::from_minor_units(i64::MIN, Currency::Cny);
    let right = Money::from_minor_units(1, Currency::Cny);

    assert_eq!(left.sub(&right), Err(MoneyError::ArithmeticOverflow));
}
