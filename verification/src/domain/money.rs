use vstd::prelude::*;

verus! {

/// The currencies a ledger account can hold.
#[derive(Debug, Clone, Copy, PartialEq, Eq, Structural)]
pub enum Currency {
    Cny,
    Usd,
    Eur,
    Hkd,
    Myr,
}

/// The ISO code of a currency.
pub open spec fn currency_code(currency: Currency) -> Seq<char> {
    match currency {
        Currency::Cny => "CNY"@,
        Currency::Usd => "USD"@,
        Currency::Eur => "EUR"@,
        Currency::Hkd => "HKD"@,
        Currency::Myr => "MYR"@,
    }
}

impl Currency {
    /// The ISO code of this currency, as it is displayed.
    pub fn code(self) -> (r: &'static str)
        ensures
            r@ == currency_code(self),
    {
        match self {
            Currency::Cny => "CNY",
            Currency::Usd => "USD",
            Currency::Eur => "EUR",
            Currency::Hkd => "HKD",
            Currency::Myr => "MYR",
        }
    }
}

/// Why an arithmetic operation on two amounts was refused.
#[derive(Debug, Clone, Copy, PartialEq, Eq, Structural)]
pub enum MoneyError {
    CurrencyMismatch { expected: Currency, found: Currency },
    ArithmeticOverflow,
}

/// The mathematical value of an amount: signed minor units and a currency.
pub struct MoneyView {
    pub minor: int,
    pub currency: Currency,
}

/// An exact amount of money stored as integer minor units of one currency.
#[derive(Debug, Clone, Copy, PartialEq, Eq, Structural)]
pub struct Money {
    minor_units: i64,
    currency: Currency,
}

impl View for Money {
    type V = MoneyView;

    closed spec fn view(&self) -> MoneyView {
        MoneyView { minor: self.minor_units as int, currency: self.currency }
    }
}

/// The minor units representable by a stored amount.
pub open spec fn fits_i64(value: int) -> bool {
    i64::MIN <= value <= i64::MAX
}

/// The outcome of combining two amounts whose exact result is `value`.
pub open spec fn combine_result(left: MoneyView, right: MoneyView, value: int) -> Result<MoneyView, MoneyError> {
    if left.currency != right.currency {
        Err(MoneyError::CurrencyMismatch { expected: left.currency, found: right.currency })
    } else if !fits_i64(value) {
        Err(MoneyError::ArithmeticOverflow)
    } else {
        Ok(MoneyView { minor: value, currency: left.currency })
    }
}

/// The outcome of `left + right`.
pub open spec fn money_sum(left: MoneyView, right: MoneyView) -> Result<MoneyView, MoneyError> {
    combine_result(left, right, left.minor + right.minor)
}

/// The outcome of `left - right`.
pub open spec fn money_difference(left: MoneyView, right: MoneyView) -> Result<MoneyView, MoneyError> {
    combine_result(left, right, left.minor - right.minor)
}

/// The view of a `Result<Money, _>`.
pub open spec fn money_result_view<E>(r: Result<Money, E>) -> Result<MoneyView, E> {
    match r {
        Ok(m) => Ok(m@),
        Err(e) => Err(e),
    }
}

impl Money {
    pub fn from_minor_units(minor_units: i64, currency: Currency) -> (r: Self)
        ensures
            r@ == (MoneyView { minor: minor_units as int, currency }),
    {
        Money { minor_units, currency }
    }

    pub fn minor_units(&self) -> (r: i64)
        ensures
            r as int == self@.minor,
    {
        self.minor_units
    }

    pub fn currency(&self) -> (r: Currency)
        ensures
            r == self@.currency,
    {
        self.currency
    }

    pub fn add(&self, other: &Money) -> (r: Result<Money, MoneyError>)
        ensures
            money_result_view(r) == money_sum(self@, other@),
    {
        if self.currency != other.currency {
            return Err(MoneyError::CurrencyMismatch { expected: self.currency, found: other.currency });
        }
        match self.minor_units.checked_add(other.minor_units) {
            Some(minor) => Ok(Money { minor_units: minor, currency: self.currency }),
            None => Err(MoneyError::ArithmeticOverflow),
        }
    }

    pub fn sub(&self, other: &Money) -> (r: Result<Money, MoneyError>)
        ensures
            money_result_view(r) == money_difference(self@, other@),
    {
        if self.currency != other.currency {
            return Err(MoneyError::CurrencyMismatch { expected: self.currency, found: other.currency });
        }
        match self.minor_units.checked_sub(other.minor_units) {
            Some(minor) => Ok(Money { minor_units: minor, currency: self.currency }),
            None => Err(MoneyError::ArithmeticOverflow),
        }
    }
}

/// Subtracting what was just added gives back the original amount.
pub proof fn law_sum_then_difference(a: MoneyView, b: MoneyView)
    requires
        fits_i64(a.minor),
        money_sum(a, b) is Ok,
    ensures
        money_difference(money_sum(a, b)->Ok_0, b) == Ok::<MoneyView, MoneyError>(a),
{
}

/// Amounts in different currencies neither add nor subtract.
pub proof fn law_currencies_do_not_mix(a: MoneyView, b: MoneyView)
    requires
        a.currency != b.currency,
    ensures
        money_sum(a, b) == Err::<MoneyView, MoneyError>(
            MoneyError::CurrencyMismatch { expected: a.currency, found: b.currency },
        ),
        money_difference(a, b) == Err::<MoneyView, MoneyError>(
            MoneyError::CurrencyMismatch { expected: a.currency, found: b.currency },
        ),
{
}

} // verus!
