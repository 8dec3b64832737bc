use vstd::prelude::*;
use crate::application::repository::RepositoryError;
use crate::codes::{category_from_code, category_named, currency_from_code, currency_named, kind_from_code, kind_named};
use crate::decimal::{i64_text, signed_decimal_text};
use crate::domain::account::AccountId;
use crate::domain::budget::{
    Budget, BudgetError, BudgetId, BudgetMonth, BudgetMonthView, BudgetView, budget_error_text,
    new_budget_outcome, valid_month,
};
use crate::domain::money::{Currency, Money, MoneyView};
use crate::domain::time::{TimeReading, ZonedTime, reading_of_text, reading_view};
use crate::domain::transaction::{
    Category, Transaction, TransactionId, TransactionKind, TransactionView, new_transaction_outcome,
    transaction_error_text,
};
use crate::domain::transfer::{
    Transfer, TransferId, TransferView, new_transfer_outcome, transfer_error_text,
};
use crate::text::{string_from_chars, text_chars};

verus! {

/// A message made of a fixed prefix followed by a detail.
fn message_with(prefix: &str, detail: Vec<char>) -> (r: String)
    ensures
        r@ == prefix@ + detail@,
{
    let mut chars = text_chars(prefix);
    let mut rest = detail;
    chars.append(&mut rest);
    string_from_chars(&chars)
}

/// The error for stored data that does not form a valid record.
fn invalid_data(message: String) -> (r: RepositoryError)
    ensures
        r == RepositoryError::InvalidStoredData(message),
{
    RepositoryError::InvalidStoredData(message)
}

/// What a stored currency code gives.
pub open spec fn stored_currency_outcome(code: Seq<char>) -> Result<Currency, Seq<char>> {
    match currency_named(code) {
        Some(currency) => Ok(currency),
        None => Err("unsupported currency: "@ + code),
    }
}

/// What a stored transaction kind code gives.
pub open spec fn stored_kind_outcome(code: Seq<char>) -> Result<TransactionKind, Seq<char>> {
    match kind_named(code) {
        Some(kind) => Ok(kind),
        None => Err("unsupported transaction kind: "@ + code),
    }
}

/// What a stored category code gives.
pub open spec fn stored_category_outcome(code: Seq<char>) -> Result<Category, Seq<char>> {
    match category_named(code) {
        Some(category) => Ok(category),
        None => Err("unsupported category: "@ + code),
    }
}

/// A result whose error is invalid stored data, with the message taken as a text.
pub open spec fn stored_error_is(r: RepositoryError, message: Seq<char>) -> bool {
    match r {
        RepositoryError::InvalidStoredData(text) => text@ == message,
        _ => false,
    }
}

/// Reads a stored currency code.
pub fn currency_from_stored(code: &str) -> (r: Result<Currency, RepositoryError>)
    ensures
        match (r, stored_currency_outcome(code@)) {
            (Ok(value), Ok(expected)) => value == expected,
            (Err(error), Err(message)) => stored_error_is(error, message),
            _ => false,
        },
{
    match currency_from_code(code) {
        Some(currency) => Ok(currency),
        None => Err(invalid_data(message_with("unsupported currency: ", text_chars(code)))),
    }
}

/// Reads a stored transaction kind code.
pub fn kind_from_stored(code: &str) -> (r: Result<TransactionKind, RepositoryError>)
    ensures
        match (r, stored_kind_outcome(code@)) {
            (Ok(value), Ok(expected)) => value == expected,
            (Err(error), Err(message)) => stored_error_is(error, message),
            _ => false,
        },
{
    match kind_from_code(code) {
        Some(kind) => Ok(kind),
        None => Err(invalid_data(message_with("unsupported transaction kind: ", text_chars(code)))),
    }
}

/// Reads a stored category code.
pub fn category_from_stored(code: &str) -> (r: Result<Category, RepositoryError>)
    ensures
        match (r, stored_category_outcome(code@)) {
            (Ok(value), Ok(expected)) => value == expected,
            (Err(error), Err(message)) => stored_error_is(error, message),
            _ => false,
        },
{
    match category_from_code(code) {
        Some(category) => Ok(category),
        None => Err(invalid_data(message_with("unsupported category: ", text_chars(code)))),
    }
}

/// What a stored transaction row gives, its time read as `time`.
pub open spec fn stored_transaction_outcome(
    id: i64,
    account_id: i64,
    kind_code: Seq<char>,
    amount_minor: i64,
    currency_code: Seq<char>,
    occurred_at: Seq<char>,
    time: TimeReading,
    description: Seq<char>,
    category_code: Seq<char>,
) -> Result<TransactionView, Seq<char>> {
    if id < 0 {
        Err("invalid transaction id: "@ + signed_decimal_text(id as int))
    } else if account_id < 0 {
        Err("invalid account id: "@ + signed_decimal_text(account_id as int))
    } else {
        match stored_kind_outcome(kind_code) {
            Err(message) => Err(message),
            Ok(kind) => match stored_currency_outcome(currency_code) {
                Err(message) => Err(message),
                Ok(currency) => match time {
                    Err(reason) => Err("invalid occurred_at: "@ + occurred_at + ", error: "@ + reason),
                    Ok(at) => match stored_category_outcome(category_code) {
                        Err(message) => Err(message),
                        Ok(category) => match new_transaction_outcome(
                            AccountId::from_value(account_id as u64),
                            kind,
                            MoneyView { minor: amount_minor as int, currency },
                            at,
                            description,
                            category,
                        ) {
                            Err(error) => Err("invalid transaction data: "@ + transaction_error_text(error)),
                            Ok(value) => Ok(
                                TransactionView::from_new(TransactionId::from_value(id as u64), value),
                            ),
                        },
                    },
                },
            },
        }
    }
}

/// Whether a result is the outcome that a stored row gives.
pub open spec fn gives_stored<T, V>(r: Result<T, RepositoryError>, outcome: Result<V, Seq<char>>, view: spec_fn(T) -> V) -> bool {
    match (r, outcome) {
        (Ok(value), Ok(expected)) => view(value) == expected,
        (Err(error), Err(message)) => stored_error_is(error, message),
        _ => false,
    }
}

/// Builds a transaction from a stored row whose time text was read as `time`.
pub fn transaction_from_reading(
    id: i64,
    account_id: i64,
    kind_code: &str,
    amount_minor: i64,
    currency_code: &str,
    occurred_at: &str,
    time: Result<ZonedTime, String>,
    description: String,
    category_code: &str,
) -> (r: Result<Transaction, RepositoryError>)
    ensures
        gives_stored(
            r,
            stored_transaction_outcome(
                id,
                account_id,
                kind_code@,
                amount_minor,
                currency_code@,
                occurred_at@,
                reading_view(time),
                description@,
                category_code@,
            ),
            |value: Transaction| value@,
        ),
{
    if id < 0 {
        return Err(invalid_data(message_with("invalid transaction id: ", i64_text(id))));
    }
    if account_id < 0 {
        return Err(invalid_data(message_with("invalid account id: ", i64_text(account_id))));
    }
    let kind = kind_from_stored(kind_code)?;
    let currency = currency_from_stored(currency_code)?;
    let at = match time {
        Ok(at) => at,
        Err(reason) => {
            let mut detail = text_chars(occurred_at);
            let mut separator = text_chars(", error: ");
            let mut rest = text_chars(reason.as_str());
            detail.append(&mut separator);
            detail.append(&mut rest);
            let message = message_with("invalid occurred_at: ", detail);
            assert(message@ =~= "invalid occurred_at: "@ + occurred_at@ + ", error: "@ + reason@);
            return Err(invalid_data(message));
        },
    };
    let category = category_from_stored(category_code)?;
    let amount = Money::from_minor_units(amount_minor, currency);
    match Transaction::new(
        TransactionId::new(id as u64),
        AccountId::new(account_id as u64),
        kind,
        amount,
        at,
        description,
        category,
    ) {
        Ok(transaction) => Ok(transaction),
        Err(error) => Err(
            invalid_data(message_with("invalid transaction data: ", text_chars(error.debug_text()))),
        ),
    }
}

/// Builds a transaction from a stored row, reading its time text.
pub fn transaction_from_stored(
    id: i64,
    account_id: i64,
    kind_code: String,
    amount_minor: i64,
    currency_code: String,
    occurred_at: String,
    description: String,
    category_code: String,
) -> (r: Result<Transaction, RepositoryError>)
    ensures
        exists|time: TimeReading|
            reading_of_text(occurred_at@, time) && gives_stored(
                r,
                #[trigger] stored_transaction_outcome(
                    id,
                    account_id,
                    kind_code@,
                    amount_minor,
                    currency_code@,
                    occurred_at@,
                    time,
                    description@,
                    category_code@,
                ),
                |value: Transaction| value@,
            ),
{
    let time = ZonedTime::parse(occurred_at.as_str());
    let ghost reading = reading_view(time);
    let r = transaction_from_reading(
        id,
        account_id,
        kind_code.as_str(),
        amount_minor,
        currency_code.as_str(),
        occurred_at.as_str(),
        time,
        description,
        category_code.as_str(),
    );
    assert(reading_of_text(occurred_at@, reading) && gives_stored(
        r,
        stored_transaction_outcome(
            id,
            account_id,
            kind_code@,
            amount_minor,
            currency_code@,
            occurred_at@,
            reading,
            description@,
            category_code@,
        ),
        |value: Transaction| value@,
    ));
    r
}

/// What a stored transfer row gives, its time read as `time`.
pub open spec fn stored_transfer_outcome(
    id: i64,
    source: i64,
    destination: i64,
    source_minor: i64,
    source_currency: Seq<char>,
    destination_minor: i64,
    destination_currency: Seq<char>,
    time: TimeReading,
    description: Seq<char>,
) -> Result<TransferView, Seq<char>> {
    if id < 0 {
        Err("invalid transfer id: "@ + signed_decimal_text(id as int))
    } else if source < 0 {
        Err("invalid transfer source account id"@)
    } else if destination < 0 {
        Err("invalid transfer destination account id"@)
    } else {
        match time {
            Err(reason) => Err("invalid transfer occurred_at: "@ + reason),
            Ok(at) => match stored_currency_outcome(source_currency) {
                Err(message) => Err(message),
                Ok(from_currency) => match stored_currency_outcome(destination_currency) {
                    Err(message) => Err(message),
                    Ok(to_currency) => match new_transfer_outcome(
                        AccountId::from_value(source as u64),
                        AccountId::from_value(destination as u64),
                        MoneyView { minor: source_minor as int, currency: from_currency },
                        MoneyView { minor: destination_minor as int, currency: to_currency },
                        at,
                        description,
                    ) {
                        Err(error) => Err("invalid transfer: "@ + transfer_error_text(error)),
                        Ok(value) => Ok(TransferView::from_new(TransferId::from_value(id as u64), value)),
                    },
                },
            },
        }
    }
}

/// Builds a transfer from a stored row whose time text was read as `time`.
pub fn transfer_from_reading(
    id: i64,
    source: i64,
    destination: i64,
    source_minor: i64,
    source_currency: &str,
    destination_minor: i64,
    destination_currency: &str,
    time: Result<ZonedTime, String>,
    description: String,
) -> (r: Result<Transfer, RepositoryError>)
    ensures
        gives_stored(
            r,
            stored_transfer_outcome(
                id,
                source,
                destination,
                source_minor,
                source_currency@,
                destination_minor,
                destination_currency@,
                reading_view(time),
                description@,
            ),
            |value: Transfer| value@,
        ),
{
    if id < 0 {
        return Err(invalid_data(message_with("invalid transfer id: ", i64_text(id))));
    }
    if source < 0 {
        return Err(invalid_data(String::from_str("invalid transfer source account id")));
    }
    if destination < 0 {
        return Err(invalid_data(String::from_str("invalid transfer destination account id")));
    }
    let at = match time {
        Ok(at) => at,
        Err(reason) => {
            return Err(invalid_data(message_with("invalid transfer occurred_at: ", text_chars(reason.as_str()))));
        },
    };
    let from_currency = currency_from_stored(source_currency)?;
    let to_currency = currency_from_stored(destination_currency)?;
    match Transfer::new(
        TransferId::new(id as u64),
        AccountId::new(source as u64),
        AccountId::new(destination as u64),
        Money::from_minor_units(source_minor, from_currency),
        Money::from_minor_units(destination_minor, to_currency),
        at,
        description,
    ) {
        Ok(transfer) => Ok(transfer),
        Err(error) => Err(invalid_data(message_with("invalid transfer: ", text_chars(error.debug_text())))),
    }
}

/// Builds a transfer from a stored row, reading its time text. The row holds the
/// identifier, source and destination accounts, source amount and currency,
/// destination amount and currency, time text and description.
pub fn transfer_from_stored(stored: (i64, i64, i64, i64, String, i64, String, String, String)) -> (r: Result<
    Transfer,
    RepositoryError,
>)
    ensures
        exists|time: TimeReading|
            reading_of_text(stored.7@, time) && gives_stored(
                r,
                #[trigger] stored_transfer_outcome(
                    stored.0,
                    stored.1,
                    stored.2,
                    stored.3,
                    stored.4@,
                    stored.5,
                    stored.6@,
                    time,
                    stored.8@,
                ),
                |value: Transfer| value@,
            ),
{
    let (id, source, destination, source_minor, source_currency, destination_minor, destination_currency, occurred_at, description) = stored;
    let time = ZonedTime::parse(occurred_at.as_str());
    let ghost reading = reading_view(time);
    let r = transfer_from_reading(
        id,
        source,
        destination,
        source_minor,
        source_currency.as_str(),
        destination_minor,
        destination_currency.as_str(),
        time,
        description,
    );
    assert(reading_of_text(stored.7@, reading) && gives_stored(
        r,
        stored_transfer_outcome(
            id,
            source,
            destination,
            source_minor,
            source_currency@,
            destination_minor,
            destination_currency@,
            reading,
            stored.8@,
        ),
        |value: Transfer| value@,
    ));
    r
}

/// What a stored budget row gives.
pub open spec fn stored_budget_outcome(
    id: i64,
    account: i64,
    category_code: Seq<char>,
    year: i32,
    month: u8,
    limit: i64,
    currency_code: Seq<char>,
) -> Result<BudgetView, Seq<char>> {
    if id < 0 {
        Err("invalid budget id: "@ + signed_decimal_text(id as int))
    } else if account < 0 {
        Err("invalid budget account id"@)
    } else if !valid_month(year as int, month as int) {
        Err("invalid budget month: "@ + budget_error_text(BudgetError::InvalidMonth { year, month }))
    } else {
        match stored_category_outcome(category_code) {
            Err(message) => Err(message),
            Ok(category) => match stored_currency_outcome(currency_code) {
                Err(message) => Err(message),
                Ok(currency) => match new_budget_outcome(
                    AccountId::from_value(account as u64),
                    category,
                    BudgetMonth::from_parts(year, month),
                    MoneyView { minor: limit as int, currency },
                ) {
                    Err(error) => Err("invalid budget: "@ + budget_error_text(error)),
                    Ok(value) => Ok(BudgetView::from_new(BudgetId::from_value(id as u64), value)),
                },
            },
        }
    }
}

/// Builds a budget from a stored row: identifier, account, category code, year, month,
/// limit and currency code.
pub fn budget_from_stored(stored: (i64, i64, String, i32, u8, i64, String)) -> (r: Result<
    Budget,
    RepositoryError,
>)
    ensures
        gives_stored(
            r,
            stored_budget_outcome(
                stored.0,
                stored.1,
                stored.2@,
                stored.3,
                stored.4,
                stored.5,
                stored.6@,
            ),
            |value: Budget| value@,
        ),
{
    let (id, account, category, year, month, limit, currency) = stored;
    if id < 0 {
        return Err(invalid_data(message_with("invalid budget id: ", i64_text(id))));
    }
    if account < 0 {
        return Err(invalid_data(String::from_str("invalid budget account id")));
    }
    let month = match BudgetMonth::new(year, month) {
        Ok(value) => value,
        Err(error) => {
            return Err(invalid_data(message_with("invalid budget month: ", error.debug_text())));
        },
    };
    let category = category_from_stored(category.as_str())?;
    let currency = currency_from_stored(currency.as_str())?;
    match Budget::new(
        BudgetId::new(id as u64),
        AccountId::new(account as u64),
        category,
        month,
        Money::from_minor_units(limit, currency),
    ) {
        Ok(budget) => Ok(budget),
        Err(error) => Err(invalid_data(message_with("invalid budget: ", error.debug_text()))),
    }
}

} // verus!
