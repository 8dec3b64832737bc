use vstd::prelude::*;
use crate::application::account_balance::GetAccountBalanceError;
use crate::application::budget_report::BudgetReportError;
use crate::application::manage_transaction::ManageTransactionError;
use crate::application::manage_transfer::ManageTransferError;
use crate::application::ranged_summary::GetRangedSummaryError;
use crate::application::record_transaction::RecordTransactionError;
use crate::application::repository::RepositoryError;
use crate::decimal::{decimal_text, u64_text};
use crate::domain::account::{AccountError, AccountId};
use crate::domain::balance::BalanceError;
use crate::domain::budget::BudgetError;
use crate::domain::category_report::CategoryReportError;
use crate::domain::money::{Currency, MoneyError, currency_code};
use crate::domain::summary::SummaryError;
use crate::domain::transaction::TransactionError;
use crate::domain::transfer::transfer_error_text;
use crate::text::{string_from_chars, text_chars};

verus! {

/// How `{:?}` writes a string: quoted, with its special characters escaped.
pub uninterp spec fn debug_string(text: Seq<char>) -> Seq<char>;

/// Calls the `Debug` formatting of `str`, which quotes and escapes the text.
#[verifier::external_body]
fn debug_quoted(text: &str) -> (r: String)
    ensures
        r@ == debug_string(text@),
{
    format!("{:?}", text)
}

fn push_text(out: &mut Vec<char>, text: &str)
    ensures
        final(out)@ == old(out)@ + text@,
{
    let mut chars = text_chars(text);
    out.append(&mut chars);
}

fn push_chars(out: &mut Vec<char>, chars: Vec<char>)
    ensures
        final(out)@ == old(out)@ + chars@,
{
    let mut chars = chars;
    out.append(&mut chars);
}

/// The decimal text of an identifier value.
pub open spec fn id_text(value: u64) -> Seq<char> {
    decimal_text(value as nat)
}

/// The text of a currency mismatch.
pub open spec fn currency_mismatch_text(expected: Currency, found: Currency) -> Seq<char> {
    "currency mismatch: expected "@ + currency_code(expected) + ", found "@ + currency_code(found)
}

/// The text of an account mismatch.
pub open spec fn account_mismatch_text(expected: AccountId, found: AccountId) -> Seq<char> {
    "account mismatch: expected account "@ + id_text(expected@) + ", found account "@ + id_text(
        found@,
    )
}

/// The text of a missing account.
pub open spec fn account_not_found_text(id: AccountId) -> Seq<char> {
    "account "@ + id_text(id@) + " not found"@
}

/// The digits of a number, padded with leading zeros to at least `width` characters.
pub open spec fn zero_padded(n: nat, width: nat) -> Seq<char> {
    let digits = decimal_text(n);
    if digits.len() >= width {
        digits
    } else {
        Seq::new((width - digits.len()) as nat, |i: int| '0') + digits
    }
}

/// A signed number written with `{:0width$}`: the sign counts toward the width.
pub open spec fn signed_zero_padded(n: int, width: nat) -> Seq<char> {
    if n < 0 {
        seq!['-'] + zero_padded((-n) as nat, if width > 0 { (width - 1) as nat } else { 0 })
    } else {
        zero_padded(n as nat, width)
    }
}

fn push_zero_padded(out: &mut Vec<char>, n: u64, width: usize)
    ensures
        final(out)@ == old(out)@ + zero_padded(n as nat, width as nat),
{
    let digits = u64_text(n);
    if digits.len() < width {
        let missing = width - digits.len();
        let ghost start = out@;
        let mut k: usize = 0;
        while k < missing
            invariant
                k <= missing,
                out@ == start + Seq::new(k as nat, |i: int| '0'),
            decreases missing - k,
        {
            out.push('0');
            k = k + 1;
            assert(out@ =~= start + Seq::new(k as nat, |i: int| '0'));
        }
    }
    push_chars(out, digits);
}

fn push_id(out: &mut Vec<char>, value: u64)
    ensures
        final(out)@ == old(out)@ + id_text(value),
{
    push_chars(out, u64_text(value));
}

fn push_currency_mismatch(out: &mut Vec<char>, expected: Currency, found: Currency)
    ensures
        final(out)@ == old(out)@ + currency_mismatch_text(expected, found),
{
    let ghost start = out@;
    push_text(out, "currency mismatch: expected ");
    push_text(out, expected.code());
    push_text(out, ", found ");
    push_text(out, found.code());
    assert(out@ =~= start + currency_mismatch_text(expected, found));
}

fn push_account_mismatch(out: &mut Vec<char>, expected: AccountId, found: AccountId)
    ensures
        final(out)@ == old(out)@ + account_mismatch_text(expected, found),
{
    let ghost start = out@;
    push_text(out, "account mismatch: expected account ");
    push_id(out, expected.value());
    push_text(out, ", found account ");
    push_id(out, found.value());
    assert(out@ =~= start + account_mismatch_text(expected, found));
}

fn push_account_not_found(out: &mut Vec<char>, id: AccountId)
    ensures
        final(out)@ == old(out)@ + account_not_found_text(id),
{
    let ghost start = out@;
    push_text(out, "account ");
    push_id(out, id.value());
    push_text(out, " not found");
    assert(out@ =~= start + account_not_found_text(id));
}

/// How an account error reads.
pub open spec fn account_error_message(error: AccountError) -> Seq<char> {
    match error {
        AccountError::AdjustmentCurrencyMismatch => "adjustment currency does not match account"@,
        AccountError::EmptyName => "account name must not be empty"@,
    }
}

impl AccountError {
    /// The message that describes this error.
    pub fn message(&self) -> (r: String)
        ensures
            r@ == account_error_message(*self),
    {
        match self {
            AccountError::AdjustmentCurrencyMismatch => String::from_str(
                "adjustment currency does not match account",
            ),
            AccountError::EmptyName => String::from_str("account name must not be empty"),
        }
    }
}

/// How a transaction error reads.
pub open spec fn transaction_error_message(error: TransactionError) -> Seq<char> {
    match error {
        TransactionError::InvalidAmount => "amount must be greater than zero"@,
        TransactionError::EmptyDescription => "description must not be empty"@,
    }
}

impl TransactionError {
    /// The message that describes this error.
    pub fn message(&self) -> (r: String)
        ensures
            r@ == transaction_error_message(*self),
    {
        match self {
            TransactionError::InvalidAmount => String::from_str("amount must be greater than zero"),
            TransactionError::EmptyDescription => String::from_str("description must not be empty"),
        }
    }
}

/// How a money error reads.
pub open spec fn money_error_message(error: MoneyError) -> Seq<char> {
    match error {
        MoneyError::CurrencyMismatch { expected, found } => currency_mismatch_text(expected, found),
        MoneyError::ArithmeticOverflow => "arithmetic overflow"@,
    }
}

fn push_money_error(out: &mut Vec<char>, error: MoneyError)
    ensures
        final(out)@ == old(out)@ + money_error_message(error),
{
    match error {
        MoneyError::CurrencyMismatch { expected, found } => push_currency_mismatch(out, expected, found),
        MoneyError::ArithmeticOverflow => push_text(out, "arithmetic overflow"),
    }
}

impl MoneyError {
    /// The message that describes this error.
    pub fn message(&self) -> (r: String)
        ensures
            r@ == money_error_message(*self),
    {
        let mut out: Vec<char> = Vec::new();
        push_money_error(&mut out, *self);
        assert(out@ =~= money_error_message(*self));
        string_from_chars(&out)
    }
}

/// How a balance error reads.
pub open spec fn balance_error_message(error: BalanceError) -> Seq<char> {
    match error {
        BalanceError::CurrencyMismatch { expected, found } => currency_mismatch_text(expected, found),
        BalanceError::AccountMismatch { expected, found } => account_mismatch_text(expected, found),
        BalanceError::ArithmeticOverflow => "arithmetic overflow"@,
    }
}

fn push_balance_error(out: &mut Vec<char>, error: BalanceError)
    ensures
        final(out)@ == old(out)@ + balance_error_message(error),
{
    match error {
        BalanceError::CurrencyMismatch { expected, found } => push_currency_mismatch(out, expected, found),
        BalanceError::AccountMismatch { expected, found } => push_account_mismatch(out, expected, found),
        BalanceError::ArithmeticOverflow => push_text(out, "arithmetic overflow"),
    }
}

impl BalanceError {
    /// The message that describes this error.
    pub fn message(&self) -> (r: String)
        ensures
            r@ == balance_error_message(*self),
    {
        let mut out: Vec<char> = Vec::new();
        push_balance_error(&mut out, *self);
        assert(out@ =~= balance_error_message(*self));
        string_from_chars(&out)
    }
}

/// How a category report error reads.
pub open spec fn category_report_error_message(error: CategoryReportError) -> Seq<char> {
    match error {
        CategoryReportError::CurrencyMismatch { expected, found } => currency_mismatch_text(
            expected,
            found,
        ),
        CategoryReportError::AccountMismatch { expected, found } => account_mismatch_text(
            expected,
            found,
        ),
        CategoryReportError::ArithmeticOverflow => "arithmetic overflow"@,
    }
}

impl CategoryReportError {
    /// The message that describes this error.
    pub fn message(&self) -> (r: String)
        ensures
            r@ == category_report_error_message(*self),
    {
        let mut out: Vec<char> = Vec::new();
        match *self {
            CategoryReportError::CurrencyMismatch { expected, found } => push_currency_mismatch(
                &mut out,
                expected,
                found,
            ),
            CategoryReportError::AccountMismatch { expected, found } => push_account_mismatch(
                &mut out,
                expected,
                found,
            ),
            CategoryReportError::ArithmeticOverflow => push_text(&mut out, "arithmetic overflow"),
        }
        assert(out@ =~= category_report_error_message(*self));
        string_from_chars(&out)
    }
}

/// How a summary error reads.
pub open spec fn summary_error_message(error: SummaryError) -> Seq<char> {
    match error {
        SummaryError::CurrencyMismatch { expected, found } => currency_mismatch_text(expected, found),
        SummaryError::AccountMismatch { expected, found } => account_mismatch_text(expected, found),
        SummaryError::ArithmeticOverflow => "arithmetic overflow"@,
    }
}

fn push_summary_error(out: &mut Vec<char>, error: SummaryError)
    ensures
        final(out)@ == old(out)@ + summary_error_message(error),
{
    match error {
        SummaryError::CurrencyMismatch { expected, found } => push_currency_mismatch(out, expected, found),
        SummaryError::AccountMismatch { expected, found } => push_account_mismatch(out, expected, found),
        SummaryError::ArithmeticOverflow => push_text(out, "arithmetic overflow"),
    }
}

/// How a budget error reads; the month shows its year with at least four digits and
/// its number with at least two.
pub open spec fn budget_error_message(error: BudgetError) -> Seq<char> {
    match error {
        BudgetError::InvalidMonth { year, month } => "invalid month "@ + signed_zero_padded(
            year as int,
            4,
        ) + "-"@ + zero_padded(month as nat, 2),
        BudgetError::InvalidLimit => "budget limit must be greater than zero"@,
    }
}

impl BudgetError {
    /// The message that describes this error.
    pub fn message(&self) -> (r: String)
        ensures
            r@ == budget_error_message(*self),
    {
        match *self {
            BudgetError::InvalidMonth { year, month } => {
                let mut out: Vec<char> = Vec::new();
                push_text(&mut out, "invalid month ");
                let ghost after_prefix = out@;
                if year < 0 {
                    out.push('-');
                    let magnitude: u64 = (0i64 - year as i64) as u64;
                    push_zero_padded(&mut out, magnitude, 3);
                    assert(out@ =~= after_prefix + signed_zero_padded(year as int, 4));
                } else {
                    push_zero_padded(&mut out, year as u64, 4);
                    assert(out@ =~= after_prefix + signed_zero_padded(year as int, 4));
                }
                push_text(&mut out, "-");
                push_zero_padded(&mut out, month as u64, 2);
                assert(out@ =~= budget_error_message(*self));
                string_from_chars(&out)
            },
            BudgetError::InvalidLimit => String::from_str("budget limit must be greater than zero"),
        }
    }
}

/// How a repository error reads.
pub open spec fn repository_error_message(error: RepositoryError) -> Seq<char> {
    match error {
        RepositoryError::DuplicateAccountId(id) => "duplicate account id "@ + id_text(id@),
        RepositoryError::DuplicateTransactionId(id) => "duplicate transaction id "@ + id_text(id@),
        RepositoryError::DuplicateTransferId(id) => "duplicate transfer id "@ + id_text(id@),
        RepositoryError::DuplicateBudgetId(id) => "duplicate budget id "@ + id_text(id@),
        RepositoryError::InvalidId(id) => "invalid repository id "@ + id_text(id),
        RepositoryError::IdExhausted => "repository exhausted its id space"@,
        RepositoryError::RestoreTargetNotEmpty => "restore target is not empty"@,
        RepositoryError::Storage(message) => "storage error: "@ + message@,
        RepositoryError::InvalidStoredData(message) => "invalid stored data: "@ + message@,
    }
}

fn push_repository_error(out: &mut Vec<char>, error: &RepositoryError)
    ensures
        final(out)@ == old(out)@ + repository_error_message(*error),
{
    let ghost start = out@;
    match error {
        RepositoryError::DuplicateAccountId(id) => {
            push_text(out, "duplicate account id ");
            push_id(out, id.value());
        },
        RepositoryError::DuplicateTransactionId(id) => {
            push_text(out, "duplicate transaction id ");
            push_id(out, id.value());
        },
        RepositoryError::DuplicateTransferId(id) => {
            push_text(out, "duplicate transfer id ");
            push_id(out, id.value());
        },
        RepositoryError::DuplicateBudgetId(id) => {
            push_text(out, "duplicate budget id ");
            push_id(out, id.value());
        },
        RepositoryError::InvalidId(id) => {
            push_text(out, "invalid repository id ");
            push_id(out, *id);
        },
        RepositoryError::IdExhausted => push_text(out, "repository exhausted its id space"),
        RepositoryError::RestoreTargetNotEmpty => push_text(out, "restore target is not empty"),
        RepositoryError::Storage(message) => {
            push_text(out, "storage error: ");
            push_text(out, message.as_str());
        },
        RepositoryError::InvalidStoredData(message) => {
            push_text(out, "invalid stored data: ");
            push_text(out, message.as_str());
        },
    }
    assert(out@ =~= start + repository_error_message(*error));
}

impl RepositoryError {
    /// The message that describes this error.
    pub fn message(&self) -> (r: String)
        ensures
            r@ == repository_error_message(*self),
    {
        let mut out: Vec<char> = Vec::new();
        push_repository_error(&mut out, self);
        assert(out@ =~= repository_error_message(*self));
        string_from_chars(&out)
    }
}

/// How an error of a repository call reads inside another error.
pub open spec fn wrapped_repository_message(error: RepositoryError) -> Seq<char> {
    "repository error: "@ + repository_error_message(error)
}

fn push_wrapped_repository_error(out: &mut Vec<char>, error: &RepositoryError)
    ensures
        final(out)@ == old(out)@ + wrapped_repository_message(*error),
{
    let ghost start = out@;
    push_text(out, "repository error: ");
    push_repository_error(out, error);
    assert(out@ =~= start + wrapped_repository_message(*error));
}

/// How an error of recording a transaction reads.
pub open spec fn record_transaction_error_message(error: RecordTransactionError) -> Seq<char> {
    match error {
        RecordTransactionError::AccountNotFound(id) => account_not_found_text(id),
        RecordTransactionError::CurrencyMismatch { expected, found } => currency_mismatch_text(
            expected,
            found,
        ),
        RecordTransactionError::Repository(error) => wrapped_repository_message(error),
    }
}

impl RecordTransactionError {
    /// The message that describes this error.
    pub fn message(&self) -> (r: String)
        ensures
            r@ == record_transaction_error_message(*self),
    {
        let mut out: Vec<char> = Vec::new();
        match self {
            RecordTransactionError::AccountNotFound(id) => push_account_not_found(&mut out, *id),
            RecordTransactionError::CurrencyMismatch { expected, found } => push_currency_mismatch(
                &mut out,
                *expected,
                *found,
            ),
            RecordTransactionError::Repository(error) => push_wrapped_repository_error(&mut out, error),
        }
        assert(out@ =~= record_transaction_error_message(*self));
        string_from_chars(&out)
    }
}

/// How an error of reading a balance reads.
pub open spec fn get_account_balance_error_message(error: GetAccountBalanceError) -> Seq<char> {
    match error {
        GetAccountBalanceError::AccountNotFound(id) => account_not_found_text(id),
        GetAccountBalanceError::Repository(error) => wrapped_repository_message(error),
        GetAccountBalanceError::Balance(error) => balance_error_message(error),
    }
}

impl GetAccountBalanceError {
    /// The message that describes this error.
    pub fn message(&self) -> (r: String)
        ensures
            r@ == get_account_balance_error_message(*self),
    {
        let mut out: Vec<char> = Vec::new();
        match self {
            GetAccountBalanceError::AccountNotFound(id) => push_account_not_found(&mut out, *id),
            GetAccountBalanceError::Repository(error) => push_wrapped_repository_error(&mut out, error),
            GetAccountBalanceError::Balance(error) => push_balance_error(&mut out, *error),
        }
        assert(out@ =~= get_account_balance_error_message(*self));
        string_from_chars(&out)
    }
}

/// How an error of a ranged summary reads.
pub open spec fn get_ranged_summary_error_message(error: GetRangedSummaryError) -> Seq<char> {
    match error {
        GetRangedSummaryError::AccountNotFound(id) => account_not_found_text(id),
        GetRangedSummaryError::InvalidTimeRange { from, to } => "invalid time range: "@ + from@.text
            + " to "@ + to@.text,
        GetRangedSummaryError::Repository(error) => wrapped_repository_message(error),
        GetRangedSummaryError::Summary(error) => summary_error_message(error),
    }
}

impl GetRangedSummaryError {
    /// The message that describes this error.
    pub fn message(&self) -> (r: String)
        ensures
            r@ == get_ranged_summary_error_message(*self),
    {
        let mut out: Vec<char> = Vec::new();
        match self {
            GetRangedSummaryError::AccountNotFound(id) => push_account_not_found(&mut out, *id),
            GetRangedSummaryError::InvalidTimeRange { from, to } => {
                push_text(&mut out, "invalid time range: ");
                push_text(&mut out, from.as_str());
                push_text(&mut out, " to ");
                push_text(&mut out, to.as_str());
            },
            GetRangedSummaryError::Repository(error) => push_wrapped_repository_error(&mut out, error),
            GetRangedSummaryError::Summary(error) => push_summary_error(&mut out, *error),
        }
        assert(out@ =~= get_ranged_summary_error_message(*self));
        string_from_chars(&out)
    }
}

/// How an error of a budget report reads.
pub open spec fn budget_report_error_message(error: BudgetReportError) -> Seq<char> {
    match error {
        BudgetReportError::AccountNotFound(id) => account_not_found_text(id),
        BudgetReportError::InvalidTimeZone(value) => "invalid time zone "@ + debug_string(value@),
        BudgetReportError::InvalidMonthBoundary(value) => "invalid month boundary: "@ + value@,
        BudgetReportError::Money(error) => money_error_message(error),
        BudgetReportError::Repository(error) => wrapped_repository_message(error),
    }
}

impl BudgetReportError {
    /// The message that describes this error.
    pub fn message(&self) -> (r: String)
        ensures
            r@ == budget_report_error_message(*self),
    {
        let mut out: Vec<char> = Vec::new();
        match self {
            BudgetReportError::AccountNotFound(id) => push_account_not_found(&mut out, *id),
            BudgetReportError::InvalidTimeZone(value) => {
                push_text(&mut out, "invalid time zone ");
                let quoted = debug_quoted(value.as_str());
                push_text(&mut out, quoted.as_str());
            },
            BudgetReportError::InvalidMonthBoundary(value) => {
                push_text(&mut out, "invalid month boundary: ");
                push_text(&mut out, value.as_str());
            },
            BudgetReportError::Money(error) => push_money_error(&mut out, *error),
            BudgetReportError::Repository(error) => push_wrapped_repository_error(&mut out, error),
        }
        assert(out@ =~= budget_report_error_message(*self));
        string_from_chars(&out)
    }
}

/// How an error of managing a transaction reads.
pub open spec fn manage_transaction_error_message(error: ManageTransactionError) -> Seq<char> {
    match error {
        ManageTransactionError::TransactionNotFound(id) => "transaction "@ + id_text(id@)
            + " not found"@,
        ManageTransactionError::AccountNotFound(id) => account_not_found_text(id),
        ManageTransactionError::CurrencyMismatch { expected, found } => currency_mismatch_text(
            expected,
            found,
        ),
        ManageTransactionError::NoChanges => "no changes to apply"@,
        ManageTransactionError::Transaction(error) => transaction_error_message(error),
        ManageTransactionError::Repository(error) => wrapped_repository_message(error),
    }
}

impl ManageTransactionError {
    /// The message that describes this error.
    pub fn message(&self) -> (r: String)
        ensures
            r@ == manage_transaction_error_message(*self),
    {
        let mut out: Vec<char> = Vec::new();
        match self {
            ManageTransactionError::TransactionNotFound(id) => {
                push_text(&mut out, "transaction ");
                push_id(&mut out, id.value());
                push_text(&mut out, " not found");
            },
            ManageTransactionError::AccountNotFound(id) => push_account_not_found(&mut out, *id),
            ManageTransactionError::CurrencyMismatch { expected, found } => push_currency_mismatch(
                &mut out,
                *expected,
                *found,
            ),
            ManageTransactionError::NoChanges => push_text(&mut out, "no changes to apply"),
            ManageTransactionError::Transaction(error) => {
                let text = error.message();
                push_text(&mut out, text.as_str());
            },
            ManageTransactionError::Repository(error) => push_wrapped_repository_error(&mut out, error),
        }
        assert(out@ =~= manage_transaction_error_message(*self));
        string_from_chars(&out)
    }
}

/// How an error of managing a transfer reads.
pub open spec fn manage_transfer_error_message(error: ManageTransferError) -> Seq<char> {
    match error {
        ManageTransferError::TransferNotFound(id) => "transfer "@ + id_text(id@) + " not found"@,
        ManageTransferError::AccountNotFound(id) => account_not_found_text(id),
        ManageTransferError::CurrencyMismatch { account_id, expected, found } => "currency mismatch for account "@
            + id_text(account_id@) + ": expected "@ + currency_code(expected) + ", found "@
            + currency_code(found),
        ManageTransferError::NoChanges => "no changes to apply"@,
        ManageTransferError::Transfer(error) => transfer_error_text(error),
        ManageTransferError::Repository(error) => wrapped_repository_message(error),
    }
}

impl ManageTransferError {
    /// The message that describes this error; a transfer error reads as its name.
    pub fn message(&self) -> (r: String)
        ensures
            r@ == manage_transfer_error_message(*self),
    {
        let mut out: Vec<char> = Vec::new();
        match self {
            ManageTransferError::TransferNotFound(id) => {
                push_text(&mut out, "transfer ");
                push_id(&mut out, id.value());
                push_text(&mut out, " not found");
            },
            ManageTransferError::AccountNotFound(id) => push_account_not_found(&mut out, *id),
            ManageTransferError::CurrencyMismatch { account_id, expected, found } => {
                push_text(&mut out, "currency mismatch for account ");
                push_id(&mut out, account_id.value());
                push_text(&mut out, ": expected ");
                push_text(&mut out, expected.code());
                push_text(&mut out, ", found ");
                push_text(&mut out, found.code());
            },
            ManageTransferError::NoChanges => push_text(&mut out, "no changes to apply"),
            ManageTransferError::Transfer(error) => push_text(&mut out, error.debug_text()),
            ManageTransferError::Repository(error) => push_wrapped_repository_error(&mut out, error),
        }
        assert(out@ =~= manage_transfer_error_message(*self));
        string_from_chars(&out)
    }
}

} // verus!
