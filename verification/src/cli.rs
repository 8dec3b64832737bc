use vstd::prelude::*;
use crate::application::account_balance::GetAccountBalanceError;
use crate::application::audit_log::ListAuditLogError;
use crate::application::backup::BackupError;
use crate::application::budget_report::BudgetReportError;
use crate::application::category_report::GetCategoryReportError;
use crate::application::create_account::CreateAccountError;
use crate::application::csv_exchange::CsvExchangeError;
use crate::application::list_accounts::ListAccountsError;
use crate::application::list_transactions::{ListTransactionsError, TransactionCursor, TransactionCursorView};
use crate::application::manage_account::ManageAccountError;
use crate::application::manage_budget::ManageBudgetError;
use crate::application::manage_transaction::ManageTransactionError;
use crate::application::manage_transfer::ManageTransferError;
use crate::application::monthly_trend::MonthlyTrendError;
use crate::application::ranged_summary::GetRangedSummaryError;
use crate::application::record_transaction::RecordTransactionError;
use crate::application::repository::RepositoryError;
use crate::decimal::{parse_i64_text, parse_u64_text, signed_literal_value};
use crate::domain::budget::{BudgetError, BudgetMonth, valid_month};
use crate::domain::money::{Currency, Money, MoneyView};
use crate::domain::time::{
    TimeReading, ZoneProblem, ZonedTime, civil_in_zone, civil_reading, parse_civil_date_time,
    reading_of_text, reading_view, reads_as_written, resolve_in_zone,
};
use crate::domain::transaction::{Category, TransactionError, TransactionKind};
use crate::domain::transfer::TransferError;
use crate::text::{string_from_chars, text_chars};

verus! {

/// The command line: an optional database path and one command.
#[derive(Debug, Clone, PartialEq, Eq)]
pub struct Cli {
    pub database: Option<String>,
    pub command: Command,
}

#[derive(Debug, Clone, PartialEq, Eq)]
pub enum Command {
    Account { command: AccountCommand },
    Transaction { command: TransactionCommand },
    Report { command: ReportCommand },
    Transfer { command: TransferCommand },
    Budget { command: BudgetCommand },
    Data { command: DataCommand },
}

#[derive(Debug, Clone, PartialEq, Eq)]
pub enum DataCommand {
    AuditLog { limit: usize },
    Backup { output: String },
    Restore { input: String },
    ImportTransactions { input: String },
    ExportTransactions {
        account_id: u64,
        output: String,
        category: Option<CategoryArg>,
        kind: Option<TransactionKindArg>,
        from: Option<String>,
        to: Option<String>,
        time_zone: Option<String>,
        description_contains: Option<String>,
        min_amount_minor: Option<i64>,
        max_amount_minor: Option<i64>,
    },
}

#[derive(Debug, Clone, PartialEq, Eq)]
pub enum BudgetCommand {
    SetLimit { account_id: u64, category: CategoryArg, year: i32, month: u8, limit_minor: i64 },
    Show { id: u64 },
    List { account_id: u64 },
    Delete { id: u64 },
    Status { account_id: u64, year: i32, month: u8, time_zone: String },
}

#[derive(Debug, Clone, PartialEq, Eq)]
pub enum TransferCommand {
    Add {
        source_account_id: u64,
        destination_account_id: u64,
        source_amount_minor: i64,
        source_currency: CurrencyArg,
        destination_amount_minor: i64,
        destination_currency: CurrencyArg,
        occurred_at: String,
        description: String,
        time_zone: Option<String>,
    },
    Show { id: u64 },
    List { account_id: u64 },
    Update {
        id: u64,
        source_account_id: Option<u64>,
        destination_account_id: Option<u64>,
        source_amount_minor: Option<i64>,
        source_currency: Option<CurrencyArg>,
        destination_amount_minor: Option<i64>,
        destination_currency: Option<CurrencyArg>,
        occurred_at: Option<String>,
        description: Option<String>,
        time_zone: Option<String>,
    },
    Delete { id: u64 },
}

#[derive(Debug, Clone, PartialEq, Eq)]
pub enum AccountCommand {
    Create { name: String, currency: CurrencyArg },
    Balance { id: u64 },
    Show { id: u64 },
    Update { id: u64, name: String },
    Delete { id: u64 },
    List,
}

#[derive(Debug, Clone, PartialEq, Eq)]
pub enum TransactionCommand {
    Add {
        account_id: u64,
        kind: TransactionKindArg,
        amount_minor: i64,
        currency: CurrencyArg,
        occurred_at: String,
        description: String,
        category: CategoryArg,
        time_zone: Option<String>,
    },
    List {
        account_id: u64,
        category: Option<CategoryArg>,
        kind: Option<TransactionKindArg>,
        from: Option<String>,
        to: Option<String>,
        time_zone: Option<String>,
        description_contains: Option<String>,
        min_amount_minor: Option<i64>,
        max_amount_minor: Option<i64>,
        limit: usize,
        cursor: Option<String>,
    },
    Show { id: u64 },
    Update {
        id: u64,
        account_id: Option<u64>,
        kind: Option<TransactionKindArg>,
        amount_minor: Option<i64>,
        currency: Option<CurrencyArg>,
        occurred_at: Option<String>,
        description: Option<String>,
        category: Option<CategoryArg>,
        time_zone: Option<String>,
    },
    Delete { id: u64 },
}

#[derive(Debug, Clone, PartialEq, Eq)]
pub enum ReportCommand {
    Category { account_id: u64 },
    Summary { account_id: u64, from: String, to: String, time_zone: Option<String> },
    Trend { account_id: u64, from: String, to: String, time_zone: String },
}

#[derive(Debug, Clone, Copy, PartialEq, Eq, Structural)]
pub enum CurrencyArg {
    Cny,
    Usd,
    Eur,
    Hkd,
    Myr,
}

#[derive(Debug, Clone, Copy, PartialEq, Eq, Structural)]
pub enum TransactionKindArg {
    Income,
    Expense,
    ExpenseRefund,
}

#[derive(Debug, Clone, Copy, PartialEq, Eq, Structural)]
pub enum CategoryArg {
    Food,
    Transportation,
    Entertainment,
    Necessary,
    Health,
    Education,
    Shopping,
    Travel,
    Housing,
    Salary,
    Sale,
    Family,
    Investment,
    Other,
}

/// The currency that a command-line currency names.
pub open spec fn currency_of_arg(arg: CurrencyArg) -> Currency {
    match arg {
        CurrencyArg::Cny => Currency::Cny,
        CurrencyArg::Usd => Currency::Usd,
        CurrencyArg::Eur => Currency::Eur,
        CurrencyArg::Hkd => Currency::Hkd,
        CurrencyArg::Myr => Currency::Myr,
    }
}

impl From<CurrencyArg> for Currency {
    fn from(arg: CurrencyArg) -> (r: Currency) {
        match arg {
            CurrencyArg::Cny => Currency::Cny,
            CurrencyArg::Usd => Currency::Usd,
            CurrencyArg::Eur => Currency::Eur,
            CurrencyArg::Hkd => Currency::Hkd,
            CurrencyArg::Myr => Currency::Myr,
        }
    }
}

impl vstd::std_specs::convert::FromSpecImpl<CurrencyArg> for Currency {
    open spec fn obeys_from_spec() -> bool {
        true
    }

    open spec fn from_spec(arg: CurrencyArg) -> Currency {
        currency_of_arg(arg)
    }
}

/// The kind that a command-line kind names.
pub open spec fn kind_of_arg(arg: TransactionKindArg) -> TransactionKind {
    match arg {
        TransactionKindArg::Income => TransactionKind::Income,
        TransactionKindArg::Expense => TransactionKind::Expense,
        TransactionKindArg::ExpenseRefund => TransactionKind::ExpenseRefund,
    }
}

impl From<TransactionKindArg> for TransactionKind {
    fn from(arg: TransactionKindArg) -> (r: TransactionKind) {
        match arg {
            TransactionKindArg::Income => TransactionKind::Income,
            TransactionKindArg::Expense => TransactionKind::Expense,
            TransactionKindArg::ExpenseRefund => TransactionKind::ExpenseRefund,
        }
    }
}

impl vstd::std_specs::convert::FromSpecImpl<TransactionKindArg> for TransactionKind {
    open spec fn obeys_from_spec() -> bool {
        true
    }

    open spec fn from_spec(arg: TransactionKindArg) -> TransactionKind {
        kind_of_arg(arg)
    }
}

/// The category that a command-line category names.
pub open spec fn category_of_arg(arg: CategoryArg) -> Category {
    match arg {
        CategoryArg::Food => Category::Food,
        CategoryArg::Transportation => Category::Transportation,
        CategoryArg::Entertainment => Category::Entertainment,
        CategoryArg::Necessary => Category::Necessary,
        CategoryArg::Health => Category::Health,
        CategoryArg::Education => Category::Education,
        CategoryArg::Shopping => Category::Shopping,
        CategoryArg::Travel => Category::Travel,
        CategoryArg::Housing => Category::Housing,
        CategoryArg::Salary => Category::Salary,
        CategoryArg::Sale => Category::Sale,
        CategoryArg::Family => Category::Family,
        CategoryArg::Investment => Category::Investment,
        CategoryArg::Other => Category::Other,
    }
}

impl From<CategoryArg> for Category {
    fn from(arg: CategoryArg) -> (r: Category) {
        match arg {
            CategoryArg::Food => Category::Food,
            CategoryArg::Transportation => Category::Transportation,
            CategoryArg::Entertainment => Category::Entertainment,
            CategoryArg::Necessary => Category::Necessary,
            CategoryArg::Health => Category::Health,
            CategoryArg::Education => Category::Education,
            CategoryArg::Shopping => Category::Shopping,
            CategoryArg::Travel => Category::Travel,
            CategoryArg::Housing => Category::Housing,
            CategoryArg::Salary => Category::Salary,
            CategoryArg::Sale => Category::Sale,
            CategoryArg::Family => Category::Family,
            CategoryArg::Investment => Category::Investment,
            CategoryArg::Other => Category::Other,
        }
    }
}

impl vstd::std_specs::convert::FromSpecImpl<CategoryArg> for Category {
    open spec fn obeys_from_spec() -> bool {
        true
    }

    open spec fn from_spec(arg: CategoryArg) -> Category {
        category_of_arg(arg)
    }
}

/// Why a command failed.
#[derive(Debug, PartialEq, Eq)]
pub enum CliError {
    Repository(RepositoryError),
    CreateAccount(CreateAccountError),
    InvalidTime { input: String, message: String },
    InvalidCursor(String),
    InvalidMonth(String),
    Transaction(TransactionError),
    Transfer(TransferError),
    Budget(BudgetError),
    RecordTransaction(RecordTransactionError),
    GetCategoryReport(GetCategoryReportError),
    GetAccountBalance(GetAccountBalanceError),
    ListTransactions(ListTransactionsError),
    ListAccounts(ListAccountsError),
    GetRangedSummary(GetRangedSummaryError),
    ManageAccount(ManageAccountError),
    ManageTransaction(ManageTransactionError),
    ManageTransfer(ManageTransferError),
    ManageBudget(ManageBudgetError),
    BudgetReport(BudgetReportError),
    MonthlyTrend(MonthlyTrendError),
    CsvExchange(CsvExchangeError),
    Backup(BackupError),
    ListAuditLog(ListAuditLogError),
    Io { path: String, message: String },
}

/// The position of the last occurrence of a character.
pub open spec fn last_index_of(text: Seq<char>, c: char) -> Option<int>
    decreases text.len(),
{
    if text.len() == 0 {
        None
    } else if text.last() == c {
        Some(text.len() - 1)
    } else {
        last_index_of(text.drop_last(), c)
    }
}

/// The position of the first occurrence of a character.
pub open spec fn first_index_of(text: Seq<char>, c: char) -> Option<int>
    decreases text.len(),
{
    if text.len() == 0 {
        None
    } else {
        match first_index_of(text.drop_last(), c) {
            Some(i) => Some(i),
            None => if text.last() == c {
                Some(text.len() - 1)
            } else {
                None
            },
        }
    }
}

proof fn lemma_index_bounds(text: Seq<char>, c: char)
    ensures
        match last_index_of(text, c) {
            Some(i) => 0 <= i < text.len() && text[i] == c,
            None => true,
        },
        match first_index_of(text, c) {
            Some(i) => 0 <= i < text.len() && text[i] == c,
            None => true,
        },
    decreases text.len(),
{
    if text.len() > 0 {
        lemma_index_bounds(text.drop_last(), c);
    }
}

/// Where a character last occurs in a text.
fn find_last(chars: &Vec<char>, c: char) -> (r: Option<usize>)
    ensures
        match (r, last_index_of(chars@, c)) {
            (Some(i), Some(j)) => i as int == j,
            (None, None) => true,
            _ => false,
        },
{
    let mut k: usize = chars.len();
    assert(chars@.subrange(0, k as int) =~= chars@);
    while k > 0
        invariant
            k <= chars@.len(),
            last_index_of(chars@, c) == last_index_of(chars@.subrange(0, k as int), c),
        decreases k,
    {
        let ghost prefix = chars@.subrange(0, k as int);
        assert(prefix.drop_last() =~= chars@.subrange(0, k - 1));
        if chars[k - 1] == c {
            return Some(k - 1);
        }
        k = k - 1;
    }
    None
}

/// Where a character first occurs in a text.
fn find_first(chars: &Vec<char>, c: char) -> (r: Option<usize>)
    ensures
        match (r, first_index_of(chars@, c)) {
            (Some(i), Some(j)) => i as int == j,
            (None, None) => true,
            _ => false,
        },
{
    let mut k: usize = 0;
    assert(chars@.subrange(0, 0) =~= Seq::<char>::empty());
    while k < chars.len()
        invariant
            k <= chars@.len(),
            first_index_of(chars@.subrange(0, k as int), c) is None,
        decreases chars@.len() - k,
    {
        let ghost prefix = chars@.subrange(0, k + 1);
        assert(prefix.drop_last() =~= chars@.subrange(0, k as int));
        if chars[k] == c {
            proof {
                lemma_first_index_extends(chars@, c, k as int + 1);
            }
            return Some(k);
        }
        k = k + 1;
    }
    assert(chars@.subrange(0, chars@.len() as int) =~= chars@);
    None
}

proof fn lemma_first_index_extends(text: Seq<char>, c: char, k: int)
    requires
        0 < k <= text.len(),
        first_index_of(text.subrange(0, k), c) is Some,
    ensures
        first_index_of(text, c) == first_index_of(text.subrange(0, k), c),
    decreases text.len() - k,
{
    if k < text.len() {
        assert(text.subrange(0, k + 1).drop_last() =~= text.subrange(0, k));
        lemma_first_index_extends(text, c, k + 1);
    } else {
        assert(text.subrange(0, k) =~= text);
    }
}

/// A string holding the characters of `chars` from `start` up to `end`.
fn slice_text(chars: &Vec<char>, start: usize, end: usize) -> (r: String)
    requires
        start <= end <= chars@.len(),
    ensures
        r@ == chars@.subrange(start as int, end as int),
{
    let mut part: Vec<char> = Vec::new();
    let mut k: usize = start;
    while k < end
        invariant
            start <= k <= end,
            end <= chars@.len(),
            part@ == chars@.subrange(start as int, k as int),
        decreases end - k,
    {
        part.push(chars[k]);
        k = k + 1;
        assert(part@ =~= chars@.subrange(start as int, k as int));
    }
    string_from_chars(&part)
}

/// What a page cursor `TIME|ID` gives, its time part read as `time`: the text is split at
/// its last `|`, and the identifier must be an unsigned number.
pub open spec fn cursor_outcome(input: Seq<char>, time: TimeReading) -> Option<TransactionCursorView> {
    match last_index_of(input, '|') {
        None => None,
        Some(bar) => match time {
            Err(_) => None,
            Ok(occurred_at) => match crate::decimal::parsed_u64(input.subrange(bar + 1, input.len() as int)) {
                None => None,
                Some(id) => Some(TransactionCursorView { occurred_at, id }),
            },
        },
    }
}

/// Whether an error reports an input that could not be read as a cursor.
pub open spec fn is_invalid_cursor(error: CliError, input: Seq<char>) -> bool {
    match error {
        CliError::InvalidCursor(text) => text@ == input,
        _ => false,
    }
}

/// Reads a page cursor whose time part was read as `time`.
pub fn transaction_cursor_from_reading(input: &str, time: Result<ZonedTime, String>) -> (r: Result<
    TransactionCursor,
    CliError,
>)
    ensures
        match (r, cursor_outcome(input@, reading_view(time))) {
            (Ok(cursor), Some(expected)) => cursor@ == expected,
            (Err(error), None) => is_invalid_cursor(error, input@),
            _ => false,
        },
{
    let chars = text_chars(input);
    proof {
        lemma_index_bounds(input@, '|');
    }
    let bar = match find_last(&chars, '|') {
        Some(bar) => bar,
        None => return Err(CliError::InvalidCursor(String::from_str(input))),
    };
    let occurred_at = match time {
        Ok(value) => value,
        Err(_) => return Err(CliError::InvalidCursor(String::from_str(input))),
    };
    let id_text = slice_text(&chars, bar + 1, chars.len());
    match parse_u64_text(id_text.as_str()) {
        Some(id) => Ok(TransactionCursor { occurred_at, id }),
        None => Err(CliError::InvalidCursor(String::from_str(input))),
    }
}

/// Reads a page cursor `TIME|ID`, reading its time part, the text before the last `|`,
/// as a zoned time.
pub fn parse_transaction_cursor(input: &str) -> (r: Result<TransactionCursor, CliError>)
    ensures
        exists|time: TimeReading|
            (last_index_of(input@, '|') matches Some(bar) ==> reading_of_text(input@.subrange(0, bar), time))
                && match (r, #[trigger] cursor_outcome(input@, time)) {
                (Ok(cursor), Some(expected)) => cursor@ == expected,
                (Err(error), None) => is_invalid_cursor(error, input@),
                _ => false,
            },
{
    let chars = text_chars(input);
    proof {
        lemma_index_bounds(input@, '|');
    }
    let bar = match find_last(&chars, '|') {
        Some(bar) => bar,
        None => {
            assert(cursor_outcome(input@, Err(Seq::empty())) is None);
            return Err(CliError::InvalidCursor(String::from_str(input)));
        },
    };
    let time_text = slice_text(&chars, 0, bar);
    let time = ZonedTime::parse(time_text.as_str());
    let ghost reading = reading_view(time);
    let r = transaction_cursor_from_reading(input, time);
    assert(time_text@ == input@.subrange(0, bar as int));
    assert((last_index_of(input@, '|') matches Some(b) ==> reading_of_text(input@.subrange(0, b), reading))
        && match (r, cursor_outcome(input@, reading)) {
        (Ok(cursor), Some(expected)) => cursor@ == expected,
        (Err(error), None) => is_invalid_cursor(error, input@),
        _ => false,
    });
    r
}

/// What `str::parse::<i32>` gives for a text.
pub open spec fn parsed_i32(text: Seq<char>) -> Option<i32> {
    match signed_literal_value(text) {
        Some(value) => if i32::MIN <= value <= i32::MAX {
            Some(value as i32)
        } else {
            None
        },
        None => None,
    }
}

/// What `str::parse::<u8>` gives for a text: a literal that `u64` reads and that fits.
pub open spec fn parsed_u8(text: Seq<char>) -> Option<u8> {
    match crate::decimal::parsed_u64(text) {
        Some(value) => if value <= u8::MAX {
            Some(value as u8)
        } else {
            None
        },
        None => None,
    }
}

fn parse_i32_text(text: &str) -> (r: Option<i32>)
    ensures
        r == parsed_i32(text@),
{
    match parse_i64_text(text) {
        Some(value) => if i32::MIN as i64 <= value && value <= i32::MAX as i64 {
            Some(value as i32)
        } else {
            None
        },
        None => None,
    }
}

fn parse_u8_text(text: &str) -> (r: Option<u8>)
    ensures
        r == parsed_u8(text@),
{
    match parse_u64_text(text) {
        Some(value) => if value <= u8::MAX as u64 {
            Some(value as u8)
        } else {
            None
        },
        None => None,
    }
}

/// Whether an error reports an input that could not be read as a month.
pub open spec fn is_invalid_month(error: CliError, input: Seq<char>) -> bool {
    match error {
        CliError::InvalidMonth(text) => text@ == input,
        _ => false,
    }
}

/// Reads a month `YEAR-MONTH`, split at the first `-`; a readable year and month that
/// name no budget month give the budget's own error.
pub fn parse_budget_month(input: &str) -> (r: Result<BudgetMonth, CliError>)
    ensures
        match first_index_of(input@, '-') {
            None => r matches Err(error) && is_invalid_month(error, input@),
            Some(dash) => match (
                parsed_i32(input@.subrange(0, dash)),
                parsed_u8(input@.subrange(dash + 1, input@.len() as int)),
            ) {
                (Some(year), Some(month)) => if valid_month(year as int, month as int) {
                    r == Ok::<BudgetMonth, CliError>(BudgetMonth::from_parts(year, month))
                } else {
                    r == Err::<BudgetMonth, CliError>(
                        CliError::Budget(BudgetError::InvalidMonth { year, month }),
                    )
                },
                _ => r matches Err(error) && is_invalid_month(error, input@),
            },
        },
{
    let chars = text_chars(input);
    proof {
        lemma_index_bounds(input@, '-');
    }
    let dash = match find_first(&chars, '-') {
        Some(dash) => dash,
        None => return Err(CliError::InvalidMonth(String::from_str(input))),
    };
    let year_text = slice_text(&chars, 0, dash);
    let month_text = slice_text(&chars, dash + 1, chars.len());
    let year = match parse_i32_text(year_text.as_str()) {
        Some(year) => year,
        None => return Err(CliError::InvalidMonth(String::from_str(input))),
    };
    let month = match parse_u8_text(month_text.as_str()) {
        Some(month) => month,
        None => return Err(CliError::InvalidMonth(String::from_str(input))),
    };
    match BudgetMonth::new(year, month) {
        Ok(value) => Ok(value),
        Err(error) => Err(CliError::Budget(error)),
    }
}

/// The input that a time error reports: the text, followed by ` [ZONE]` when a time
/// zone was given.
pub open spec fn time_input_text(input: Seq<char>, time_zone: Option<Seq<char>>) -> Seq<char> {
    match time_zone {
        None => input,
        Some(zone) => input + " ["@ + zone + "]"@,
    }
}

/// Whether an error reports a time that could not be read, for the given input text.
pub open spec fn is_invalid_time(error: CliError, shown: Seq<char>) -> bool {
    match error {
        CliError::InvalidTime { input, message: _ } => input@ == shown,
        _ => false,
    }
}

/// The view of an optional borrowed text.
pub open spec fn optional_str_view(value: Option<&str>) -> Option<Seq<char>> {
    match value {
        Some(text) => Some(text@),
        None => None,
    }
}

fn time_error(input: &str, time_zone: Option<&str>, message: String) -> (r: CliError)
    ensures
        is_invalid_time(r, time_input_text(input@, optional_str_view(time_zone))),
{
    let shown = match time_zone {
        None => String::from_str(input),
        Some(zone) => {
            let mut chars = text_chars(input);
            let mut open = text_chars(" [");
            let mut name = text_chars(zone);
            let mut close = text_chars("]");
            chars.append(&mut open);
            chars.append(&mut name);
            chars.append(&mut close);
            assert(chars@ =~= time_input_text(input@, optional_str_view(time_zone)));
            string_from_chars(&chars)
        },
    };
    CliError::InvalidTime { input: shown, message }
}

/// Reads an occurrence time: a complete zoned time, or, with a time-zone name, a local
/// date and time in that zone, which must name exactly one instant. Whether a time is
/// accepted depends on the time-zone database; a complete time without a bracketed zone
/// and a local time that does not read as one are refused, and any refusal reports the
/// input, followed by the zone name in brackets when one was given.
pub fn parse_occurred_at(input: &str, time_zone: Option<&str>) -> (r: Result<ZonedTime, CliError>)
    ensures
        time_zone is None && !input@.contains('[') ==> r is Err,
        time_zone is Some && civil_reading(input@) is None ==> r is Err,
        match r {
            Ok(time) => match time_zone {
                None => reads_as_written(input@, time@),
                Some(name) => civil_reading(input@) matches Some(local) && civil_in_zone(time@, local, name@),
            },
            Err(error) => is_invalid_time(error, time_input_text(input@, optional_str_view(time_zone))),
        },
{
    match time_zone {
        None => match ZonedTime::parse(input) {
            Ok(time) => Ok(time),
            Err(message) => Err(time_error(input, time_zone, message)),
        },
        Some(name) => {
            let local = match parse_civil_date_time(input) {
                Ok(local) => local,
                Err(message) => return Err(time_error(input, time_zone, message)),
            };
            match resolve_in_zone(name, &local) {
                Ok(time) => Ok(time),
                Err(ZoneProblem::UnknownZone(message)) => Err(time_error(input, time_zone, message)),
                Err(ZoneProblem::Unresolved(message)) => Err(time_error(input, time_zone, message)),
            }
        },
    }
}

/// The amount that an update of a stored amount names: none when neither minor units nor
/// a currency is given; otherwise the given parts, each part left out taken from the
/// stored amount.
pub open spec fn merged_amount_view(
    current: MoneyView,
    amount_minor: Option<i64>,
    currency: Option<Currency>,
) -> Option<MoneyView> {
    if amount_minor is None && currency is None {
        None
    } else {
        Some(
            MoneyView {
                minor: match amount_minor {
                    Some(minor) => minor as int,
                    None => current.minor,
                },
                currency: match currency {
                    Some(code) => code,
                    None => current.currency,
                },
            },
        )
    }
}

/// The amount that an update of `current` names (see `merged_amount_view`).
pub fn merged_amount(current: &Money, amount_minor: Option<i64>, currency: Option<Currency>) -> (r:
    Option<Money>)
    ensures
        r is Some <==> merged_amount_view(current@, amount_minor, currency) is Some,
        r matches Some(amount) ==> merged_amount_view(current@, amount_minor, currency) == Some(amount@),
{
    if amount_minor.is_none() && currency.is_none() {
        return None;
    }
    let minor = match amount_minor {
        Some(minor) => minor,
        None => current.minor_units(),
    };
    let code = match currency {
        Some(code) => code,
        None => current.currency(),
    };
    Some(Money::from_minor_units(minor, code))
}

} // verus!
