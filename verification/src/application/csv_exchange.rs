use vstd::prelude::*;
use crate::application::repository::{
    AccountRepository, TransactionRepository, accounts_view, created_from, insert_transactions,
    lists_accounts,
};
use crate::codes::{
    category_from_code_any_case, category_named, currency_from_code_any_case, currency_named,
    kind_from_code_any_case, kind_named,
};
use crate::decimal::{
    all_digits, decimal_text, digits_value, i64_text, parse_i64_text, parsed_i64, read_digits,
    signed_decimal_text, u64_text,
};
use crate::application::list_transactions::{TransactionFilter, list_account_transactions, lists_matching};
use crate::codes::{category_code, category_code_text, kind_code, kind_code_text};
use crate::domain::money::currency_code;
use crate::domain::transaction::TransactionView;
use crate::domain::account::{Account, AccountId, AccountView};
use crate::domain::money::{Money, MoneyView};
use crate::domain::time::{ZonedTime, ZonedTimeView, reading_of_text};
use crate::domain::transaction::{
    NewTransaction, NewTransactionView, Transaction, new_transaction_outcome, transaction_error_text,
    transactions_view,
};
use crate::text::{ascii_lowercase, ascii_uppercase, same_text, string_from_chars};
use crate::application::list_transactions::{ListTransactionsError, ListTransactionsErrorView};
use crate::application::repository::RepositoryError;
use crate::text::{push_char, text_chars};
use crate::keyed::{keyed_map, lemma_keyed_map_contains, lemma_keyed_map_index, unique_keys};

verus! {

/// What `parse_decimal_minor` accepts: digits, then optionally a dot and one or two
/// more digits.
pub open spec fn decimal_point_at(text: Seq<char>, k: int) -> bool {
    &&& 0 < k < text.len()
    &&& text[k] == '.'
    &&& all_digits(text.subrange(0, k))
    &&& 1 <= text.len() - k - 1 <= 2
    &&& all_digits(text.subrange(k + 1, text.len() as int))
}

/// The number of minor units (hundredths) that a positive decimal amount such as
/// `12.5` or `7` denotes, when it fits in `i64`.
pub open spec fn decimal_minor_value(text: Seq<char>) -> Option<i64> {
    let value = if text.len() > 0 && all_digits(text) {
        Some(digits_value(text) * 100)
    } else if exists|k: int| decimal_point_at(text, k) {
        let k = choose|k: int| decimal_point_at(text, k);
        let fraction = text.subrange(k + 1, text.len() as int);
        Some(
            digits_value(text.subrange(0, k)) * 100 + if fraction.len() == 1 {
                digits_value(fraction) * 10
            } else {
                digits_value(fraction)
            },
        )
    } else {
        None
    };
    match value {
        Some(minor) => if minor <= i64::MAX {
            Some(minor as i64)
        } else {
            None
        },
        None => None,
    }
}

proof fn lemma_digits_value_nonnegative(text: Seq<char>)
    requires
        all_digits(text),
    ensures
        digits_value(text) >= 0,
    decreases text.len(),
{
    if text.len() > 0 {
        assert(all_digits(text.drop_last()));
        lemma_digits_value_nonnegative(text.drop_last());
        assert(crate::decimal::is_digit(text[text.len() - 1]));
    }
}

proof fn lemma_short_digits_bound(text: Seq<char>)
    requires
        all_digits(text),
        text.len() <= 2,
    ensures
        0 <= digits_value(text) < 100,
        text.len() == 1 ==> digits_value(text) < 10,
{
    reveal_with_fuel(digits_value, 3);
    if text.len() == 2 {
        assert(text.drop_last().drop_last() =~= Seq::<char>::empty());
        assert(crate::decimal::is_digit(text[0]));
        assert(crate::decimal::is_digit(text[1]));
        assert(text.drop_last()[0] == text[0]);
    } else if text.len() == 1 {
        assert(text.drop_last() =~= Seq::<char>::empty());
        assert(crate::decimal::is_digit(text[0]));
    }
}

proof fn lemma_point_form(digits: Seq<char>, fraction: Seq<char>)
    requires
        digits.len() > 0,
        all_digits(digits),
        all_digits(fraction),
        1 <= fraction.len() <= 2,
    ensures
        ({
            let text = digits + seq!['.'] + fraction;
            let value = digits_value(digits) * 100 + if fraction.len() == 1 {
                digits_value(fraction) * 10
            } else {
                digits_value(fraction)
            };
            decimal_minor_value(text) == if value <= i64::MAX {
                Some(value as i64)
            } else {
                None::<i64>
            }
        }),
{
    let text = digits + seq!['.'] + fraction;
    let k = digits.len() as int;
    assert(text[k] == '.');
    assert(!all_digits(text)) by {
        assert(!crate::decimal::is_digit(text[k]));
    }
    assert(text.subrange(0, k) =~= digits);
    assert(text.subrange(k + 1, text.len() as int) =~= fraction);
    assert(decimal_point_at(text, k));
    let chosen = choose|j: int| decimal_point_at(text, j);
    assert(chosen == k) by {
        if chosen < k {
            assert(text.subrange(0, chosen + 0)[0] == text[0]);
            assert(text[chosen] == digits[chosen]);
            assert(crate::decimal::is_digit(digits[chosen]));
        } else if chosen > k {
            assert(text[chosen] == fraction[chosen - k - 1]);
            assert(crate::decimal::is_digit(fraction[chosen - k - 1]));
        }
    }
    lemma_digits_value_nonnegative(digits);
    lemma_short_digits_bound(fraction);
}

/// Amounts count hundredths: a run of digits reads as a hundred minor units per unit,
/// the same as those digits followed by `.00`; a single fractional digit counts tenths,
/// reading as that digit followed by `0`; and `.01` adds exactly one minor unit.
pub proof fn law_decimal_amounts_count_hundredths(digits: Seq<char>, tenth: char)
    requires
        digits.len() > 0,
        all_digits(digits),
        '0' <= tenth <= '9',
    ensures
        decimal_minor_value(digits) == decimal_minor_value(digits + seq!['.', '0', '0']),
        decimal_minor_value(digits + seq!['.', tenth]) == decimal_minor_value(digits + seq!['.', tenth, '0']),
        decimal_minor_value(digits) matches Some(minor) ==> minor == 100 * digits_value(digits),
        100 * digits_value(digits) <= i64::MAX ==> decimal_minor_value(digits) is Some,
        decimal_minor_value(digits + seq!['.', '0', '1']) matches Some(minor) ==> decimal_minor_value(digits)
            == Some((minor - 1) as i64),
{
    reveal_with_fuel(digits_value, 3);
    lemma_digits_value_nonnegative(digits);
    let zeros = seq!['0', '0'];
    let one = seq!['0', '1'];
    let single = seq![tenth];
    let padded = seq![tenth, '0'];
    assert(all_digits(zeros) && all_digits(one) && all_digits(single) && all_digits(padded)) by {
        assert(crate::decimal::is_digit(tenth));
    }
    assert(zeros.drop_last() =~= seq!['0']);
    assert(one.drop_last() =~= seq!['0']);
    assert(padded.drop_last() =~= seq![tenth]);
    assert(seq!['0'].drop_last() =~= Seq::<char>::empty());
    assert(single.drop_last() =~= Seq::<char>::empty());
    assert(digits_value(zeros) == 0);
    assert(digits_value(one) == 1);
    assert(digits_value(padded) == digits_value(single) * 10);
    lemma_point_form(digits, zeros);
    lemma_point_form(digits, one);
    lemma_point_form(digits, single);
    lemma_point_form(digits, padded);
    assert(digits + seq!['.'] + zeros =~= digits + seq!['.', '0', '0']);
    assert(digits + seq!['.'] + one =~= digits + seq!['.', '0', '1']);
    assert(digits + seq!['.'] + single =~= digits + seq!['.', tenth]);
    assert(digits + seq!['.'] + padded =~= digits + seq!['.', tenth, '0']);
}

/// Reads a positive decimal amount with at most two fractional digits, such as `12.50`,
/// as minor units, without rounding; `None` for anything else or a value beyond `i64`.
pub fn parse_decimal_minor(value: &str) -> (r: Option<i64>)
    ensures
        r == decimal_minor_value(value@),
{
    let chars = text_chars(value);
    let n = chars.len();
    let mut dot: usize = 0;
    while dot < n && chars[dot] != '.'
        invariant
            dot <= n == chars@.len(),
            chars@ == value@,
            forall|t: int| 0 <= t < dot ==> chars@[t] != '.',
        decreases n - dot,
    {
        dot = dot + 1;
    }
    if dot == n {
        match read_digits(&chars, 0, n) {
            None => {
                proof {
                    assert(chars@.subrange(0, n as int) =~= value@);
                    if exists|k: int| decimal_point_at(value@, k) {
                        let k = choose|k: int| decimal_point_at(value@, k);
                        assert(value@[k] == '.');
                    }
                    if value@.len() > 0 && all_digits(value@) {
                        assert(digits_value(value@) > u64::MAX);
                    }
                }
                None
            },
            Some(whole) => {
                proof {
                    assert(chars@.subrange(0, n as int) =~= value@);
                }
                if whole > 92233720368547758u64 {
                    None
                } else {
                    Some((whole * 100) as i64)
                }
            },
        }
    } else {
        let whole = read_digits(&chars, 0, dot);
        let fraction = read_digits(&chars, dot + 1, n);
        proof {
            assert forall|k: int| #[trigger] decimal_point_at(value@, k) implies k == dot by {
                if k < dot {
                    assert(chars@[k] != '.');
                } else if k > dot {
                    assert(value@.subrange(0, k)[dot as int] == value@[dot as int]);
                    assert(!crate::decimal::is_digit(value@[dot as int]));
                }
            }
            assert(!all_digits(value@)) by {
                assert(!crate::decimal::is_digit(value@[dot as int]));
            }
        }
        if n - dot - 1 < 1 || n - dot - 1 > 2 {
            return None;
        }
        match (whole, fraction) {
            (Some(whole), Some(fraction)) => {
                proof {
                    assert(decimal_point_at(value@, dot as int));
                    lemma_short_digits_bound(value@.subrange(dot + 1, n as int));
                    assert(chars@.subrange(dot + 1, n as int) =~= value@.subrange(dot + 1, n as int));
                }
                if whole > 92233720368547758u64 {
                    proof {
                        lemma_digits_value_nonnegative(value@.subrange(dot + 1, n as int));
                    }
                    return None;
                }
                let scaled: u64 = if n - dot - 1 == 1 {
                    fraction * 10
                } else {
                    fraction
                };
                let total: u64 = whole * 100 + scaled;
                if total > 9223372036854775807u64 {
                    None
                } else {
                    Some(total as i64)
                }
            },
            _ => {
                proof {
                    if exists|k: int| decimal_point_at(value@, k) {
                        assert(decimal_point_at(value@, dot as int));
                        let fraction_text = value@.subrange(dot + 1, n as int);
                        lemma_short_digits_bound(fraction_text);
                        assert(chars@.subrange(dot + 1, n as int) =~= fraction_text);
                        assert(chars@.subrange(0, dot as int) =~= value@.subrange(0, dot as int));
                        assert(digits_value(value@.subrange(0, dot as int)) > u64::MAX);
                    }
                }
                None
            },
        }
    }
}


/// Whether a field must be quoted: it holds a comma, a quote or a line break.
pub open spec fn needs_quotes(text: Seq<char>) -> bool {
    exists|i: int|
        0 <= i < text.len() && (#[trigger] text[i] == ',' || text[i] == '"' || text[i] == '\n'
            || text[i] == '\r')
}

/// A text with every quote doubled.
pub open spec fn doubled_quotes(text: Seq<char>) -> Seq<char>
    decreases text.len(),
{
    if text.len() == 0 {
        Seq::empty()
    } else if text.last() == '"' {
        doubled_quotes(text.drop_last()) + seq!['"', '"']
    } else {
        doubled_quotes(text.drop_last()).push(text.last())
    }
}

/// How a field is written in a CSV file.
pub open spec fn escaped_field(text: Seq<char>) -> Seq<char> {
    if needs_quotes(text) {
        seq!['"'] + doubled_quotes(text) + seq!['"']
    } else {
        text
    }
}

/// Writes a field for a CSV file, quoting it when it holds a comma, a quote or a line
/// break.
pub fn escape_field(value: &str) -> (r: Vec<char>)
    ensures
        r@ == escaped_field(value@),
{
    let chars = text_chars(value);
    let n = chars.len();
    let mut quote = false;
    let mut i: usize = 0;
    while i < n
        invariant
            i <= n == chars@.len(),
            chars@ == value@,
            quote == exists|k: int|
                0 <= k < i && (#[trigger] chars@[k] == ',' || chars@[k] == '"' || chars@[k] == '\n'
                    || chars@[k] == '\r'),
        decreases n - i,
    {
        let c = chars[i];
        if c == ',' || c == '"' || c == '\n' || c == '\r' {
            quote = true;
        }
        i = i + 1;
    }
    if !quote {
        return chars;
    }
    let mut out: Vec<char> = Vec::new();
    out.push('"');
    let mut j: usize = 0;
    while j < n
        invariant
            j <= n == chars@.len(),
            chars@ == value@,
            out@ == seq!['"'] + doubled_quotes(chars@.subrange(0, j as int)),
        decreases n - j,
    {
        let c = chars[j];
        proof {
            assert(chars@.subrange(0, j + 1).drop_last() =~= chars@.subrange(0, j as int));
        }
        out.push(c);
        if c == '"' {
            out.push('"');
        }
        j = j + 1;
        proof {
            assert(out@ =~= seq!['"'] + doubled_quotes(chars@.subrange(0, j as int)));
        }
    }
    out.push('"');
    proof {
        assert(chars@.subrange(0, n as int) =~= chars@);
    }
    out
}

/// The state of reading a CSV text: finished rows with the line each starts on, the row
/// and field being read, whether a quoted field is open, and the current line.
pub struct CsvScan {
    pub rows: Seq<(int, Seq<Seq<char>>)>,
    pub row: Seq<Seq<char>>,
    pub field: Seq<char>,
    pub in_quotes: bool,
    pub line: int,
    pub row_line: int,
}

/// Reading `input` from position `i` on, in state `state`: the state at the end, or the
/// line of a quote inside an unquoted field.
pub open spec fn csv_scan(input: Seq<char>, i: int, state: CsvScan) -> Result<CsvScan, int>
    decreases input.len() - i,
{
    if i < 0 || i >= input.len() {
        Ok(state)
    } else {
        let c = input[i];
        let next_is = |d: char| i + 1 < input.len() && input[i + 1] == d;
        if state.in_quotes {
            if c == '"' && next_is('"') {
                csv_scan(input, i + 2, CsvScan { field: state.field.push('"'), ..state })
            } else if c == '"' {
                csv_scan(input, i + 1, CsvScan { in_quotes: false, ..state })
            } else if c == '\n' {
                csv_scan(
                    input,
                    i + 1,
                    CsvScan { field: state.field.push('\n'), line: state.line + 1, ..state },
                )
            } else {
                csv_scan(input, i + 1, CsvScan { field: state.field.push(c), ..state })
            }
        } else {
            if c == '"' && state.field.len() == 0 {
                csv_scan(input, i + 1, CsvScan { in_quotes: true, ..state })
            } else if c == '"' {
                Err(state.line)
            } else if c == ',' {
                csv_scan(
                    input,
                    i + 1,
                    CsvScan { row: state.row.push(state.field), field: Seq::empty(), ..state },
                )
            } else if c == '\r' && next_is('\n') {
                csv_scan(input, i + 1, state)
            } else if c == '\n' {
                csv_scan(
                    input,
                    i + 1,
                    CsvScan {
                        rows: state.rows.push((state.row_line, state.row.push(state.field))),
                        row: Seq::empty(),
                        field: Seq::empty(),
                        line: state.line + 1,
                        row_line: state.line + 1,
                        ..state
                    },
                )
            } else {
                csv_scan(input, i + 1, CsvScan { field: state.field.push(c), ..state })
            }
        }
    }
}

/// The state before anything is read.
pub open spec fn csv_start() -> CsvScan {
    CsvScan {
        rows: Seq::empty(),
        row: Seq::empty(),
        field: Seq::empty(),
        in_quotes: false,
        line: 1,
        row_line: 1,
    }
}

/// Why transactions could not be imported or exported as CSV.
#[derive(Debug, PartialEq, Eq)]
pub enum CsvExchangeError {
    InvalidCsv { line: usize, message: String },
    InvalidHeader,
    InvalidRow { line: usize, message: String },
    List(ListTransactionsError),
    Repository(RepositoryError),
}

pub enum CsvExchangeErrorView {
    InvalidCsv { line: usize, message: Seq<char> },
    InvalidHeader,
    InvalidRow { line: usize, message: Seq<char> },
    List(ListTransactionsErrorView),
    Repository(RepositoryError),
}

impl View for CsvExchangeError {
    type V = CsvExchangeErrorView;

    open spec fn view(&self) -> CsvExchangeErrorView {
        match self {
            CsvExchangeError::InvalidCsv { line, message } => CsvExchangeErrorView::InvalidCsv {
                line: *line,
                message: message@,
            },
            CsvExchangeError::InvalidHeader => CsvExchangeErrorView::InvalidHeader,
            CsvExchangeError::InvalidRow { line, message } => CsvExchangeErrorView::InvalidRow {
                line: *line,
                message: message@,
            },
            CsvExchangeError::List(error) => CsvExchangeErrorView::List(error@),
            CsvExchangeError::Repository(error) => CsvExchangeErrorView::Repository(*error),
        }
    }
}

/// The rows of a CSV text, each with the line it starts on: fields are separated by
/// commas and rows by line feeds (a carriage return before a line feed is dropped); a
/// field that starts with a quote runs to the next lone quote and may hold commas, line
/// feeds and doubled quotes. A last row without a line feed still counts when it holds
/// anything.
pub open spec fn csv_rows(input: Seq<char>) -> Result<Seq<(int, Seq<Seq<char>>)>, CsvExchangeErrorView> {
    match csv_scan(input, 0, csv_start()) {
        Err(line) => Err(
            CsvExchangeErrorView::InvalidCsv {
                line: line as usize,
                message: "quote inside unquoted field"@,
            },
        ),
        Ok(end) => if end.in_quotes {
            Err(
                CsvExchangeErrorView::InvalidCsv {
                    line: end.line as usize,
                    message: "unterminated quoted field"@,
                },
            )
        } else if end.field.len() > 0 || end.row.len() > 0 {
            Ok(end.rows.push((end.row_line, end.row.push(end.field))))
        } else {
            Ok(end.rows)
        },
    }
}

/// The rows of an exec CSV reading, as sequences.
pub open spec fn rows_view(rows: Seq<(usize, Vec<String>)>) -> Seq<(int, Seq<Seq<char>>)> {
    rows.map_values(
        |row: (usize, Vec<String>)| (row.0 as int, row.1@.map_values(|field: String| field@)),
    )
}

pub open spec fn fields_view(fields: Seq<String>) -> Seq<Seq<char>> {
    fields.map_values(|field: String| field@)
}

fn take_field(field: &mut String) -> (r: String)
    ensures
        r@ == old(field)@,
        final(field)@ == Seq::<char>::empty(),
{
    let mut empty = String::new();
    std::mem::swap(field, &mut empty);
    empty
}

/// Reads the rows of a CSV text, each with the line it starts on.
pub fn parse_csv(input: &str) -> (r: Result<Vec<(usize, Vec<String>)>, CsvExchangeError>)
    requires
        input@.len() < usize::MAX,
    ensures
        match r {
            Ok(rows) => csv_rows(input@) == Ok::<Seq<(int, Seq<Seq<char>>)>, CsvExchangeErrorView>(
                rows_view(rows@),
            ),
            Err(error) => csv_rows(input@) == Err::<Seq<(int, Seq<Seq<char>>)>, CsvExchangeErrorView>(
                error@,
            ),
        },
{
    let chars = text_chars(input);
    let n = chars.len();
    let mut rows: Vec<(usize, Vec<String>)> = Vec::new();
    let mut row: Vec<String> = Vec::new();
    let mut field = String::new();
    let mut in_quotes = false;
    let mut line: usize = 1;
    let mut row_line: usize = 1;
    let mut i: usize = 0;
    let ghost goal = csv_scan(input@, 0, csv_start());
    proof {
        assert(rows_view(rows@) =~= Seq::<(int, Seq<Seq<char>>)>::empty());
        assert(fields_view(row@) =~= Seq::<Seq<char>>::empty());
    }
    while i < n
        invariant
            n == chars@.len() == input@.len(),
            n < usize::MAX,
            chars@ == input@,
            i <= n,
            1 <= row_line <= line <= i + 1,
            goal == csv_scan(input@, 0, csv_start()),
            csv_scan(
                input@,
                i as int,
                CsvScan {
                    rows: rows_view(rows@),
                    row: fields_view(row@),
                    field: field@,
                    in_quotes,
                    line: line as int,
                    row_line: row_line as int,
                },
            ) == goal,
        decreases n - i,
    {
        let c = chars[i];
        let next_quote = i + 1 < n && chars[i + 1] == '"';
        let next_line_feed = i + 1 < n && chars[i + 1] == '\n';
        if in_quotes {
            if c == '"' && next_quote {
                push_char(&mut field, '"');
                i = i + 2;
            } else if c == '"' {
                in_quotes = false;
                i = i + 1;
            } else if c == '\n' {
                push_char(&mut field, '\n');
                line = line + 1;
                i = i + 1;
            } else {
                push_char(&mut field, c);
                i = i + 1;
            }
        } else {
            if c == '"' && field.as_str().unicode_len() == 0 {
                in_quotes = true;
                i = i + 1;
            } else if c == '"' {
                return Err(
                    CsvExchangeError::InvalidCsv {
                        line,
                        message: String::from_str("quote inside unquoted field"),
                    },
                );
            } else if c == ',' {
                let ghost before = row@;
                let taken = take_field(&mut field);
                row.push(taken);
                proof {
                    assert(fields_view(row@) =~= fields_view(before).push(taken@));
                }
                i = i + 1;
            } else if c == '\r' && next_line_feed {
                i = i + 1;
            } else if c == '\n' {
                let ghost before_rows = rows@;
                let ghost before_row = row@;
                let ghost started = row_line;
                let taken = take_field(&mut field);
                row.push(taken);
                let mut finished: Vec<String> = Vec::new();
                std::mem::swap(&mut row, &mut finished);
                proof {
                    assert(fields_view(finished@) =~= fields_view(before_row).push(taken@));
                }
                rows.push((row_line, finished));
                line = line + 1;
                row_line = line;
                i = i + 1;
                proof {
                    assert(rows_view(rows@) =~= rows_view(before_rows).push(
                        (started as int, fields_view(finished@)),
                    ));
                    assert(fields_view(row@) =~= Seq::<Seq<char>>::empty());
                }
            } else {
                push_char(&mut field, c);
                i = i + 1;
            }
        }
    }
    if in_quotes {
        return Err(
            CsvExchangeError::InvalidCsv {
                line,
                message: String::from_str("unterminated quoted field"),
            },
        );
    }
    if field.as_str().unicode_len() > 0 || row.len() > 0 {
        let ghost before_rows = rows@;
        let ghost before_row = row@;
        let last_field = take_field(&mut field);
        row.push(last_field);
        proof {
            assert(fields_view(row@) =~= fields_view(before_row).push(last_field@));
        }
        rows.push((row_line, row));
        proof {
            assert(rows_view(rows@) =~= rows_view(before_rows).push(
                (row_line as int, fields_view(before_row).push(last_field@)),
            ));
        }
    }
    Ok(rows)
}


/// The header of files that this library writes, with identifiers and minor units.
pub open spec fn native_header() -> Seq<Seq<char>> {
    seq![
        "account_id"@,
        "kind"@,
        "amount_minor"@,
        "currency"@,
        "occurred_at"@,
        "description"@,
        "category"@,
    ]
}

/// The header of files written by hand, with account names and decimal amounts.
pub open spec fn user_header() -> Seq<Seq<char>> {
    seq![
        "account"@,
        "kind"@,
        "amount"@,
        "currency"@,
        "occurred_at"@,
        "description"@,
        "category"@,
    ]
}

fn header_is(fields: &Vec<String>, user: bool) -> (r: bool)
    ensures
        r == (fields_view(fields@) == if user {
            user_header()
        } else {
            native_header()
        }),
{
    let names: [&str; 7] = if user {
        ["account", "kind", "amount", "currency", "occurred_at", "description", "category"]
    } else {
        ["account_id", "kind", "amount_minor", "currency", "occurred_at", "description", "category"]
    };
    let ghost expected = if user {
        user_header()
    } else {
        native_header()
    };
    proof {
        assert(expected.len() == 7);
        assert forall|k: int| 0 <= k < 7 implies names@[k]@ == #[trigger] expected[k] by {}
    }
    if fields.len() != 7 {
        assert(fields_view(fields@).len() != expected.len());
        return false;
    }
    let mut k: usize = 0;
    while k < 7
        invariant
            fields@.len() == 7,
            expected.len() == 7,
            expected == if user {
                user_header()
            } else {
                native_header()
            },
            k <= 7,
            forall|t: int| 0 <= t < 7 ==> names@[t]@ == #[trigger] expected[t],
            forall|t: int| 0 <= t < k ==> #[trigger] fields_view(fields@)[t] == expected[t],
        decreases 7 - k,
    {
        if !same_text(fields[k].as_str(), names[k]) {
            proof {
                assert(fields_view(fields@)[k as int] != expected[k as int]);
                assert(fields_view(fields@) != expected);
                assert(expected == if user {
                    user_header()
                } else {
                    native_header()
                });
            }
            return false;
        }
        k = k + 1;
    }
    assert(fields_view(fields@) =~= expected);
    true
}

/// The one stored account with a name, or why there is none.
pub open spec fn named_account(stored: Map<AccountId, AccountView>, name: Seq<char>) -> Result<
    AccountView,
    Seq<char>,
> {
    if !exists|id: AccountId| #[trigger] stored.contains_key(id) && stored[id].name == name {
        Err("unknown account name"@)
    } else if exists|a: AccountId, b: AccountId|
        a != b && #[trigger] stored.contains_key(a) && #[trigger] stored.contains_key(b)
            && stored[a].name == name && stored[b].name == name {
        Err("ambiguous account name"@)
    } else {
        Ok(stored[choose|id: AccountId| #[trigger] stored.contains_key(id) && stored[id].name == name])
    }
}

/// The stored account whose identifier a field holds, or why there is none.
pub open spec fn numbered_account(stored: Map<AccountId, AccountView>, text: Seq<char>) -> Result<
    AccountView,
    Seq<char>,
> {
    match crate::decimal::parsed_u64(text) {
        None => Err("invalid account_id"@),
        Some(value) => if stored.contains_key(AccountId::from_value(value)) {
            Ok(stored[AccountId::from_value(value)])
        } else {
            Err("account not found"@)
        },
    }
}

/// What reading one data row gives: the new transaction, or the reason the row is
/// refused, checked field by field.
pub open spec fn row_outcome(
    line: usize,
    fields: Seq<Seq<char>>,
    user_format: bool,
    stored: Map<AccountId, AccountView>,
    reading: Result<ZonedTimeView, Seq<char>>,
) -> Result<NewTransactionView, CsvExchangeErrorView> {
    let invalid = |message: Seq<char>| CsvExchangeErrorView::InvalidRow { line, message };
    if fields.len() != 7 {
        Err(invalid("expected 7 columns, found "@ + decimal_text(fields.len())))
    } else {
        let account = if user_format {
            named_account(stored, fields[0])
        } else {
            numbered_account(stored, fields[0])
        };
        match account {
            Err(message) => Err(invalid(message)),
            Ok(account) => match kind_named(ascii_lowercase(fields[1])) {
                None => Err(invalid("invalid kind"@)),
                Some(kind) => match (if user_format {
                    decimal_minor_value(fields[2])
                } else {
                    parsed_i64(fields[2])
                }) {
                    None => Err(
                        invalid(
                            if user_format {
                                "invalid amount: expected a positive decimal with at most two fractional digits"@
                            } else {
                                "invalid amount_minor"@
                            },
                        ),
                    ),
                    Some(amount) => match currency_named(ascii_uppercase(fields[3])) {
                        None => Err(invalid("invalid currency"@)),
                        Some(currency) => if currency != account.currency {
                            Err(invalid("currency does not match account"@))
                        } else {
                            match reading {
                                Err(_) => Err(invalid("invalid occurred_at"@)),
                                Ok(occurred_at) => match category_named(ascii_lowercase(fields[6])) {
                                    None => Err(invalid("invalid category"@)),
                                    Some(category) => match new_transaction_outcome(
                                        account.id,
                                        kind,
                                        MoneyView { minor: amount as int, currency },
                                        occurred_at,
                                        fields[5],
                                        category,
                                    ) {
                                        Err(error) => Err(
                                            invalid(
                                                "invalid transaction: "@ + transaction_error_text(error),
                                            ),
                                        ),
                                        Ok(transaction) => Ok(transaction),
                                    },
                                },
                            }
                        },
                    },
                },
            },
        }
    }
}

/// What reading the data rows in order gives; row `k` was read with timestamp reading
/// `readings[k]`.
pub open spec fn rows_outcome(
    rows: Seq<(int, Seq<Seq<char>>)>,
    user_format: bool,
    stored: Map<AccountId, AccountView>,
    readings: Seq<Result<ZonedTimeView, Seq<char>>>,
) -> Result<Seq<NewTransactionView>, CsvExchangeErrorView>
    decreases rows.len(),
{
    if rows.len() == 0 {
        Ok(Seq::empty())
    } else {
        match rows_outcome(rows.drop_last(), user_format, stored, readings) {
            Err(error) => Err(error),
            Ok(parsed) => match row_outcome(
                rows.last().0 as usize,
                rows.last().1,
                user_format,
                stored,
                readings[rows.len() - 1],
            ) {
                Err(error) => Err(error),
                Ok(transaction) => Ok(parsed.push(transaction)),
            },
        }
    }
}

/// The format that the first row picks: `true` for account names and decimal amounts,
/// `false` for identifiers and minor units; a missing or unknown header is refused.
pub open spec fn header_format(rows: Seq<(int, Seq<Seq<char>>)>) -> Result<bool, CsvExchangeErrorView> {
    if rows.len() == 0 {
        Err(CsvExchangeErrorView::InvalidHeader)
    } else if rows[0].1 == user_header() {
        Ok(true)
    } else if rows[0].1 == native_header() {
        Ok(false)
    } else {
        Err(CsvExchangeErrorView::InvalidHeader)
    }
}

/// The format of a CSV text, or why it is refused before any account is looked up: the
/// text must read as CSV and its first row must be one of the two headers.
pub open spec fn import_header(input: Seq<char>) -> Result<bool, CsvExchangeErrorView> {
    match csv_rows(input) {
        Err(error) => Err(error),
        Ok(rows) => header_format(rows),
    }
}

/// What importing read CSV rows asks to store, or why they are refused: the first row
/// must be one of the two headers, and every data row must hold a valid transaction;
/// data row `k` was read with timestamp reading `readings[k]`.
pub open spec fn rows_plan(
    rows: Seq<(int, Seq<Seq<char>>)>,
    stored: Map<AccountId, AccountView>,
    readings: Seq<Result<ZonedTimeView, Seq<char>>>,
) -> Result<Seq<NewTransactionView>, CsvExchangeErrorView> {
    match header_format(rows) {
        Err(error) => Err(error),
        Ok(user_format) => rows_outcome(rows.drop_first(), user_format, stored, readings),
    }
}

/// What importing a CSV text asks the repository to store, or why it is refused.
pub open spec fn import_plan(
    input: Seq<char>,
    stored: Map<AccountId, AccountView>,
    readings: Seq<Result<ZonedTimeView, Seq<char>>>,
) -> Result<Seq<NewTransactionView>, CsvExchangeErrorView> {
    match csv_rows(input) {
        Err(error) => Err(error),
        Ok(rows) => rows_plan(rows, stored, readings),
    }
}

/// Whether a timestamp reading can be what parsing the `occurred_at` field of a row gave:
/// a row without that field reads as an error, and otherwise the reading is one of that
/// field's text (see `reading_of_text`).
pub open spec fn reading_fits(fields: Seq<Seq<char>>, reading: Result<ZonedTimeView, Seq<char>>) -> bool {
    if fields.len() < 5 {
        reading is Err
    } else {
        reading_of_text(fields[4], reading)
    }
}

/// Whether the timestamp readings are one per data row, each fitting its row.
pub open spec fn readings_fit(
    rows: Seq<(int, Seq<Seq<char>>)>,
    readings: Seq<Result<ZonedTimeView, Seq<char>>>,
) -> bool {
    &&& readings.len() == if rows.len() == 0 {
        0
    } else {
        rows.len() - 1
    }
    &&& forall|k: int| 0 <= k < readings.len() ==> reading_fits(rows[k + 1].1, #[trigger] readings[k])
}

/// Whether the timestamp readings fit the rows of a CSV text.
pub open spec fn input_readings_fit(input: Seq<char>, readings: Seq<Result<ZonedTimeView, Seq<char>>>) -> bool {
    match csv_rows(input) {
        Ok(rows) => readings_fit(rows, readings),
        Err(_) => readings.len() == 0,
    }
}

/// The identifier of an account.
pub open spec fn account_id_key() -> spec_fn(AccountView) -> AccountId {
    |account: AccountView| account.id
}

/// Listed accounts, by identifier.
pub open spec fn accounts_by_id(values: Seq<AccountView>) -> Map<AccountId, AccountView> {
    keyed_map(values, account_id_key())
}

proof fn lemma_listing_by_id(values: Seq<AccountView>, stored: Map<AccountId, AccountView>)
    requires
        lists_accounts(values, stored),
    ensures
        unique_keys(values, account_id_key()),
        accounts_by_id(values) == stored,
{
    assert forall|i: int, j: int|
        0 <= i < values.len() && 0 <= j < values.len() && i != j implies (account_id_key())(
        #[trigger] values[i],
    ) != (account_id_key())(#[trigger] values[j]) by {}
    assert forall|id: AccountId| accounts_by_id(values).contains_key(id) == stored.contains_key(id) by {
        lemma_keyed_map_contains(values, account_id_key(), id);
        if stored.contains_key(id) {
            let i = choose|i: int| 0 <= i < values.len() && (#[trigger] values[i]).id == id;
            assert((account_id_key())(values[i]) == id);
        }
    }
    assert forall|id: AccountId| #[trigger] accounts_by_id(values).contains_key(id) implies accounts_by_id(
        values,
    )[id] == stored[id] by {
        lemma_keyed_map_contains(values, account_id_key(), id);
        let i = choose|i: int| 0 <= i < values.len() && (account_id_key())(#[trigger] values[i]) == id;
        lemma_keyed_map_index(values, account_id_key(), i);
    }
    assert(accounts_by_id(values) =~= stored);
}

proof fn lemma_by_id_lists(values: Seq<AccountView>)
    requires
        unique_keys(values, account_id_key()),
    ensures
        lists_accounts(values, accounts_by_id(values)),
{
    assert forall|i: int| 0 <= i < values.len() implies accounts_by_id(values).contains_key(
        (#[trigger] values[i]).id,
    ) && accounts_by_id(values)[values[i].id] == values[i] by {
        lemma_keyed_map_index(values, account_id_key(), i);
    }
    assert forall|id: AccountId| #[trigger] accounts_by_id(values).contains_key(id) implies exists|i: int|
        0 <= i < values.len() && (#[trigger] values[i]).id == id by {
        lemma_keyed_map_contains(values, account_id_key(), id);
        let i = choose|i: int| 0 <= i < values.len() && (account_id_key())(#[trigger] values[i]) == id;
    }
    assert forall|i: int, j: int|
        0 <= i < values.len() && 0 <= j < values.len() && i != j implies (#[trigger] values[i]).id != (
        #[trigger] values[j]).id by {
        assert((account_id_key())(values[i]) != (account_id_key())(values[j]));
    }
}

proof fn lemma_rows_error_persists(
    rows: Seq<(int, Seq<Seq<char>>)>,
    user_format: bool,
    stored: Map<AccountId, AccountView>,
    readings: Seq<Result<ZonedTimeView, Seq<char>>>,
    i: int,
    error: CsvExchangeErrorView,
)
    requires
        0 <= i <= rows.len(),
        rows_outcome(rows.subrange(0, i), user_format, stored, readings) == Err::<
            Seq<NewTransactionView>,
            CsvExchangeErrorView,
        >(error),
    ensures
        rows_outcome(rows, user_format, stored, readings) == Err::<
            Seq<NewTransactionView>,
            CsvExchangeErrorView,
        >(error),
    decreases rows.len() - i,
{
    if i < rows.len() {
        assert(rows.subrange(0, i + 1).drop_last() =~= rows.subrange(0, i));
        lemma_rows_error_persists(rows, user_format, stored, readings, i + 1, error);
    } else {
        assert(rows.subrange(0, i) =~= rows);
    }
}


fn find_named_account(named: &Vec<Account>, name: &str, stored: Ghost<Map<AccountId, AccountView>>) -> (r: Result<
    Account,
    &'static str,
>)
    requires
        lists_accounts(accounts_view(named@), stored@),
    ensures
        match r {
            Ok(account) => named_account(stored@, name@) == Ok::<AccountView, Seq<char>>(account@),
            Err(message) => named_account(stored@, name@) == Err::<AccountView, Seq<char>>(message@),
        },
{
    let ghost listed = accounts_view(named@);
    let mut found: Option<usize> = None;
    let mut i: usize = 0;
    while i < named.len()
        invariant
            i <= named@.len(),
            listed == accounts_view(named@),
            lists_accounts(listed, stored@),
            match found {
                Some(p) => p < i && listed[p as int].name == name@ && forall|t: int|
                    0 <= t < i && t != p ==> (#[trigger] listed[t]).name != name@,
                None => forall|t: int| 0 <= t < i ==> (#[trigger] listed[t]).name != name@,
            },
        decreases named@.len() - i,
    {
        if same_text(named[i].name(), name) {
            match found {
                Some(p) => {
                    proof {
                        reveal_strlit("ambiguous account name");
                        let a = listed[p as int].id;
                        let b = listed[i as int].id;
                        assert(a != b);
                        assert(stored@.contains_key(a) && stored@.contains_key(b));
                    }
                    return Err("ambiguous account name");
                },
                None => {
                    found = Some(i);
                },
            }
        }
        i = i + 1;
    }
    match found {
        None => {
            proof {
                reveal_strlit("unknown account name");
                assert forall|id: AccountId| #[trigger] stored@.contains_key(id) implies stored@[id].name
                    != name@ by {
                    let t = choose|t: int| 0 <= t < listed.len() && (#[trigger] listed[t]).id == id;
                }
            }
            Err("unknown account name")
        },
        Some(p) => {
            proof {
                let id = listed[p as int].id;
                assert(stored@.contains_key(id) && stored@[id].name == name@);
                assert forall|a: AccountId, b: AccountId|
                    #[trigger] stored@.contains_key(a) && #[trigger] stored@.contains_key(b)
                        && stored@[a].name == name@ && stored@[b].name == name@ implies a == b by {
                    let ta = choose|t: int| 0 <= t < listed.len() && (#[trigger] listed[t]).id == a;
                    let tb = choose|t: int| 0 <= t < listed.len() && (#[trigger] listed[t]).id == b;
                }
                let chosen = choose|id: AccountId| #[trigger] stored@.contains_key(id) && stored@[id].name == name@;
                assert(chosen == id);
            }
            Ok(named[p].duplicate())
        },
    }
}

fn invalid_row(line: usize, message: &str) -> (r: CsvExchangeError)
    ensures
        r@ == (CsvExchangeErrorView::InvalidRow { line, message: message@ }),
{
    CsvExchangeError::InvalidRow { line, message: String::from_str(message) }
}

fn find_numbered_account(all: &Vec<Account>, id: AccountId) -> (r: Option<Account>)
    requires
        unique_keys(accounts_view(all@), account_id_key()),
    ensures
        match r {
            Some(account) => accounts_by_id(accounts_view(all@)).contains_key(id) && accounts_by_id(
                accounts_view(all@),
            )[id] == account@,
            None => !accounts_by_id(accounts_view(all@)).contains_key(id),
        },
{
    let ghost values = accounts_view(all@);
    let mut i: usize = 0;
    while i < all.len()
        invariant
            i <= all@.len(),
            values == accounts_view(all@),
            unique_keys(values, account_id_key()),
            forall|t: int| 0 <= t < i ==> (account_id_key())(#[trigger] values[t]) != id,
        decreases all@.len() - i,
    {
        if all[i].id() == id {
            proof {
                assert(values[i as int] == all@[i as int]@);
                lemma_keyed_map_index(values, account_id_key(), i as int);
            }
            return Some(all[i].duplicate());
        }
        proof {
            assert(values[i as int] == all@[i as int]@);
        }
        i = i + 1;
    }
    proof {
        lemma_keyed_map_contains(values, account_id_key(), id);
    }
    None
}

fn read_row(
    all: &Vec<Account>,
    line: usize,
    fields: &Vec<String>,
    user_format: bool,
    reading: &Result<ZonedTime, String>,
) -> (r: Result<NewTransaction, CsvExchangeError>)
    requires
        unique_keys(accounts_view(all@), account_id_key()),
    ensures
        ({
            let reading_view = match *reading {
                Ok(time) => Ok(time@),
                Err(message) => Err(message@),
            };
            let expected = row_outcome(
                line,
                fields_view(fields@),
                user_format,
                accounts_by_id(accounts_view(all@)),
                reading_view,
            );
            match r {
                Ok(transaction) => expected == Ok::<NewTransactionView, CsvExchangeErrorView>(
                    transaction@,
                ),
                Err(error) => expected == Err::<NewTransactionView, CsvExchangeErrorView>(error@),
            }
        }),
{
    let ghost view = fields_view(fields@);
    let ghost stored = accounts_by_id(accounts_view(all@));
    proof {
        lemma_by_id_lists(accounts_view(all@));
    }
    if fields.len() != 7 {
        let mut message = text_chars("expected 7 columns, found ");
        let mut count = u64_text(fields.len() as u64);
        message.append(&mut count);
        return Err(CsvExchangeError::InvalidRow { line, message: string_from_chars(&message) });
    }
    proof {
        assert(view[0] == fields@[0]@);
        assert(view[1] == fields@[1]@);
        assert(view[2] == fields@[2]@);
        assert(view[3] == fields@[3]@);
        assert(view[4] == fields@[4]@);
        assert(view[5] == fields@[5]@);
        assert(view[6] == fields@[6]@);
    }
    let account = if user_format {
        match find_named_account(all, fields[0].as_str(), Ghost(stored)) {
            Ok(account) => account,
            Err(message) => return Err(invalid_row(line, message)),
        }
    } else {
        proof {
            reveal_strlit("invalid account_id");
            reveal_strlit("account not found");
        }
        match crate::decimal::parse_u64_text(fields[0].as_str()) {
            None => return Err(invalid_row(line, "invalid account_id")),
            Some(value) => match find_numbered_account(all, AccountId::new(value)) {
                Some(account) => account,
                None => return Err(invalid_row(line, "account not found")),
            },
        }
    };
    proof {
        reveal_strlit("invalid kind");
        reveal_strlit("invalid amount: expected a positive decimal with at most two fractional digits");
        reveal_strlit("invalid amount_minor");
        reveal_strlit("invalid currency");
        reveal_strlit("currency does not match account");
        reveal_strlit("invalid occurred_at");
        reveal_strlit("invalid category");
    }
    let kind = match kind_from_code_any_case(fields[1].as_str()) {
        Some(kind) => kind,
        None => return Err(invalid_row(line, "invalid kind")),
    };
    let amount = if user_format {
        match parse_decimal_minor(fields[2].as_str()) {
            Some(amount) => amount,
            None => return Err(
                invalid_row(
                    line,
                    "invalid amount: expected a positive decimal with at most two fractional digits",
                ),
            ),
        }
    } else {
        match parse_i64_text(fields[2].as_str()) {
            Some(amount) => amount,
            None => return Err(invalid_row(line, "invalid amount_minor")),
        }
    };
    let currency = match currency_from_code_any_case(fields[3].as_str()) {
        Some(currency) => currency,
        None => return Err(invalid_row(line, "invalid currency")),
    };
    if currency != account.currency() {
        return Err(invalid_row(line, "currency does not match account"));
    }
    let occurred_at = match reading {
        Ok(time) => time.duplicate(),
        Err(_) => return Err(invalid_row(line, "invalid occurred_at")),
    };
    let category = match category_from_code_any_case(fields[6].as_str()) {
        Some(category) => category,
        None => return Err(invalid_row(line, "invalid category")),
    };
    match NewTransaction::new(
        account.id(),
        kind,
        Money::from_minor_units(amount, currency),
        occurred_at,
        fields[5].clone(),
        category,
    ) {
        Ok(transaction) => Ok(transaction),
        Err(error) => {
            let mut message = text_chars("invalid transaction: ");
            let mut detail = text_chars(error.debug_text());
            message.append(&mut detail);
            Err(CsvExchangeError::InvalidRow { line, message: string_from_chars(&message) })
        },
    }
}


pub open spec fn readings_view(values: Seq<Result<ZonedTime, String>>) -> Seq<Result<ZonedTimeView, Seq<char>>> {
    values.map_values(
        |value: Result<ZonedTime, String>|
            match value {
                Ok(time) => Ok(time@),
                Err(message) => Err(message@),
            },
    )
}

/// Reads the data rows of a CSV text that was read into rows, against the stored
/// accounts: the first row picks the format, and every data row must hold a valid
/// transaction; data row `k` is read with timestamp reading `readings[k]`.
pub fn plan_import(
    rows: &Vec<(usize, Vec<String>)>,
    accounts: &Vec<Account>,
    readings: &Vec<Result<ZonedTime, String>>,
) -> (r: Result<Vec<NewTransaction>, CsvExchangeError>)
    requires
        unique_keys(accounts_view(accounts@), account_id_key()),
        rows@.len() <= readings@.len() + 1,
    ensures
        ({
            let expected = rows_plan(
                rows_view(rows@),
                accounts_by_id(accounts_view(accounts@)),
                readings_view(readings@),
            );
            match r {
                Ok(plan) => expected == Ok::<Seq<NewTransactionView>, CsvExchangeErrorView>(
                    plan@.map_values(|value: NewTransaction| value@),
                ),
                Err(error) => expected == Err::<Seq<NewTransactionView>, CsvExchangeErrorView>(error@),
            }
        }),
{
    let ghost all = rows_view(rows@);
    let ghost stored = accounts_by_id(accounts_view(accounts@));
    let ghost reading_views = readings_view(readings@);
    if rows.len() == 0 {
        return Err(CsvExchangeError::InvalidHeader);
    }
    let header = &rows[0].1;
    proof {
        assert(all[0].1 == fields_view(header@));
    }
    let user_format = header_is(header, true);
    let native_format = header_is(header, false);
    if !user_format && !native_format {
        return Err(CsvExchangeError::InvalidHeader);
    }
    let ghost data = all.drop_first();
    let mut parsed: Vec<NewTransaction> = Vec::new();
    let mut j: usize = 1;
    proof {
        assert(data.subrange(0, 0) =~= Seq::<(int, Seq<Seq<char>>)>::empty());
        assert(parsed@.map_values(|value: NewTransaction| value@) =~= Seq::<NewTransactionView>::empty());
    }
    while j < rows.len()
        invariant
            1 <= j <= rows@.len(),
            rows@.len() <= readings@.len() + 1,
            all == rows_view(rows@),
            data == all.drop_first(),
            reading_views == readings_view(readings@),
            stored == accounts_by_id(accounts_view(accounts@)),
            unique_keys(accounts_view(accounts@), account_id_key()),
            header_format(all) == Ok::<bool, CsvExchangeErrorView>(user_format),
            rows_outcome(data.subrange(0, j - 1), user_format, stored, reading_views) == Ok::<
                Seq<NewTransactionView>,
                CsvExchangeErrorView,
            >(parsed@.map_values(|value: NewTransaction| value@)),
        decreases rows@.len() - j,
    {
        let line = rows[j].0;
        let fields = &rows[j].1;
        let ghost before = parsed@.map_values(|value: NewTransaction| value@);
        proof {
            let prefix = data.subrange(0, j as int);
            assert(prefix.drop_last() =~= data.subrange(0, j - 1));
            assert(prefix.last() == all[j as int]);
            assert(all[j as int] == (line as int, fields_view(fields@)));
            assert(reading_views[j - 1] == match readings@[j - 1] {
                Ok(time) => Ok(time@),
                Err(message) => Err::<ZonedTimeView, Seq<char>>(message@),
            });
        }
        match read_row(accounts, line, fields, user_format, &readings[j - 1]) {
            Ok(transaction) => {
                parsed.push(transaction);
                proof {
                    assert(parsed@.map_values(|value: NewTransaction| value@) =~= before.push(
                        transaction@,
                    ));
                }
            },
            Err(error) => {
                proof {
                    lemma_rows_error_persists(data, user_format, stored, reading_views, j as int, error@);
                }
                return Err(error);
            },
        }
        j = j + 1;
    }
    proof {
        assert(data.subrange(0, j - 1) =~= data);
    }
    Ok(parsed)
}

/// Imports the transactions of a CSV text, all or none: the text is read as CSV and its
/// header picks the format (identifiers and minor units, or account names and decimal
/// amounts) before the repositories are asked anything; then every data row is checked
/// against the stored accounts, and only then are the transactions stored together.
/// Whether a timestamp is accepted depends on the time-zone database, so the outcome is
/// stated for some reading of the timestamps that fits their texts.
pub fn import_transactions_csv<A: AccountRepository, T: TransactionRepository>(
    accounts: &A,
    transactions: &mut T,
    input: &str,
) -> (r: Result<Vec<Transaction>, CsvExchangeError>)
    requires
        input@.len() < usize::MAX,
    ensures
        match r {
            Ok(created) => exists|readings: Seq<Result<ZonedTimeView, Seq<char>>>|
                #[trigger] import_plan(input@, accounts.accounts(), readings) matches Ok(plan)
                    && input_readings_fit(input@, readings)
                    && created_from(transactions_view(created@), plan, old(transactions).transactions())
                    && final(transactions).transactions() == insert_transactions(
                    old(transactions).transactions(),
                    transactions_view(created@),
                ),
            Err(CsvExchangeError::Repository(_)) => final(transactions).transactions() == old(
                transactions,
            ).transactions() && import_header(input@) is Ok,
            Err(error) => final(transactions).transactions() == old(transactions).transactions()
                && exists|readings: Seq<Result<ZonedTimeView, Seq<char>>>|
                #[trigger] import_plan(input@, accounts.accounts(), readings) == Err::<
                    Seq<NewTransactionView>,
                    CsvExchangeErrorView,
                >(error@) && input_readings_fit(input@, readings),
        },
{
    let ghost stored = accounts.accounts();
    let rows = match parse_csv(input) {
        Ok(rows) => rows,
        Err(error) => {
            proof {
                let readings = Seq::<Result<ZonedTimeView, Seq<char>>>::empty();
                assert(input_readings_fit(input@, readings));
                assert(import_plan(input@, stored, readings) == Err::<
                    Seq<NewTransactionView>,
                    CsvExchangeErrorView,
                >(error@));
            }
            return Err(error);
        },
    };
    let ghost all = rows_view(rows@);
    if rows.len() == 0 {
        proof {
            let readings = Seq::<Result<ZonedTimeView, Seq<char>>>::empty();
            assert(input_readings_fit(input@, readings));
            assert(import_plan(input@, stored, readings) == Err::<
                Seq<NewTransactionView>,
                CsvExchangeErrorView,
            >(CsvExchangeErrorView::InvalidHeader));
        }
        return Err(CsvExchangeError::InvalidHeader);
    }
    let header = &rows[0].1;
    proof {
        assert(all[0].1 == fields_view(header@));
    }
    let user_format = header_is(header, true);
    let native_format = header_is(header, false);
    if !user_format && !native_format {
        proof {
            let readings = Seq::new(
                (all.len() - 1) as nat,
                |k: int| Err::<ZonedTimeView, Seq<char>>(Seq::empty()),
            );
            assert(input_readings_fit(input@, readings));
            assert(import_plan(input@, stored, readings) == Err::<
                Seq<NewTransactionView>,
                CsvExchangeErrorView,
            >(CsvExchangeErrorView::InvalidHeader));
        }
        return Err(CsvExchangeError::InvalidHeader);
    }
    let named = match accounts.find_all() {
        Ok(found) => found,
        Err(error) => return Err(CsvExchangeError::Repository(error)),
    };
    proof {
        lemma_listing_by_id(accounts_view(named@), stored);
    }
    let mut readings: Vec<Result<ZonedTime, String>> = Vec::new();
    let mut k: usize = 1;
    while k < rows.len()
        invariant
            1 <= k <= rows@.len(),
            all == rows_view(rows@),
            readings@.len() == k - 1,
            forall|t: int| 0 <= t < k - 1 ==> reading_fits(all[t + 1].1, #[trigger] readings_view(readings@)[t]),
        decreases rows@.len() - k,
    {
        let fields = &rows[k].1;
        let ghost old_readings = readings@;
        proof {
            assert(all[k as int].1 == fields_view(fields@));
        }
        let reading = if fields.len() >= 5 {
            proof {
                assert(fields_view(fields@)[4] == fields@[4]@);
            }
            ZonedTime::parse(fields[4].as_str())
        } else {
            Err(String::new())
        };
        let ghost reading_view = readings_view(seq![reading])[0];
        proof {
            assert(reading_fits(all[k as int].1, reading_view));
        }
        readings.push(reading);
        proof {
            assert forall|t: int| 0 <= t < k implies reading_fits(all[t + 1].1, #[trigger] readings_view(readings@)[t]) by {
                if t < k - 1 {
                    assert(readings@[t] == old_readings[t]);
                    assert(readings_view(readings@)[t] == readings_view(old_readings)[t]);
                } else {
                    assert(readings@[t] == reading);
                    assert(readings_view(readings@)[t] == reading_view);
                }
            }
        }
        k = k + 1;
    }
    let ghost reading_views = readings_view(readings@);
    proof {
        assert(readings_fit(all, reading_views));
        assert(input_readings_fit(input@, reading_views));
    }
    let plan = match plan_import(&rows, &named, &readings) {
        Ok(plan) => plan,
        Err(error) => {
            proof {
                assert(import_plan(input@, stored, reading_views) == Err::<
                    Seq<NewTransactionView>,
                    CsvExchangeErrorView,
                >(error@));
            }
            return Err(error);
        },
    };
    let ghost planned = plan@.map_values(|value: NewTransaction| value@);
    match transactions.create_many(plan) {
        Ok(created) => {
            proof {
                assert(import_plan(input@, stored, reading_views) == Ok::<
                    Seq<NewTransactionView>,
                    CsvExchangeErrorView,
                >(planned));
            }
            Ok(created)
        },
        Err(error) => Err(CsvExchangeError::Repository(error)),
    }
}


/// Fields separated by commas.
pub open spec fn joined(fields: Seq<Seq<char>>) -> Seq<char>
    decreases fields.len(),
{
    if fields.len() == 0 {
        Seq::empty()
    } else if fields.len() == 1 {
        fields[0]
    } else {
        joined(fields.drop_last()) + seq![','] + fields.last()
    }
}

/// The fields of a transaction in an exported file, before escaping.
pub open spec fn export_fields(transaction: TransactionView) -> Seq<Seq<char>> {
    seq![
        decimal_text(transaction.account_id@ as nat),
        kind_code(transaction.kind),
        signed_decimal_text(transaction.amount.minor),
        currency_code(transaction.amount.currency),
        transaction.occurred_at.text,
        transaction.description,
        category_code(transaction.category),
    ]
}

/// The line of an exported file for a transaction.
pub open spec fn export_line(transaction: TransactionView) -> Seq<char> {
    joined(export_fields(transaction).map_values(|field: Seq<char>| escaped_field(field))) + seq!['\n']
}

/// The lines of an exported file for a list of transactions, in order.
pub open spec fn export_lines(transactions: Seq<TransactionView>) -> Seq<char>
    decreases transactions.len(),
{
    if transactions.len() == 0 {
        Seq::empty()
    } else {
        export_lines(transactions.drop_last()) + export_line(transactions.last())
    }
}

/// A whole exported file: the native header and one line per transaction.
pub open spec fn export_text(transactions: Seq<TransactionView>) -> Seq<char> {
    joined(native_header()) + seq!['\n'] + export_lines(transactions)
}

fn push_text(out: &mut Vec<char>, text: &str)
    ensures
        final(out)@ == old(out)@ + text@,
{
    let mut chars = text_chars(text);
    out.append(&mut chars);
}

fn push_fields(out: &mut Vec<char>, fields: &Vec<Vec<char>>)
    requires
        fields@.len() > 0,
    ensures
        final(out)@ == old(out)@ + joined(fields@.map_values(|field: Vec<char>| field@)),
{
    let ghost views = fields@.map_values(|field: Vec<char>| field@);
    let mut chars = fields[0].clone();
    out.append(&mut chars);
    let mut k: usize = 1;
    proof {
        assert(views.subrange(0, 1) =~= seq![views[0]]);
    }
    while k < fields.len()
        invariant
            1 <= k <= fields@.len(),
            views == fields@.map_values(|field: Vec<char>| field@),
            out@ == old(out)@ + joined(views.subrange(0, k as int)),
        decreases fields@.len() - k,
    {
        out.push(',');
        let mut chars = fields[k].clone();
        out.append(&mut chars);
        k = k + 1;
        proof {
            let prefix = views.subrange(0, k as int);
            assert(prefix.drop_last() =~= views.subrange(0, k - 1));
            assert(prefix.last() == views[k - 1]);
            assert(out@ =~= old(out)@ + joined(prefix));
        }
    }
    proof {
        assert(views.subrange(0, k as int) =~= views);
    }
}

fn export_record(out: &mut Vec<char>, transaction: &Transaction)
    ensures
        final(out)@ == old(out)@ + export_line(transaction@),
{
    let mut fields: Vec<Vec<char>> = Vec::new();
    let account_text = string_from_chars(&u64_text(transaction.account_id().value()));
    fields.push(escape_field(account_text.as_str()));
    fields.push(escape_field(kind_code_text(transaction.kind())));
    let amount_text = string_from_chars(&i64_text(transaction.amount().minor_units()));
    fields.push(escape_field(amount_text.as_str()));
    fields.push(escape_field(transaction.amount().currency().code()));
    fields.push(escape_field(transaction.occurred_at().as_str()));
    fields.push(escape_field(transaction.description()));
    fields.push(escape_field(category_code_text(transaction.category())));
    proof {
        let expected = export_fields(transaction@).map_values(|field: Seq<char>| escaped_field(field));
        assert(fields@.map_values(|field: Vec<char>| field@) =~= expected);
    }
    push_fields(out, &fields);
    out.push('\n');
}

/// Writes the filtered transactions of an account as CSV, newest first, under the
/// native header; each field is quoted when it needs to be.
pub fn export_transactions_csv<A: AccountRepository, T: TransactionRepository>(
    accounts: &A,
    transactions: &T,
    account_id: AccountId,
    filter: TransactionFilter,
) -> (r: Result<String, CsvExchangeError>)
    ensures
        match r {
            Ok(text) => exists|listing: Seq<TransactionView>|
                lists_matching(listing, transactions.transactions(), account_id, filter@) && #[trigger] export_text(listing) == text@,
            Err(CsvExchangeError::List(error)) => true,
            Err(_) => false,
        },
{
    let ghost filter_view = filter@;
    let listed = match list_account_transactions(accounts, transactions, account_id, filter) {
        Ok(listed) => listed,
        Err(error) => return Err(CsvExchangeError::List(error)),
    };
    let mut out: Vec<char> = Vec::new();
    let mut header: Vec<Vec<char>> = Vec::new();
    header.push(text_chars("account_id"));
    header.push(text_chars("kind"));
    header.push(text_chars("amount_minor"));
    header.push(text_chars("currency"));
    header.push(text_chars("occurred_at"));
    header.push(text_chars("description"));
    header.push(text_chars("category"));
    proof {
        assert(header@.map_values(|field: Vec<char>| field@) =~= native_header());
    }
    push_fields(&mut out, &header);
    out.push('\n');
    let ghost start = out@;
    let ghost listing = transactions_view(listed@);
    let mut i: usize = 0;
    proof {
        assert(listing.subrange(0, 0) =~= Seq::<TransactionView>::empty());
        assert(start =~= joined(native_header()) + seq!['\n']);
    }
    while i < listed.len()
        invariant
            i <= listed@.len(),
            listing == transactions_view(listed@),
            start == joined(native_header()) + seq!['\n'],
            out@ == start + export_lines(listing.subrange(0, i as int)),
        decreases listed@.len() - i,
    {
        export_record(&mut out, &listed[i]);
        i = i + 1;
        proof {
            let prefix = listing.subrange(0, i as int);
            assert(prefix.drop_last() =~= listing.subrange(0, i - 1));
            assert(prefix.last() == listed@[i - 1]@);
            assert(out@ =~= start + export_lines(prefix));
        }
    }
    proof {
        assert(listing.subrange(0, i as int) =~= listing);
        assert(export_text(listing) == out@);
    }
    Ok(string_from_chars(&out))
}

} // verus!
