//! The lines in which the command line reports results.
use vstd::prelude::*;
use crate::application::list_transactions::{TransactionCursorView, TransactionPage, option_cursor_view};
use crate::decimal::{decimal_text, i64_text, signed_decimal_text, u64_text};
use crate::domain::account::{Account, AccountView};
use crate::domain::category_report::CategoryTotals;
use crate::domain::money::{Currency, Money, MoneyView};
use crate::domain::transaction::{
    Category, Transaction, TransactionKind, TransactionView, category_name_rank, transactions_view,
};
use crate::application::budget_report::{BudgetStatus, BudgetStatusView, statuses_view};
use crate::application::monthly_trend::{MonthlyTrend, push_padded, trend_view};
use crate::domain::budget::{Budget, BudgetMonth, BudgetView};
use crate::domain::summary::{SummaryReport, SummaryReportView};
use crate::domain::time::{padded_digits, timestamp_display, utc_timestamp_text};
use crate::application::audit_log::{
    AuditLogEntry, AuditLogEntryView, audit_entity_name, audit_operation_name,
};
use crate::decimal::i128_text;
use crate::domain::transfer::{Transfer, TransferView};
use crate::text::{string_from_chars, text_chars};

verus! {

/// The texts of a list of strings.
pub open spec fn texts_view(lines: Seq<String>) -> Seq<Seq<char>> {
    lines.map_values(|line: String| line@)
}

/// A currency's name, as its `Debug` form writes it.
pub open spec fn currency_name(currency: Currency) -> Seq<char> {
    match currency {
        Currency::Cny => "Cny"@,
        Currency::Usd => "Usd"@,
        Currency::Eur => "Eur"@,
        Currency::Hkd => "Hkd"@,
        Currency::Myr => "Myr"@,
    }
}

/// A category's name, as its `Debug` form writes it.
pub open spec fn category_name(category: Category) -> Seq<char> {
    match category {
        Category::Food => "Food"@,
        Category::Transportation => "Transportation"@,
        Category::Entertainment => "Entertainment"@,
        Category::Necessary => "Necessary"@,
        Category::Health => "Health"@,
        Category::Education => "Education"@,
        Category::Shopping => "Shopping"@,
        Category::Travel => "Travel"@,
        Category::Housing => "Housing"@,
        Category::Salary => "Salary"@,
        Category::Sale => "Sale"@,
        Category::Family => "Family"@,
        Category::Investment => "Investment"@,
        Category::Other => "Other"@,
    }
}

/// A transaction kind's name, as its `Debug` form writes it.
pub open spec fn kind_name(kind: TransactionKind) -> Seq<char> {
    match kind {
        TransactionKind::Income => "Income"@,
        TransactionKind::Expense => "Expense"@,
        TransactionKind::ExpenseRefund => "ExpenseRefund"@,
    }
}

/// The category at a position of the alphabetical order of category names.
pub open spec fn category_ranked(rank: int) -> Category {
    if rank == 0 {
        Category::Education
    } else if rank == 1 {
        Category::Entertainment
    } else if rank == 2 {
        Category::Family
    } else if rank == 3 {
        Category::Food
    } else if rank == 4 {
        Category::Health
    } else if rank == 5 {
        Category::Housing
    } else if rank == 6 {
        Category::Investment
    } else if rank == 7 {
        Category::Necessary
    } else if rank == 8 {
        Category::Other
    } else if rank == 9 {
        Category::Salary
    } else if rank == 10 {
        Category::Sale
    } else if rank == 11 {
        Category::Shopping
    } else if rank == 12 {
        Category::Transportation
    } else {
        Category::Travel
    }
}

/// The number of categories.
pub const CATEGORY_NAMES: u8 = 14;

fn currency_name_text(currency: Currency) -> (r: &'static str)
    ensures
        r@ == currency_name(currency),
{
    match currency {
        Currency::Cny => "Cny",
        Currency::Usd => "Usd",
        Currency::Eur => "Eur",
        Currency::Hkd => "Hkd",
        Currency::Myr => "Myr",
    }
}

fn category_name_text(category: Category) -> (r: &'static str)
    ensures
        r@ == category_name(category),
{
    match category {
        Category::Food => "Food",
        Category::Transportation => "Transportation",
        Category::Entertainment => "Entertainment",
        Category::Necessary => "Necessary",
        Category::Health => "Health",
        Category::Education => "Education",
        Category::Shopping => "Shopping",
        Category::Travel => "Travel",
        Category::Housing => "Housing",
        Category::Salary => "Salary",
        Category::Sale => "Sale",
        Category::Family => "Family",
        Category::Investment => "Investment",
        Category::Other => "Other",
    }
}

fn kind_name_text(kind: TransactionKind) -> (r: &'static str)
    ensures
        r@ == kind_name(kind),
{
    match kind {
        TransactionKind::Income => "Income",
        TransactionKind::Expense => "Expense",
        TransactionKind::ExpenseRefund => "ExpenseRefund",
    }
}

fn category_of_rank(rank: u8) -> (r: Category)
    requires
        rank < CATEGORY_NAMES,
    ensures
        r == category_ranked(rank as int),
{
    if rank == 0 {
        Category::Education
    } else if rank == 1 {
        Category::Entertainment
    } else if rank == 2 {
        Category::Family
    } else if rank == 3 {
        Category::Food
    } else if rank == 4 {
        Category::Health
    } else if rank == 5 {
        Category::Housing
    } else if rank == 6 {
        Category::Investment
    } else if rank == 7 {
        Category::Necessary
    } else if rank == 8 {
        Category::Other
    } else if rank == 9 {
        Category::Salary
    } else if rank == 10 {
        Category::Sale
    } else if rank == 11 {
        Category::Shopping
    } else if rank == 12 {
        Category::Transportation
    } else {
        Category::Travel
    }
}

fn push_str(out: &mut Vec<char>, text: &str)
    ensures
        final(out)@ == old(out)@ + text@,
{
    let mut chars = text_chars(text);
    out.append(&mut chars);
}

fn push_chars(out: &mut Vec<char>, chars: Vec<char>)
    ensures
        final(out)@ == old(out)@ + chars@,
{
    let mut chars = chars;
    out.append(&mut chars);
}

/// An amount with its currency in brackets after a space, as `{} ({:?})` writes it.
pub open spec fn money_spaced(amount: MoneyView) -> Seq<char> {
    signed_decimal_text(amount.minor) + " ("@ + currency_name(amount.currency) + ")"@
}

/// An amount with its currency in brackets right after it, as `{}({:?})` writes it.
pub open spec fn money_tight(amount: MoneyView) -> Seq<char> {
    signed_decimal_text(amount.minor) + "("@ + currency_name(amount.currency) + ")"@
}

/// The report row of one category: `Category: NAME, LABEL: AMOUNT (CURRENCY)`.
pub open spec fn category_row(label: Seq<char>, category: Category, amount: MoneyView) -> Seq<char> {
    "Category: "@ + category_name(category) + ", "@ + label + ": "@ + money_spaced(amount)
}

/// The rows of the categories with a total, among the first `count` in alphabetical
/// order of names.
pub open spec fn category_rows_upto(
    totals: Map<Category, MoneyView>,
    label: Seq<char>,
    count: nat,
) -> Seq<Seq<char>>
    decreases count,
{
    if count == 0 {
        Seq::empty()
    } else {
        let before = category_rows_upto(totals, label, (count - 1) as nat);
        let category = category_ranked(count - 1);
        if totals.contains_key(category) {
            before.push(category_row(label, category, totals[category]))
        } else {
            before
        }
    }
}

/// The rows of the categories with a total, in alphabetical order of their names, which
/// is the order in which the rows sort as text.
pub open spec fn category_rows_text(totals: Map<Category, MoneyView>, label: Seq<char>) -> Seq<Seq<char>> {
    category_rows_upto(totals, label, CATEGORY_NAMES as nat)
}

fn money_spaced_chars(amount: &Money) -> (r: Vec<char>)
    ensures
        r@ == money_spaced(amount@),
{
    let mut out = i64_text(amount.minor_units());
    push_str(&mut out, " (");
    push_str(&mut out, currency_name_text(amount.currency()));
    push_str(&mut out, ")");
    out
}

fn money_tight_chars(amount: &Money) -> (r: Vec<char>)
    ensures
        r@ == money_tight(amount@),
{
    let mut out = i64_text(amount.minor_units());
    push_str(&mut out, "(");
    push_str(&mut out, currency_name_text(amount.currency()));
    push_str(&mut out, ")");
    out
}

/// The rows of the categories that have a total, in alphabetical order of their names.
pub fn category_rows(totals: &CategoryTotals, label: &str) -> (r: Vec<String>)
    ensures
        texts_view(r@) == category_rows_text(totals@, label@),
{
    let mut rows: Vec<String> = Vec::new();
    let mut rank: u8 = 0;
    while rank < CATEGORY_NAMES
        invariant
            rank <= CATEGORY_NAMES,
            texts_view(rows@) == category_rows_upto(totals@, label@, rank as nat),
        decreases CATEGORY_NAMES - rank,
    {
        let category = category_of_rank(rank);
        let ghost before = rows@;
        if let Some(amount) = totals.get(category) {
            let mut line: Vec<char> = Vec::new();
            push_str(&mut line, "Category: ");
            push_str(&mut line, category_name_text(category));
            push_str(&mut line, ", ");
            push_str(&mut line, label);
            push_str(&mut line, ": ");
            push_chars(&mut line, money_spaced_chars(&amount));
            let text = string_from_chars(&line);
            proof {
                assert(text@ =~= category_row(label@, category, totals@[category]));
            }
            rows.push(text);
            proof {
                assert(texts_view(rows@) =~= texts_view(before).push(text@));
            }
        }
        rank = rank + 1;
    }
    rows
}

/// The line of one transaction:
/// `Transaction ID | KIND | TIME | AMOUNT(CURRENCY) | DESCRIPTION | CATEGORY`.
pub open spec fn transaction_line_text(transaction: TransactionView) -> Seq<char> {
    "Transaction "@ + decimal_text(transaction.id@ as nat) + " | "@ + kind_name(transaction.kind) + " | "@
        + transaction.occurred_at.text + " | "@ + money_tight(transaction.amount) + " | "@
        + transaction.description + " | "@ + category_name(transaction.category)
}

/// The line of one transaction (see `transaction_line_text`).
pub fn transaction_line(transaction: &Transaction) -> (r: String)
    ensures
        r@ == transaction_line_text(transaction@),
{
    let mut line: Vec<char> = Vec::new();
    push_str(&mut line, "Transaction ");
    push_chars(&mut line, u64_text(transaction.id().value()));
    push_str(&mut line, " | ");
    push_str(&mut line, kind_name_text(transaction.kind()));
    push_str(&mut line, " | ");
    push_str(&mut line, transaction.occurred_at().as_str());
    push_str(&mut line, " | ");
    let amount = transaction.amount();
    push_chars(&mut line, money_tight_chars(amount));
    push_str(&mut line, " | ");
    push_str(&mut line, transaction.description());
    push_str(&mut line, " | ");
    push_str(&mut line, category_name_text(transaction.category()));
    let text = string_from_chars(&line);
    proof {
        assert(text@ =~= transaction_line_text(transaction@));
    }
    text
}

/// The lines of a page of transactions of an account: the message that none were found,
/// or a line per transaction followed by `Next cursor: TIME|ID` when more remain.
pub open spec fn page_lines_text(
    account_id: u64,
    items: Seq<TransactionView>,
    next: Option<TransactionCursorView>,
) -> Seq<Seq<char>> {
    if items.len() == 0 {
        seq!["No transactions found for account "@ + decimal_text(account_id as nat)]
    } else {
        let lines = items.map_values(|item: TransactionView| transaction_line_text(item));
        match next {
            Some(cursor) => lines.push(
                "Next cursor: "@ + cursor.occurred_at.text + "|"@ + decimal_text(cursor.id as nat),
            ),
            None => lines,
        }
    }
}

/// The lines of a page of transactions of an account (see `page_lines_text`).
pub fn transaction_page_lines(account_id: u64, page: &TransactionPage) -> (r: Vec<String>)
    ensures
        texts_view(r@) == page_lines_text(
            account_id,
            transactions_view(page.items@),
            option_cursor_view(page.next_cursor),
        ),
{
    let mut lines: Vec<String> = Vec::new();
    if page.items.len() == 0 {
        let mut line: Vec<char> = Vec::new();
        push_str(&mut line, "No transactions found for account ");
        push_chars(&mut line, u64_text(account_id));
        let text = string_from_chars(&line);
        lines.push(text);
        proof {
            assert(texts_view(lines@) =~= page_lines_text(
                account_id,
                transactions_view(page.items@),
                option_cursor_view(page.next_cursor),
            ));
        }
        return lines;
    }
    let ghost items = transactions_view(page.items@);
    let mut i: usize = 0;
    while i < page.items.len()
        invariant
            i <= page.items@.len(),
            items == transactions_view(page.items@),
            texts_view(lines@) == items.subrange(0, i as int).map_values(
                |item: TransactionView| transaction_line_text(item),
            ),
        decreases page.items@.len() - i,
    {
        let text = transaction_line(&page.items[i]);
        let ghost before = lines@;
        lines.push(text);
        proof {
            assert(items[i as int] == page.items@[i as int]@);
            assert(items.subrange(0, i + 1) =~= items.subrange(0, i as int).push(items[i as int]));
            assert(texts_view(lines@) =~= texts_view(before).push(text@));
            assert(items.subrange(0, i + 1).map_values(|item: TransactionView| transaction_line_text(item))
                =~= items.subrange(0, i as int).map_values(|item: TransactionView| transaction_line_text(item)).push(
                transaction_line_text(items[i as int]),
            ));
            assert(texts_view(lines@) =~= items.subrange(0, i + 1).map_values(
                |item: TransactionView| transaction_line_text(item),
            ));
        }
        i = i + 1;
    }
    proof {
        assert(items.subrange(0, i as int) =~= items);
    }
    if let Some(cursor) = &page.next_cursor {
        let mut line: Vec<char> = Vec::new();
        push_str(&mut line, "Next cursor: ");
        push_str(&mut line, cursor.occurred_at.as_str());
        push_str(&mut line, "|");
        push_chars(&mut line, u64_text(cursor.id));
        let text = string_from_chars(&line);
        let ghost before = lines@;
        lines.push(text);
        proof {
            assert(texts_view(lines@) =~= texts_view(before).push(text@));
        }
    }
    lines
}

/// The line of one account: `Account ID: NAME (CURRENCY)`.
pub open spec fn account_line_text(account: AccountView) -> Seq<char> {
    "Account "@ + decimal_text(account.id@ as nat) + ": "@ + account.name + " ("@ + currency_name(
        account.currency,
    ) + ")"@
}

/// The line of one account (see `account_line_text`).
pub fn account_line(account: &Account) -> (r: String)
    ensures
        r@ == account_line_text(account@),
{
    let mut line: Vec<char> = Vec::new();
    push_str(&mut line, "Account ");
    push_chars(&mut line, u64_text(account.id().value()));
    push_str(&mut line, ": ");
    push_str(&mut line, account.name());
    push_str(&mut line, " (");
    push_str(&mut line, currency_name_text(account.currency()));
    push_str(&mut line, ")");
    let text = string_from_chars(&line);
    proof {
        assert(text@ =~= account_line_text(account@));
    }
    text
}

/// The lines of a list of accounts: the message that none were found, or a line per
/// account.
pub open spec fn account_lines_text(accounts: Seq<AccountView>) -> Seq<Seq<char>> {
    if accounts.len() == 0 {
        seq!["No accounts found"@]
    } else {
        accounts.map_values(|account: AccountView| account_line_text(account))
    }
}

/// The lines of a list of accounts (see `account_lines_text`).
pub fn account_lines(accounts: &Vec<Account>) -> (r: Vec<String>)
    ensures
        texts_view(r@) == account_lines_text(accounts@.map_values(|account: Account| account@)),
{
    let ghost values = accounts@.map_values(|account: Account| account@);
    let mut lines: Vec<String> = Vec::new();
    if accounts.len() == 0 {
        lines.push(String::from_str("No accounts found"));
        proof {
            assert(texts_view(lines@) =~= account_lines_text(values));
        }
        return lines;
    }
    let mut i: usize = 0;
    while i < accounts.len()
        invariant
            i <= accounts@.len(),
            values == accounts@.map_values(|account: Account| account@),
            texts_view(lines@) == values.subrange(0, i as int).map_values(
                |account: AccountView| account_line_text(account),
            ),
        decreases accounts@.len() - i,
    {
        let text = account_line(&accounts[i]);
        let ghost before = lines@;
        lines.push(text);
        proof {
            assert(values[i as int] == accounts@[i as int]@);
            assert(values.subrange(0, i + 1) =~= values.subrange(0, i as int).push(values[i as int]));
            assert(texts_view(lines@) =~= texts_view(before).push(text@));
            assert(values.subrange(0, i + 1).map_values(|account: AccountView| account_line_text(account))
                =~= values.subrange(0, i as int).map_values(|account: AccountView| account_line_text(account)).push(
                account_line_text(values[i as int]),
            ));
            assert(texts_view(lines@) =~= values.subrange(0, i + 1).map_values(
                |account: AccountView| account_line_text(account),
            ));
        }
        i = i + 1;
    }
    proof {
        assert(values.subrange(0, i as int) =~= values);
    }
    lines
}

/// The lines of a summary: its income, net expense and net change totals, then the rows
/// of its categories.
pub open spec fn summary_lines_text(summary: SummaryReportView) -> Seq<Seq<char>> {
    seq![
        "Income Total: "@ + money_spaced(summary.income_total),
        "Net Expense Total: "@ + money_spaced(summary.net_expense_total),
        "Net Change: "@ + money_spaced(summary.net_change),
    ] + category_rows_text(summary.net_outflow_by_category, "Net Outflow"@)
}

/// The lines of a summary (see `summary_lines_text`).
pub fn summary_lines(summary: &SummaryReport) -> (r: Vec<String>)
    ensures
        texts_view(r@) == summary_lines_text(summary@),
{
    let mut lines: Vec<String> = Vec::new();
    let mut line: Vec<char> = Vec::new();
    push_str(&mut line, "Income Total: ");
    push_chars(&mut line, money_spaced_chars(summary.income_total()));
    lines.push(string_from_chars(&line));
    let mut line: Vec<char> = Vec::new();
    push_str(&mut line, "Net Expense Total: ");
    push_chars(&mut line, money_spaced_chars(summary.net_expense_total()));
    lines.push(string_from_chars(&line));
    let mut line: Vec<char> = Vec::new();
    push_str(&mut line, "Net Change: ");
    push_chars(&mut line, money_spaced_chars(summary.net_change()));
    lines.push(string_from_chars(&line));
    let ghost head = lines@;
    let mut rows = category_rows(summary.net_outflow_by_category(), "Net Outflow");
    lines.append(&mut rows);
    proof {
        assert(texts_view(lines@) =~= texts_view(head) + category_rows_text(
            summary@.net_outflow_by_category,
            "Net Outflow"@,
        ));
        assert(texts_view(head) =~= seq![
            "Income Total: "@ + money_spaced(summary@.income_total),
            "Net Expense Total: "@ + money_spaced(summary@.net_expense_total),
            "Net Change: "@ + money_spaced(summary@.net_change),
        ]);
    }
    lines
}

/// A month as `YYYY-MM`.
pub open spec fn month_text(month: BudgetMonth) -> Seq<char> {
    padded_digits(month@.year as nat, 4) + "-"@ + padded_digits(month@.month as nat, 2)
}

fn month_chars(month: BudgetMonth) -> (r: Vec<char>)
    ensures
        r@ == month_text(month),
{
    let year = month.year();
    let number = month.month();
    let mut out: Vec<char> = Vec::new();
    push_padded(&mut out, year as u32, 4);
    push_str(&mut out, "-");
    push_padded(&mut out, number as u32, 2);
    proof {
        assert(out@ =~= month_text(month));
    }
    out
}

/// The row of one category of a month of a trend: `YYYY-MM | NAME | net outflow AMOUNT`.
pub open spec fn trend_category_row(month: BudgetMonth, category: Category, amount: MoneyView) -> Seq<char> {
    month_text(month) + " | "@ + category_name(category) + " | net outflow "@ + signed_decimal_text(amount.minor)
}

/// The trend rows of the categories with a total, among the first `count` in
/// alphabetical order of names.
pub open spec fn trend_category_rows_upto(
    month: BudgetMonth,
    totals: Map<Category, MoneyView>,
    count: nat,
) -> Seq<Seq<char>>
    decreases count,
{
    if count == 0 {
        Seq::empty()
    } else {
        let before = trend_category_rows_upto(month, totals, (count - 1) as nat);
        let category = category_ranked(count - 1);
        if totals.contains_key(category) {
            before.push(trend_category_row(month, category, totals[category]))
        } else {
            before
        }
    }
}

/// The lines of one month of a trend: its totals, then its category rows in alphabetical
/// order of their names.
pub open spec fn trend_month_lines(month: BudgetMonth, summary: SummaryReportView) -> Seq<Seq<char>> {
    seq![
        month_text(month) + " | income "@ + signed_decimal_text(summary.income_total.minor)
            + " | net expense "@ + signed_decimal_text(summary.net_expense_total.minor)
            + " | net change "@ + signed_decimal_text(summary.net_change.minor),
    ] + trend_category_rows_upto(month, summary.net_outflow_by_category, CATEGORY_NAMES as nat)
}

/// The lines of the months of a trend, in order.
pub open spec fn trend_lines_text(rows: Seq<(BudgetMonth, SummaryReportView)>) -> Seq<Seq<char>>
    decreases rows.len(),
{
    if rows.len() == 0 {
        Seq::empty()
    } else {
        trend_lines_text(rows.drop_last()) + trend_month_lines(rows.last().0, rows.last().1)
    }
}

fn trend_month(row: &MonthlyTrend) -> (r: Vec<String>)
    ensures
        texts_view(r@) == trend_month_lines(row.month, row.summary@),
{
    let month = row.month;
    let summary = &row.summary;
    let mut lines: Vec<String> = Vec::new();
    let mut line = month_chars(month);
    push_str(&mut line, " | income ");
    push_chars(&mut line, i64_text(summary.income_total().minor_units()));
    push_str(&mut line, " | net expense ");
    push_chars(&mut line, i64_text(summary.net_expense_total().minor_units()));
    push_str(&mut line, " | net change ");
    push_chars(&mut line, i64_text(summary.net_change().minor_units()));
    let head = string_from_chars(&line);
    lines.push(head);
    let totals = summary.net_outflow_by_category();
    let mut rank: u8 = 0;
    proof {
        assert(texts_view(lines@) =~= seq![head@] + trend_category_rows_upto(month, totals@, 0));
    }
    while rank < CATEGORY_NAMES
        invariant
            rank <= CATEGORY_NAMES,
            totals@ == row.summary@.net_outflow_by_category,
            texts_view(lines@) == seq![head@] + trend_category_rows_upto(month, totals@, rank as nat),
        decreases CATEGORY_NAMES - rank,
    {
        let category = category_of_rank(rank);
        let ghost before = lines@;
        if let Some(amount) = totals.get(category) {
            let mut line = month_chars(month);
            push_str(&mut line, " | ");
            push_str(&mut line, category_name_text(category));
            push_str(&mut line, " | net outflow ");
            push_chars(&mut line, i64_text(amount.minor_units()));
            let text = string_from_chars(&line);
            proof {
                assert(text@ =~= trend_category_row(month, category, totals@[category]));
            }
            lines.push(text);
            proof {
                assert(texts_view(lines@) =~= texts_view(before).push(text@));
            }
        }
        rank = rank + 1;
    }
    proof {
        assert(head@ =~= month_text(month) + " | income "@ + signed_decimal_text(
            row.summary@.income_total.minor,
        ) + " | net expense "@ + signed_decimal_text(row.summary@.net_expense_total.minor)
            + " | net change "@ + signed_decimal_text(row.summary@.net_change.minor));
        assert(texts_view(lines@) =~= trend_month_lines(month, row.summary@));
    }
    lines
}

/// The lines of the months of a trend (see `trend_lines_text`).
pub fn trend_lines(rows: &Vec<MonthlyTrend>) -> (r: Vec<String>)
    ensures
        texts_view(r@) == trend_lines_text(trend_view(rows@)),
{
    let ghost all = trend_view(rows@);
    let mut lines: Vec<String> = Vec::new();
    let mut i: usize = 0;
    proof {
        assert(all.subrange(0, 0) =~= Seq::<(BudgetMonth, SummaryReportView)>::empty());
        assert(texts_view(lines@) =~= Seq::<Seq<char>>::empty());
    }
    while i < rows.len()
        invariant
            i <= rows@.len(),
            all == trend_view(rows@),
            texts_view(lines@) == trend_lines_text(all.subrange(0, i as int)),
        decreases rows@.len() - i,
    {
        let ghost before = lines@;
        let mut block = trend_month(&rows[i]);
        let ghost added = block@;
        lines.append(&mut block);
        proof {
            let prefix = all.subrange(0, i + 1);
            assert(prefix.drop_last() =~= all.subrange(0, i as int));
            assert(prefix.last() == (rows@[i as int].month, rows@[i as int].summary@));
            assert(texts_view(lines@) =~= texts_view(before) + texts_view(added));
        }
        i = i + 1;
    }
    proof {
        assert(all.subrange(0, i as int) =~= all);
    }
    lines
}

/// The line of one transfer: `Transfer ID | SOURCE -> DESTINATION | DESCRIPTION`.
pub open spec fn transfer_line_text(transfer: TransferView) -> Seq<char> {
    "Transfer "@ + decimal_text(transfer.id@ as nat) + " | "@ + decimal_text(
        transfer.source_account_id@ as nat,
    ) + " -> "@ + decimal_text(transfer.destination_account_id@ as nat) + " | "@ + transfer.description
}

/// The lines of the transfers of an account: the message that none were found, or a
/// line per transfer.
pub open spec fn transfer_lines_text(account_id: u64, transfers: Seq<TransferView>) -> Seq<Seq<char>> {
    if transfers.len() == 0 {
        seq!["No transfers found for account "@ + decimal_text(account_id as nat)]
    } else {
        transfers.map_values(|transfer: TransferView| transfer_line_text(transfer))
    }
}

/// The lines of the transfers of an account (see `transfer_lines_text`).
pub fn transfer_lines(account_id: u64, transfers: &Vec<Transfer>) -> (r: Vec<String>)
    ensures
        texts_view(r@) == transfer_lines_text(account_id, transfers@.map_values(|transfer: Transfer| transfer@)),
{
    let ghost values = transfers@.map_values(|transfer: Transfer| transfer@);
    let mut lines: Vec<String> = Vec::new();
    if transfers.len() == 0 {
        let mut line: Vec<char> = Vec::new();
        push_str(&mut line, "No transfers found for account ");
        push_chars(&mut line, u64_text(account_id));
        lines.push(string_from_chars(&line));
        proof {
            assert(texts_view(lines@) =~= transfer_lines_text(account_id, values));
        }
        return lines;
    }
    let mut i: usize = 0;
    while i < transfers.len()
        invariant
            i <= transfers@.len(),
            values == transfers@.map_values(|transfer: Transfer| transfer@),
            texts_view(lines@) == values.subrange(0, i as int).map_values(
                |transfer: TransferView| transfer_line_text(transfer),
            ),
        decreases transfers@.len() - i,
    {
        let transfer = &transfers[i];
        let mut line: Vec<char> = Vec::new();
        push_str(&mut line, "Transfer ");
        push_chars(&mut line, u64_text(transfer.id().value()));
        push_str(&mut line, " | ");
        push_chars(&mut line, u64_text(transfer.source_account_id().value()));
        push_str(&mut line, " -> ");
        push_chars(&mut line, u64_text(transfer.destination_account_id().value()));
        push_str(&mut line, " | ");
        push_str(&mut line, transfer.description());
        let text = string_from_chars(&line);
        let ghost before = lines@;
        lines.push(text);
        proof {
            assert(values[i as int] == transfers@[i as int]@);
            assert(text@ =~= transfer_line_text(values[i as int]));
            assert(texts_view(lines@) =~= texts_view(before).push(text@));
            assert(values.subrange(0, i + 1).map_values(|transfer: TransferView| transfer_line_text(transfer))
                =~= values.subrange(0, i as int).map_values(|transfer: TransferView| transfer_line_text(transfer)).push(
                transfer_line_text(values[i as int]),
            ));
        }
        i = i + 1;
    }
    proof {
        assert(values.subrange(0, i as int) =~= values);
    }
    lines
}

/// The line of one budget of an account: `Budget ID | CATEGORY | YYYY-MM | LIMIT(CURRENCY)`.
pub open spec fn budget_line_text(budget: BudgetView) -> Seq<char> {
    "Budget "@ + decimal_text(budget.id@ as nat) + " | "@ + category_name(budget.category) + " | "@
        + month_text(budget.month) + " | "@ + money_tight(budget.limit)
}

/// The lines of the budgets of an account: the message that none were found, or a line
/// per budget.
pub open spec fn budget_lines_text(account_id: u64, budgets: Seq<BudgetView>) -> Seq<Seq<char>> {
    if budgets.len() == 0 {
        seq!["No budgets found for account "@ + decimal_text(account_id as nat)]
    } else {
        budgets.map_values(|budget: BudgetView| budget_line_text(budget))
    }
}

/// The lines of the budgets of an account (see `budget_lines_text`).
pub fn budget_lines(account_id: u64, budgets: &Vec<Budget>) -> (r: Vec<String>)
    ensures
        texts_view(r@) == budget_lines_text(account_id, budgets@.map_values(|budget: Budget| budget@)),
{
    let ghost values = budgets@.map_values(|budget: Budget| budget@);
    let mut lines: Vec<String> = Vec::new();
    if budgets.len() == 0 {
        let mut line: Vec<char> = Vec::new();
        push_str(&mut line, "No budgets found for account ");
        push_chars(&mut line, u64_text(account_id));
        lines.push(string_from_chars(&line));
        proof {
            assert(texts_view(lines@) =~= budget_lines_text(account_id, values));
        }
        return lines;
    }
    let mut i: usize = 0;
    while i < budgets.len()
        invariant
            i <= budgets@.len(),
            values == budgets@.map_values(|budget: Budget| budget@),
            texts_view(lines@) == values.subrange(0, i as int).map_values(
                |budget: BudgetView| budget_line_text(budget),
            ),
        decreases budgets@.len() - i,
    {
        let budget = &budgets[i];
        let mut line: Vec<char> = Vec::new();
        push_str(&mut line, "Budget ");
        push_chars(&mut line, u64_text(budget.id().value()));
        push_str(&mut line, " | ");
        push_str(&mut line, category_name_text(budget.category()));
        push_str(&mut line, " | ");
        push_chars(&mut line, month_chars(budget.month()));
        push_str(&mut line, " | ");
        push_chars(&mut line, money_tight_chars(budget.limit()));
        let text = string_from_chars(&line);
        let ghost before = lines@;
        lines.push(text);
        proof {
            assert(values[i as int] == budgets@[i as int]@);
            assert(text@ =~= budget_line_text(values[i as int]));
            assert(texts_view(lines@) =~= texts_view(before).push(text@));
            assert(values.subrange(0, i + 1).map_values(|budget: BudgetView| budget_line_text(budget))
                =~= values.subrange(0, i as int).map_values(|budget: BudgetView| budget_line_text(budget)).push(
                budget_line_text(values[i as int]),
            ));
        }
        i = i + 1;
    }
    proof {
        assert(values.subrange(0, i as int) =~= values);
    }
    lines
}

/// A truth value as `bool`'s `Display` writes it.
pub open spec fn bool_text(value: bool) -> Seq<char> {
    if value {
        "true"@
    } else {
        "false"@
    }
}

/// The line of the status of one budget:
/// `CATEGORY | limit LIMIT | used USED | remaining REMAINING | overrun BOOL`.
pub open spec fn status_line_text(status: BudgetStatusView) -> Seq<char> {
    category_name(status.budget.category) + " | limit "@ + signed_decimal_text(status.budget.limit.minor)
        + " | used "@ + signed_decimal_text(status.used.minor) + " | remaining "@ + signed_decimal_text(
        status.remaining.minor,
    ) + " | overrun "@ + bool_text(status.overrun)
}

/// The lines of the budget statuses of an account for a month: the message that it has
/// no budgets then, or a line per status.
pub open spec fn status_lines_text(
    account_id: u64,
    month: BudgetMonth,
    statuses: Seq<BudgetStatusView>,
) -> Seq<Seq<char>> {
    if statuses.len() == 0 {
        seq!["No budgets found for account "@ + decimal_text(account_id as nat) + " in "@ + month_text(month)]
    } else {
        statuses.map_values(|status: BudgetStatusView| status_line_text(status))
    }
}

/// The lines of the budget statuses of an account for a month (see `status_lines_text`).
pub fn status_lines(account_id: u64, month: BudgetMonth, statuses: &Vec<BudgetStatus>) -> (r: Vec<String>)
    ensures
        texts_view(r@) == status_lines_text(account_id, month, statuses_view(statuses@)),
{
    let ghost values = statuses_view(statuses@);
    let mut lines: Vec<String> = Vec::new();
    if statuses.len() == 0 {
        let mut line: Vec<char> = Vec::new();
        push_str(&mut line, "No budgets found for account ");
        push_chars(&mut line, u64_text(account_id));
        push_str(&mut line, " in ");
        push_chars(&mut line, month_chars(month));
        lines.push(string_from_chars(&line));
        proof {
            assert(texts_view(lines@) =~= status_lines_text(account_id, month, values));
        }
        return lines;
    }
    let mut i: usize = 0;
    while i < statuses.len()
        invariant
            i <= statuses@.len(),
            values == statuses_view(statuses@),
            texts_view(lines@) == values.subrange(0, i as int).map_values(
                |status: BudgetStatusView| status_line_text(status),
            ),
        decreases statuses@.len() - i,
    {
        let status = &statuses[i];
        let mut line: Vec<char> = Vec::new();
        push_str(&mut line, category_name_text(status.budget.category()));
        push_str(&mut line, " | limit ");
        push_chars(&mut line, i64_text(status.budget.limit().minor_units()));
        push_str(&mut line, " | used ");
        push_chars(&mut line, i64_text(status.used.minor_units()));
        push_str(&mut line, " | remaining ");
        push_chars(&mut line, i64_text(status.remaining.minor_units()));
        push_str(&mut line, " | overrun ");
        if status.overrun {
            push_str(&mut line, "true");
        } else {
            push_str(&mut line, "false");
        }
        let text = string_from_chars(&line);
        let ghost before = lines@;
        lines.push(text);
        proof {
            assert(values[i as int] == statuses@[i as int]@);
            assert(text@ =~= status_line_text(values[i as int]));
            assert(texts_view(lines@) =~= texts_view(before).push(text@));
            assert(values.subrange(0, i + 1).map_values(|status: BudgetStatusView| status_line_text(status))
                =~= values.subrange(0, i as int).map_values(|status: BudgetStatusView| status_line_text(status)).push(
                status_line_text(values[i as int]),
            ));
        }
        i = i + 1;
    }
    proof {
        assert(values.subrange(0, i as int) =~= values);
    }
    lines
}

/// The line that reports a created account: `Created ` and the account's line.
pub open spec fn created_account_line_text(account: AccountView) -> Seq<char> {
    "Created "@ + account_line_text(account)
}

/// The line that reports a created account (see `created_account_line_text`).
pub fn created_account_line(account: &Account) -> (r: String)
    ensures
        r@ == created_account_line_text(account@),
{
    let mut line: Vec<char> = Vec::new();
    push_str(&mut line, "Created ");
    push_chars(&mut line, text_chars(account_line(account).as_str()));
    let text = string_from_chars(&line);
    proof {
        assert(text@ =~= created_account_line_text(account@));
    }
    text
}

/// The line that reports a renamed account: `Updated ` and the account's line.
pub open spec fn updated_account_line_text(account: AccountView) -> Seq<char> {
    "Updated "@ + account_line_text(account)
}

/// The line that reports a renamed account (see `updated_account_line_text`).
pub fn updated_account_line(account: &Account) -> (r: String)
    ensures
        r@ == updated_account_line_text(account@),
{
    let mut line: Vec<char> = Vec::new();
    push_str(&mut line, "Updated ");
    push_chars(&mut line, text_chars(account_line(account).as_str()));
    let text = string_from_chars(&line);
    proof {
        assert(text@ =~= updated_account_line_text(account@));
    }
    text
}

/// The balance line of an account: `Account ID balance: AMOUNT (CURRENCY)`.
pub open spec fn balance_line_text(account_id: u64, balance: MoneyView) -> Seq<char> {
    "Account "@ + decimal_text(account_id as nat) + " balance: "@ + money_spaced(balance)
}

/// The balance line of an account (see `balance_line_text`).
pub fn balance_line(account_id: u64, balance: &Money) -> (r: String)
    ensures
        r@ == balance_line_text(account_id, balance@),
{
    let mut line: Vec<char> = Vec::new();
    push_str(&mut line, "Account ");
    push_chars(&mut line, u64_text(account_id));
    push_str(&mut line, " balance: ");
    push_chars(&mut line, money_spaced_chars(balance));
    let text = string_from_chars(&line);
    proof {
        assert(text@ =~= balance_line_text(account_id, balance@));
    }
    text
}

/// The line that reports a recorded transaction:
/// `Recorded transaction ID for account ACCOUNT: AMOUNT(CURRENCY) DESCRIPTION CATEGORY at TIME`.
pub open spec fn recorded_transaction_line_text(account_id: u64, transaction: TransactionView) -> Seq<char> {
    "Recorded transaction "@ + decimal_text(transaction.id@ as nat) + " for account "@ + decimal_text(
        account_id as nat,
    ) + ": "@ + money_tight(transaction.amount) + " "@ + transaction.description + " "@ + category_name(
        transaction.category,
    ) + " at "@ + transaction.occurred_at.text
}

/// The line that reports a recorded transaction (see `recorded_transaction_line_text`).
pub fn recorded_transaction_line(account_id: u64, transaction: &Transaction) -> (r: String)
    ensures
        r@ == recorded_transaction_line_text(account_id, transaction@),
{
    let mut line: Vec<char> = Vec::new();
    push_str(&mut line, "Recorded transaction ");
    push_chars(&mut line, u64_text(transaction.id().value()));
    push_str(&mut line, " for account ");
    push_chars(&mut line, u64_text(account_id));
    push_str(&mut line, ": ");
    push_chars(&mut line, money_tight_chars(transaction.amount()));
    push_str(&mut line, " ");
    push_str(&mut line, transaction.description());
    push_str(&mut line, " ");
    push_str(&mut line, category_name_text(transaction.category()));
    push_str(&mut line, " at ");
    push_str(&mut line, transaction.occurred_at().as_str());
    let text = string_from_chars(&line);
    proof {
        assert(text@ =~= recorded_transaction_line_text(account_id, transaction@));
    }
    text
}

/// The full line of one transfer:
/// `Transfer ID | SOURCE -> DESTINATION | AMOUNT(CURRENCY) -> AMOUNT(CURRENCY) | TIME | DESCRIPTION`.
pub open spec fn transfer_detail_line_text(transfer: TransferView) -> Seq<char> {
    "Transfer "@ + decimal_text(transfer.id@ as nat) + " | "@ + decimal_text(transfer.source_account_id@ as nat)
        + " -> "@ + decimal_text(transfer.destination_account_id@ as nat) + " | "@ + money_tight(
        transfer.source_amount,
    ) + " -> "@ + money_tight(transfer.destination_amount) + " | "@ + transfer.occurred_at.text + " | "@
        + transfer.description
}

/// The full line of one transfer (see `transfer_detail_line_text`).
pub fn transfer_detail_line(transfer: &Transfer) -> (r: String)
    ensures
        r@ == transfer_detail_line_text(transfer@),
{
    let mut line: Vec<char> = Vec::new();
    push_str(&mut line, "Transfer ");
    push_chars(&mut line, u64_text(transfer.id().value()));
    push_str(&mut line, " | ");
    push_chars(&mut line, u64_text(transfer.source_account_id().value()));
    push_str(&mut line, " -> ");
    push_chars(&mut line, u64_text(transfer.destination_account_id().value()));
    push_str(&mut line, " | ");
    push_chars(&mut line, money_tight_chars(transfer.source_amount()));
    push_str(&mut line, " -> ");
    push_chars(&mut line, money_tight_chars(transfer.destination_amount()));
    push_str(&mut line, " | ");
    push_str(&mut line, transfer.occurred_at().as_str());
    push_str(&mut line, " | ");
    push_str(&mut line, transfer.description());
    let text = string_from_chars(&line);
    proof {
        assert(text@ =~= transfer_detail_line_text(transfer@));
    }
    text
}

/// The full line of one budget:
/// `Budget ID | account ACCOUNT | CATEGORY | YYYY-MM | LIMIT(CURRENCY)`.
pub open spec fn budget_detail_line_text(budget: BudgetView) -> Seq<char> {
    "Budget "@ + decimal_text(budget.id@ as nat) + " | account "@ + decimal_text(budget.account_id@ as nat)
        + " | "@ + category_name(budget.category) + " | "@ + month_text(budget.month) + " | "@ + money_tight(
        budget.limit,
    )
}

/// The full line of one budget (see `budget_detail_line_text`).
pub fn budget_detail_line(budget: &Budget) -> (r: String)
    ensures
        r@ == budget_detail_line_text(budget@),
{
    let mut line: Vec<char> = Vec::new();
    push_str(&mut line, "Budget ");
    push_chars(&mut line, u64_text(budget.id().value()));
    push_str(&mut line, " | account ");
    push_chars(&mut line, u64_text(budget.account_id().value()));
    push_str(&mut line, " | ");
    push_str(&mut line, category_name_text(budget.category()));
    push_str(&mut line, " | ");
    push_chars(&mut line, month_chars(budget.month()));
    push_str(&mut line, " | ");
    push_chars(&mut line, money_tight_chars(budget.limit()));
    let text = string_from_chars(&line);
    proof {
        assert(text@ =~= budget_detail_line_text(budget@));
    }
    text
}

/// When a change happened, as its UTC timestamp where jiff can display the instant, and
/// otherwise as the number of nanoseconds.
pub open spec fn changed_at_text(nanos: int) -> Seq<char> {
    match timestamp_display(nanos) {
        Some(text) => text,
        None => signed_decimal_text(nanos),
    }
}

/// A recorded state, or `-` where there is none.
pub open spec fn state_text(state: Option<Seq<char>>) -> Seq<char> {
    match state {
        Some(text) => text,
        None => "-"@,
    }
}

/// The line of one audit log entry:
/// `ID | TIME | ENTITY ENTITY_ID | OPERATION | before STATE | after STATE`.
pub open spec fn audit_line_text(entry: AuditLogEntryView) -> Seq<char> {
    decimal_text(entry.id as nat) + " | "@ + changed_at_text(entry.changed_at) + " | "@ + audit_entity_name(
        entry.entity,
    ) + " "@ + decimal_text(entry.entity_id as nat) + " | "@ + audit_operation_name(entry.operation)
        + " | before "@ + state_text(entry.before_state) + " | after "@ + state_text(entry.after_state)
}

fn push_state(out: &mut Vec<char>, state: Option<&str>)
    ensures
        final(out)@ == old(out)@ + state_text(crate::application::audit_log::optional_str(state)),
{
    match state {
        Some(text) => push_str(out, text),
        None => push_str(out, "-"),
    }
    proof {
        reveal_strlit("-");
    }
}

/// The line of one audit log entry (see `audit_line_text`).
pub fn audit_line(entry: &AuditLogEntry) -> (r: String)
    ensures
        r@ == audit_line_text(entry@),
{
    let mut line: Vec<char> = Vec::new();
    push_chars(&mut line, u64_text(entry.id()));
    push_str(&mut line, " | ");
    match utc_timestamp_text(entry.changed_at()) {
        Some(text) => push_str(&mut line, text.as_str()),
        None => push_chars(&mut line, i128_text(entry.changed_at())),
    }
    push_str(&mut line, " | ");
    push_str(&mut line, entry.entity().as_str());
    push_str(&mut line, " ");
    push_chars(&mut line, u64_text(entry.entity_id()));
    push_str(&mut line, " | ");
    push_str(&mut line, entry.operation().as_str());
    push_str(&mut line, " | before ");
    push_state(&mut line, entry.before_state());
    push_str(&mut line, " | after ");
    push_state(&mut line, entry.after_state());
    let text = string_from_chars(&line);
    proof {
        assert(text@ =~= audit_line_text(entry@));
    }
    text
}

/// The lines of the audit log: the message that no change was recorded, or a line per
/// entry.
pub open spec fn audit_lines_text(entries: Seq<AuditLogEntryView>) -> Seq<Seq<char>> {
    if entries.len() == 0 {
        seq!["No database changes recorded"@]
    } else {
        entries.map_values(|entry: AuditLogEntryView| audit_line_text(entry))
    }
}

/// The lines of the audit log (see `audit_lines_text`).
pub fn audit_lines(entries: &Vec<AuditLogEntry>) -> (r: Vec<String>)
    ensures
        texts_view(r@) == audit_lines_text(entries@.map_values(|entry: AuditLogEntry| entry@)),
{
    let ghost values = entries@.map_values(|entry: AuditLogEntry| entry@);
    let mut lines: Vec<String> = Vec::new();
    if entries.len() == 0 {
        lines.push(String::from_str("No database changes recorded"));
        proof {
            assert(texts_view(lines@) =~= audit_lines_text(values));
        }
        return lines;
    }
    let mut i: usize = 0;
    while i < entries.len()
        invariant
            i <= entries@.len(),
            values == entries@.map_values(|entry: AuditLogEntry| entry@),
            texts_view(lines@) == values.subrange(0, i as int).map_values(
                |entry: AuditLogEntryView| audit_line_text(entry),
            ),
        decreases entries@.len() - i,
    {
        let text = audit_line(&entries[i]);
        let ghost before = lines@;
        lines.push(text);
        proof {
            assert(values[i as int] == entries@[i as int]@);
            assert(texts_view(lines@) =~= texts_view(before).push(text@));
            assert(values.subrange(0, i + 1).map_values(|entry: AuditLogEntryView| audit_line_text(entry))
                =~= values.subrange(0, i as int).map_values(|entry: AuditLogEntryView| audit_line_text(entry)).push(
                audit_line_text(values[i as int]),
            ));
        }
        i = i + 1;
    }
    proof {
        assert(values.subrange(0, i as int) =~= values);
    }
    lines
}

} // verus!
