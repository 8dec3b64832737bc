use vstd::prelude::*;
use crate::application::ranged_summary::{keep_within_range, within_range};
use crate::application::repository::{
    AccountRepository, RepositoryError, TransactionRepository, lists_transactions_of,
};
use crate::decimal::decimal_text;
use crate::domain::account::AccountId;
use crate::domain::budget::{BudgetError, BudgetMonth, budget_error_text, month_index, valid_month};
use crate::domain::summary::{SummaryError, SummaryReport, SummaryReportView, calculate_summary, summary_of};
use crate::domain::time::{
    CivilTime, ZoneProblem, ZonedTime, ZonedTimeView, civil_in_zone, civil_text, padded_digits,
    parse_civil_date_time, lemma_plain_civil_text, plain_civil, resolve_in_zone,
};
use crate::domain::transaction::{Transaction, TransactionView, transactions_view};
use crate::text::{string_from_chars, text_chars};

verus! {

broadcast use BudgetMonth::lemma_from_parts;

/// One month of a trend: the month and the summary of its transactions.
#[derive(Debug, PartialEq, Eq)]
pub struct MonthlyTrend {
    pub month: BudgetMonth,
    pub summary: SummaryReport,
}

/// Why a monthly trend could not be read.
#[derive(Debug, PartialEq, Eq)]
pub enum MonthlyTrendError {
    AccountNotFound(AccountId),
    InvalidRange { from: BudgetMonth, to: BudgetMonth },
    InvalidTimeZone(String),
    InvalidMonthBoundary(String),
    Summary(SummaryError),
    Repository(RepositoryError),
}

/// The month after a month, as a year and a month number.
pub open spec fn following_month(month: BudgetMonth) -> (int, int) {
    if month@.month == 12 {
        (month@.year + 1, 1)
    } else {
        (month@.year, month@.month + 1)
    }
}

/// The month `offset` months after `from`, by its index.
pub open spec fn month_offset(from: BudgetMonth, offset: int) -> int {
    month_index(from@) + offset
}

/// The month that follows; `InvalidMonthBoundary` after December 9999.
pub fn next_month(month: BudgetMonth) -> (r: Result<BudgetMonth, MonthlyTrendError>)
    ensures
        match r {
            Ok(next) => valid_month(following_month(month).0, following_month(month).1) && next@.year
                == following_month(month).0 && next@.month == following_month(month).1
                && month_index(next@) == month_index(month@) + 1,
            Err(MonthlyTrendError::InvalidMonthBoundary(message)) => !valid_month(
                following_month(month).0,
                following_month(month).1,
            ) && message@ == budget_error_text(
                BudgetError::InvalidMonth {
                    year: following_month(month).0 as i32,
                    month: following_month(month).1 as u8,
                },
            ),
            Err(_) => false,
        },
{
    let year = month.year();
    let number = month.month();
    let (next_year, next_number) = if number == 12 {
        (year + 1, 1u8)
    } else {
        (year, number + 1)
    };
    match BudgetMonth::new(next_year, next_number) {
        Ok(next) => Ok(next),
        Err(error) => Err(MonthlyTrendError::InvalidMonthBoundary(string_from_chars(&error.debug_text()))),
    }
}

/// The local time at which a month starts, as `YYYY-MM-01T00:00:00`.
pub open spec fn month_start_text(month: BudgetMonth) -> Seq<char> {
    padded_digits(month@.year as nat, 4) + seq!['-'] + padded_digits(month@.month as nat, 2)
        + "-01T00:00:00"@
}

pub(crate) fn push_padded(out: &mut Vec<char>, value: u32, width: u32)
    ensures
        final(out)@ == old(out)@ + padded_digits(value as nat, width as nat),
    decreases width,
{
    if width > 0 {
        push_padded(out, value / 10, width - 1);
        let digit = match value % 10 {
            0 => '0',
            1 => '1',
            2 => '2',
            3 => '3',
            4 => '4',
            5 => '5',
            6 => '6',
            7 => '7',
            8 => '8',
            _ => '9',
        };
        out.push(digit);
        proof {
            assert(out@ =~= old(out)@ + padded_digits(value as nat, width as nat));
        }
    } else {
        proof {
            assert(out@ =~= old(out)@ + padded_digits(value as nat, width as nat));
        }
    }
}

/// The local text of the start of a month.
pub fn month_start_local(month: BudgetMonth) -> (r: String)
    ensures
        r@ == month_start_text(month),
        valid_month(month@.year, month@.month),
{
    let year = month.year();
    let number = month.month();
    let mut out: Vec<char> = Vec::new();
    push_padded(&mut out, year as u32, 4);
    out.push('-');
    push_padded(&mut out, number as u32, 2);
    let mut rest = text_chars("-01T00:00:00");
    out.append(&mut rest);
    proof {
        assert(out@ =~= month_start_text(month));
    }
    string_from_chars(&out)
}

/// Midnight of the first day of the month with an index, twelve times the year plus the
/// month number less one.
pub open spec fn month_first(index: int) -> CivilTime {
    CivilTime {
        year: (index / 12) as i16,
        month: (index % 12 + 1) as i8,
        day: 1,
        hour: 0,
        minute: 0,
        second: 0,
        subsec_nanosecond: 0,
    }
}

/// Whether a start and an end are the starts of a month and of the month after it in the
/// named time zone: each is midnight of the first day of its month there, within the
/// largest offset of that midnight read as UTC, and carries that zone.
pub open spec fn month_bounds(start: ZonedTimeView, end: ZonedTimeView, index: int, zone_name: Seq<char>) -> bool {
    civil_in_zone(start, month_first(index), zone_name) && civil_in_zone(end, month_first(index + 1), zone_name)
}

proof fn lemma_month_start_text(month: BudgetMonth)
    requires
        valid_month(month@.year, month@.month),
    ensures
        plain_civil(month_first(month_index(month@))),
        month_start_text(month) == civil_text(month_first(month_index(month@))),
{
    let index = month_index(month@);
    assert(index / 12 == month@.year && index % 12 == month@.month - 1) by (nonlinear_arith)
        requires
            index == month@.year * 12 + month@.month - 1,
            1 <= month@.month <= 12,
            1 <= month@.year,
    ;
    let first = month_first(index);
    assert(first.year as int == month@.year);
    assert(first.month as int == month@.month);
    reveal_strlit("-01T00:00:00");
    reveal_with_fuel(padded_digits, 3);
    assert(padded_digits(1, 2) =~= seq!['0', '1']);
    assert(padded_digits(0, 2) =~= seq!['0', '0']);
    assert(month_start_text(month) =~= civil_text(first));
}

/// When a month starts in the named time zone: midnight of its first day, which must be
/// neither skipped nor repeated by the zone's rules. Which offset applies depends on the
/// time-zone database; the start lies within the largest offset of that midnight read as
/// UTC and carries the zone. A name the database lacks gives `InvalidTimeZone`.
pub fn month_start(month: BudgetMonth, zone_name: &str) -> (r: Result<ZonedTime, MonthlyTrendError>)
    ensures
        match r {
            Ok(start) => civil_in_zone(start@, month_first(month_index(month@)), zone_name@),
            Err(MonthlyTrendError::InvalidTimeZone(name)) => name@ == zone_name@,
            Err(error) => error is InvalidMonthBoundary,
        },
{
    let input = month_start_local(month);
    proof {
        lemma_month_start_text(month);
    }
    let local = match parse_civil_date_time(input.as_str()) {
        Ok(local) => local,
        Err(message) => return Err(MonthlyTrendError::InvalidMonthBoundary(message)),
    };
    proof {
        lemma_plain_civil_text(month_first(month_index(month@)));
        assert(local == month_first(month_index(month@)));
    }
    match resolve_in_zone(zone_name, &local) {
        Ok(start) => Ok(start),
        Err(ZoneProblem::UnknownZone(_)) => Err(MonthlyTrendError::InvalidTimeZone(String::from_str(zone_name))),
        Err(ZoneProblem::Unresolved(message)) => Err(MonthlyTrendError::InvalidMonthBoundary(message)),
    }
}

/// Whether rows are the months from `from` on, each with the summary of the transactions
/// between a start and an end that are the starts of that month and of the next one in
/// the named time zone; each month ends where the next one starts.
pub open spec fn trend_rows(
    rows: Seq<(BudgetMonth, SummaryReportView)>,
    from: BudgetMonth,
    account: crate::domain::account::AccountView,
    listed: Seq<TransactionView>,
    starts: Seq<ZonedTimeView>,
    ends: Seq<ZonedTimeView>,
    zone_name: Seq<char>,
) -> bool {
    &&& starts.len() == rows.len()
    &&& ends.len() == rows.len()
    &&& forall|k: int| 0 <= k < rows.len() - 1 ==> #[trigger] ends[k] == starts[k + 1]
    &&& forall|k: int|
        0 <= k < rows.len() ==> month_index((#[trigger] rows[k]).0@) == month_offset(from, k)
            && month_bounds(starts[k], ends[k], month_offset(from, k), zone_name)
            && summary_of(account, within_range(listed, starts[k], ends[k])) == Ok::<
            SummaryReportView,
            SummaryError,
        >(rows[k].1)
}

pub open spec fn trend_view(rows: Seq<MonthlyTrend>) -> Seq<(BudgetMonth, SummaryReportView)> {
    rows.map_values(|row: MonthlyTrend| (row.month, row.summary@))
}

fn copy_transactions(values: &Vec<Transaction>) -> (r: Vec<Transaction>)
    ensures
        transactions_view(r@) == transactions_view(values@),
{
    let mut out: Vec<Transaction> = Vec::new();
    let mut i: usize = 0;
    while i < values.len()
        invariant
            i <= values@.len(),
            out@.len() == i,
            transactions_view(out@) == transactions_view(values@.subrange(0, i as int)),
        decreases values@.len() - i,
    {
        let ghost before = out@;
        out.push(values[i].duplicate());
        i = i + 1;
        proof {
            let target = transactions_view(values@.subrange(0, i as int));
            assert forall|k: int| 0 <= k < i implies transactions_view(out@)[k] == target[k] by {
                if k < i - 1 {
                    assert(out@[k] == before[k]);
                    assert(transactions_view(before)[k] == transactions_view(values@.subrange(0, i - 1))[k]);
                }
            }
            assert(transactions_view(out@) =~= target);
        }
    }
    proof {
        assert(values@.subrange(0, i as int) =~= values@);
    }
    out
}

/// Summaries of the transactions of an account for each month from `from` to `to`,
/// months without transactions included; months start at local midnight of their first
/// day in the named time zone, and each month ends where the next one starts.
pub fn get_monthly_trend<A: AccountRepository, T: TransactionRepository>(
    accounts: &A,
    transactions: &T,
    account_id: AccountId,
    from: BudgetMonth,
    to: BudgetMonth,
    time_zone_name: &str,
) -> (r: Result<Vec<MonthlyTrend>, MonthlyTrendError>)
    ensures
        match r {
            Ok(rows) => {
                &&& month_index(from@) <= month_index(to@)
                &&& accounts.accounts().contains_key(account_id)
                &&& rows@.len() == month_index(to@) - month_index(from@) + 1
                &&& exists|
                    listed: Seq<TransactionView>,
                    starts: Seq<ZonedTimeView>,
                    ends: Seq<ZonedTimeView>,
                |
                    lists_transactions_of(listed, transactions.transactions(), account_id)
                        && #[trigger] trend_rows(
                        trend_view(rows@),
                        from,
                        accounts.accounts()[account_id],
                        listed,
                        starts,
                        ends,
                        time_zone_name@,
                    )
            },
            Err(MonthlyTrendError::InvalidRange { from: first, to: last }) => first == from && last
                == to && month_index(from@) > month_index(to@),
            Err(MonthlyTrendError::AccountNotFound(missing)) => month_index(from@) <= month_index(
                to@,
            ) && missing == account_id && !accounts.accounts().contains_key(account_id),
            Err(MonthlyTrendError::InvalidTimeZone(name)) => month_index(from@) <= month_index(to@)
                && accounts.accounts().contains_key(account_id) && name@ == time_zone_name@,
            Err(MonthlyTrendError::Summary(error)) => month_index(from@) <= month_index(to@)
                && accounts.accounts().contains_key(account_id) && exists|
                listed: Seq<TransactionView>,
                start: ZonedTimeView,
                end: ZonedTimeView,
                index: int,
            |
                lists_transactions_of(listed, transactions.transactions(), account_id)
                    && month_index(from@) <= index <= month_index(to@) && #[trigger] month_bounds(
                    start,
                    end,
                    index,
                    time_zone_name@,
                ) && #[trigger] summary_of(
                    accounts.accounts()[account_id],
                    within_range(listed, start, end),
                ) == Err::<SummaryReportView, SummaryError>(error),
            Err(_) => month_index(from@) <= month_index(to@),
        },
{
    if from.is_after(to) {
        return Err(MonthlyTrendError::InvalidRange { from, to });
    }
    let account = match accounts.find_by_id(account_id) {
        Ok(Some(account)) => account,
        Ok(None) => return Err(MonthlyTrendError::AccountNotFound(account_id)),
        Err(error) => return Err(MonthlyTrendError::Repository(error)),
    };
    let mut pending = month_start(from, time_zone_name);
    if let Err(MonthlyTrendError::InvalidTimeZone(name)) = pending {
        return Err(MonthlyTrendError::InvalidTimeZone(name));
    }
    let all = match transactions.find_by_account_id(account_id) {
        Ok(found) => found,
        Err(error) => return Err(MonthlyTrendError::Repository(error)),
    };
    let ghost listed = transactions_view(all@);
    let ghost stored_account = accounts.accounts()[account_id];
    let ghost zone = time_zone_name@;
    let mut rows: Vec<MonthlyTrend> = Vec::new();
    let ghost mut starts: Seq<ZonedTimeView> = Seq::empty();
    let ghost mut ends: Seq<ZonedTimeView> = Seq::empty();
    let mut month = from;
    loop
        invariant
            month_index(from@) <= month_index(month@) <= month_index(to@),
            rows@.len() == month_index(month@) - month_index(from@),
            listed == transactions_view(all@),
            lists_transactions_of(listed, transactions.transactions(), account_id),
            accounts.accounts().contains_key(account_id),
            stored_account == accounts.accounts()[account_id],
            account@ == stored_account,
            zone == time_zone_name@,
            trend_rows(trend_view(rows@), from, stored_account, listed, starts, ends, zone),
            rows@.len() > 0 ==> pending is Ok,
            pending matches Ok(s) ==> civil_in_zone(s@, month_first(month_index(month@)), zone),
            pending matches Ok(s) ==> (rows@.len() > 0 ==> s@ == ends.last()),
            pending matches Err(e) ==> e is InvalidMonthBoundary,
        decreases month_index(to@) - month_index(month@),
    {
        let next = next_month(month)?;
        let start = pending?;
        let end = month_start(next, time_zone_name)?;
        let selected = keep_within_range(copy_transactions(&all), &start, &end);
        let summary = match calculate_summary(&account, selected.as_slice()) {
            Ok(summary) => summary,
            Err(error) => {
                proof {
                    assert(summary_of(stored_account, within_range(listed, start@, end@)) == Err::<
                        SummaryReportView,
                        SummaryError,
                    >(error));
                    assert(month_bounds(start@, end@, month_index(month@), zone));
                }
                return Err(MonthlyTrendError::Summary(error));
            },
        };
        let ghost before = trend_view(rows@);
        let ghost before_starts = starts;
        let ghost before_ends = ends;
        rows.push(MonthlyTrend { month, summary });
        proof {
            starts = starts.push(start@);
            ends = ends.push(end@);
            let after = trend_view(rows@);
            assert(after =~= before.push((month, summary@)));
            assert forall|k: int| 0 <= k < after.len() implies month_index((#[trigger] after[k]).0@)
                == month_offset(from, k) && month_bounds(starts[k], ends[k], month_offset(from, k), zone)
                && summary_of(
                stored_account,
                within_range(listed, starts[k], ends[k]),
            ) == Ok::<SummaryReportView, SummaryError>(after[k].1) by {
                if k < before.len() {
                    assert(after[k] == before[k]);
                    assert(starts[k] == before_starts[k]);
                    assert(ends[k] == before_ends[k]);
                }
            }
            assert forall|k: int| 0 <= k < after.len() - 1 implies #[trigger] ends[k] == starts[k + 1] by {
                assert(ends[k] == before_ends[k]);
                if k + 1 < before.len() {
                    assert(starts[k + 1] == before_starts[k + 1]);
                }
            }
        }
        if month.is_after(to) || !to.is_after(month) {
            proof {
                assert(month_index(month@) == month_index(to@));
                assert(trend_rows(
                    trend_view(rows@),
                    from,
                    accounts.accounts()[account_id],
                    listed,
                    starts,
                    ends,
                    time_zone_name@,
                ));
            }
            return Ok(rows);
        }
        month = next;
        pending = Ok(end);
    }
}

} // verus!
