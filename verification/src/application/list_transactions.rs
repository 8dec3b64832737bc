use vstd::prelude::*;
use crate::application::repository::{
    AccountRepository, RepositoryError, TransactionRepository, lists_transactions_of,
};
use crate::domain::account::AccountId;
use crate::domain::time::{ZonedTime, ZonedTimeView};
use crate::domain::transaction::{
    Category, Transaction, TransactionId, TransactionKind, TransactionView, transactions_view,
};
use crate::text::{contains_fragment, has_fragment, text_chars, to_lowercase, trim, trimmed, unicode_lowercase};

verus! {

/// The largest page that a transaction listing hands out.
pub const MAX_TRANSACTION_PAGE_SIZE: usize = 200;

/// Why transactions could not be listed.
#[derive(Debug, PartialEq, Eq)]
pub enum ListTransactionsError {
    AccountNotFound(AccountId),
    Repository(RepositoryError),
    TimeRangeError { from: ZonedTime, to: ZonedTime },
    InvalidDescriptionFilter,
    InvalidAmountRange { min: Option<i64>, max: Option<i64> },
    InvalidPageLimit { limit: usize, max: usize },
}

pub enum ListTransactionsErrorView {
    AccountNotFound(AccountId),
    Repository(RepositoryError),
    TimeRangeError { from: ZonedTimeView, to: ZonedTimeView },
    InvalidDescriptionFilter,
    InvalidAmountRange { min: Option<i64>, max: Option<i64> },
    InvalidPageLimit { limit: usize, max: usize },
}

impl View for ListTransactionsError {
    type V = ListTransactionsErrorView;

    open spec fn view(&self) -> ListTransactionsErrorView {
        match self {
            ListTransactionsError::AccountNotFound(id) => ListTransactionsErrorView::AccountNotFound(*id),
            ListTransactionsError::Repository(error) => ListTransactionsErrorView::Repository(*error),
            ListTransactionsError::TimeRangeError { from, to } =>
                ListTransactionsErrorView::TimeRangeError { from: from@, to: to@ },
            ListTransactionsError::InvalidDescriptionFilter =>
                ListTransactionsErrorView::InvalidDescriptionFilter,
            ListTransactionsError::InvalidAmountRange { min, max } =>
                ListTransactionsErrorView::InvalidAmountRange { min: *min, max: *max },
            ListTransactionsError::InvalidPageLimit { limit, max } =>
                ListTransactionsErrorView::InvalidPageLimit { limit: *limit, max: *max },
        }
    }
}

/// Which transactions a listing keeps; every field left `None` keeps everything.
#[derive(Debug, PartialEq, Eq)]
pub struct TransactionFilter {
    pub category: Option<Category>,
    pub kind: Option<TransactionKind>,
    pub from: Option<ZonedTime>,
    pub to: Option<ZonedTime>,
    pub description_contains: Option<String>,
    pub min_amount_minor: Option<i64>,
    pub max_amount_minor: Option<i64>,
}

pub struct TransactionFilterView {
    pub category: Option<Category>,
    pub kind: Option<TransactionKind>,
    pub from: Option<ZonedTimeView>,
    pub to: Option<ZonedTimeView>,
    pub description_contains: Option<Seq<char>>,
    pub min_amount_minor: Option<i64>,
    pub max_amount_minor: Option<i64>,
}

pub open spec fn time_view(value: Option<ZonedTime>) -> Option<ZonedTimeView> {
    match value {
        Some(time) => Some(time@),
        None => None,
    }
}

impl View for TransactionFilter {
    type V = TransactionFilterView;

    open spec fn view(&self) -> TransactionFilterView {
        TransactionFilterView {
            category: self.category,
            kind: self.kind,
            from: time_view(self.from),
            to: time_view(self.to),
            description_contains: match self.description_contains {
                Some(text) => Some(text@),
                None => None,
            },
            min_amount_minor: self.min_amount_minor,
            max_amount_minor: self.max_amount_minor,
        }
    }
}

fn copy_time(value: &Option<ZonedTime>) -> (r: Option<ZonedTime>)
    ensures
        time_view(r) == time_view(*value),
{
    match value {
        Some(time) => Some(time.duplicate()),
        None => None,
    }
}

impl Default for TransactionFilter {
    fn default() -> (r: Self)
        ensures
            r@ == (TransactionFilterView {
                category: None,
                kind: None,
                from: None,
                to: None,
                description_contains: None,
                min_amount_minor: None,
                max_amount_minor: None,
            }),
    {
        TransactionFilter {
            category: None,
            kind: None,
            from: None,
            to: None,
            description_contains: None,
            min_amount_minor: None,
            max_amount_minor: None,
        }
    }
}

impl Clone for TransactionFilter {
    fn clone(&self) -> (r: Self)
        ensures
            r@ == self@,
    {
        TransactionFilter {
            category: self.category,
            kind: self.kind,
            from: copy_time(&self.from),
            to: copy_time(&self.to),
            description_contains: match &self.description_contains {
                Some(text) => Some(text.clone()),
                None => None,
            },
            min_amount_minor: self.min_amount_minor,
            max_amount_minor: self.max_amount_minor,
        }
    }
}

/// The lower-case text that a description filter looks for.
pub open spec fn description_needle(filter: TransactionFilterView) -> Option<Seq<char>> {
    match filter.description_contains {
        Some(text) => Some(unicode_lowercase(trimmed(text))),
        None => None,
    }
}

/// Why a filter is refused, checked in this order: an empty description, an amount
/// bound that is not positive or a minimum above the maximum, a start that is not
/// before the end.
pub open spec fn filter_problem(filter: TransactionFilterView) -> Option<ListTransactionsErrorView> {
    if description_needle(filter) matches Some(needle) && needle.len() == 0 {
        Some(ListTransactionsErrorView::InvalidDescriptionFilter)
    } else if (filter.min_amount_minor matches Some(min) && min <= 0) || (
    filter.max_amount_minor matches Some(max) && max <= 0) || (filter.min_amount_minor matches Some(
        min,
    ) && filter.max_amount_minor matches Some(max) && min > max) {
        Some(
            ListTransactionsErrorView::InvalidAmountRange {
                min: filter.min_amount_minor,
                max: filter.max_amount_minor,
            },
        )
    } else if filter.from matches Some(from) && filter.to matches Some(to) && from.instant
        >= to.instant {
        Some(
            ListTransactionsErrorView::TimeRangeError {
                from: filter.from->0,
                to: filter.to->0,
            },
        )
    } else {
        None
    }
}

/// Whether a transaction passes every part of a filter; a time range keeps the start and
/// leaves out the end.
pub open spec fn passes_filter(transaction: TransactionView, filter: TransactionFilterView) -> bool {
    &&& (filter.category matches Some(category) ==> transaction.category == category)
    &&& (filter.kind matches Some(kind) ==> transaction.kind == kind)
    &&& (description_needle(filter) matches Some(needle) ==> has_fragment(
        unicode_lowercase(transaction.description),
        needle,
    ))
    &&& (filter.min_amount_minor matches Some(min) ==> transaction.amount.minor >= min)
    &&& (filter.max_amount_minor matches Some(max) ==> transaction.amount.minor <= max)
    &&& (filter.from matches Some(from) ==> transaction.occurred_at.instant >= from.instant)
    &&& (filter.to matches Some(to) ==> transaction.occurred_at.instant < to.instant)
}

/// Whether `a` is listed before `b`: later first, and among equal times the larger
/// identifier first.
pub open spec fn newer(a: TransactionView, b: TransactionView) -> bool {
    a.occurred_at.instant > b.occurred_at.instant || (a.occurred_at.instant
        == b.occurred_at.instant && a.id@ > b.id@)
}

/// Whether a list runs strictly from newest to oldest.
pub open spec fn newest_first(values: Seq<TransactionView>) -> bool {
    forall|i: int, j: int| 0 <= i < j < values.len() ==> newer(#[trigger] values[i], #[trigger] values[j])
}

/// Whether a list holds exactly the stored transactions of an account that pass a
/// filter, newest first.
pub open spec fn lists_matching(
    values: Seq<TransactionView>,
    stored: Map<TransactionId, TransactionView>,
    account: AccountId,
    filter: TransactionFilterView,
) -> bool {
    &&& newest_first(values)
    &&& forall|i: int|
        0 <= i < values.len() ==> stored.contains_key((#[trigger] values[i]).id) && stored[values[i].id]
            == values[i] && values[i].account_id == account && passes_filter(values[i], filter)
    &&& forall|id: TransactionId| #[trigger]
        stored.contains_key(id) && stored[id].account_id == account && passes_filter(stored[id], filter)
            ==> exists|i: int| 0 <= i < values.len() && (#[trigger] values[i]).id == id
}

fn time_problem(filter: &TransactionFilter) -> (r: Option<ListTransactionsError>)
    ensures
        match r {
            Some(error) => filter@.from matches Some(from) && filter@.to matches Some(to) && from.instant
                >= to.instant && error@ == (ListTransactionsErrorView::TimeRangeError {
                from: filter@.from->0,
                to: filter@.to->0,
            }),
            None => !(filter@.from matches Some(from) && filter@.to matches Some(to) && from.instant
                >= to.instant),
        },
{
    match (&filter.from, &filter.to) {
        (Some(from), Some(to)) => if !from.is_before(to) {
            Some(ListTransactionsError::TimeRangeError { from: from.duplicate(), to: to.duplicate() })
        } else {
            None
        },
        _ => None,
    }
}

/// Checks a filter and reads its description needle.
fn check_filter(filter: &TransactionFilter) -> (r: Result<Option<Vec<char>>, ListTransactionsError>)
    ensures
        match r {
            Ok(needle) => filter_problem(filter@) is None && match needle {
                Some(chars) => description_needle(filter@) == Some(chars@),
                None => description_needle(filter@) is None,
            },
            Err(error) => filter_problem(filter@) == Some(error@),
        },
{
    let needle = match &filter.description_contains {
        Some(text) => {
            let trimmed_text = trim(text.as_str());
            let lowered = to_lowercase(trimmed_text.as_str());
            if lowered.as_str().unicode_len() == 0 {
                return Err(ListTransactionsError::InvalidDescriptionFilter);
            }
            Some(text_chars(lowered.as_str()))
        },
        None => None,
    };
    let min_bad = match filter.min_amount_minor {
        Some(min) => min <= 0,
        None => false,
    };
    let max_bad = match filter.max_amount_minor {
        Some(max) => max <= 0,
        None => false,
    };
    let reversed = match (filter.min_amount_minor, filter.max_amount_minor) {
        (Some(min), Some(max)) => min > max,
        _ => false,
    };
    if min_bad || max_bad || reversed {
        return Err(
            ListTransactionsError::InvalidAmountRange {
                min: filter.min_amount_minor,
                max: filter.max_amount_minor,
            },
        );
    }
    if let Some(error) = time_problem(filter) {
        return Err(error);
    }
    Ok(needle)
}

fn passes(transaction: &Transaction, filter: &TransactionFilter, needle: &Option<Vec<char>>) -> (r: bool)
    requires
        match *needle {
            Some(chars) => description_needle(filter@) == Some(chars@),
            None => description_needle(filter@) is None,
        },
    ensures
        r == passes_filter(transaction@, filter@),
{
    let category_ok = match filter.category {
        Some(category) => transaction.category() == category,
        None => true,
    };
    let kind_ok = match filter.kind {
        Some(kind) => transaction.kind() == kind,
        None => true,
    };
    let description_ok = match needle {
        Some(chars) => {
            let lowered = to_lowercase(transaction.description());
            let text = text_chars(lowered.as_str());
            contains_fragment(&text, chars)
        },
        None => true,
    };
    let amount = transaction.amount().minor_units();
    let min_ok = match filter.min_amount_minor {
        Some(min) => amount >= min,
        None => true,
    };
    let max_ok = match filter.max_amount_minor {
        Some(max) => amount <= max,
        None => true,
    };
    let from_ok = match &filter.from {
        Some(from) => !transaction.occurred_at().is_before(from),
        None => true,
    };
    let to_ok = match &filter.to {
        Some(to) => transaction.occurred_at().is_before(to),
        None => true,
    };
    category_ok && kind_ok && description_ok && min_ok && max_ok && from_ok && to_ok
}

/// Whether `a` is listed before `b`.
fn is_newer(a: &Transaction, b: &Transaction) -> (r: bool)
    ensures
        r == newer(a@, b@),
{
    let a_time = a.occurred_at().timestamp_nanos();
    let b_time = b.occurred_at().timestamp_nanos();
    a_time > b_time || (a_time == b_time && a.id().value() > b.id().value())
}

/// Whether a list holds a transaction with the identifier and time.
pub open spec fn holds_entry(values: Seq<Transaction>, id: TransactionId, instant: int) -> bool {
    exists|i: int| 0 <= i < values.len() && (#[trigger] values[i])@.id == id && values[i]@.occurred_at.instant == instant
}

/// The given transactions from newest to oldest, keeping one of any two with the same
/// time and identifier.
pub fn sort_newest_first(items: Vec<Transaction>) -> (r: Vec<Transaction>)
    ensures
        newest_first(transactions_view(r@)),
        forall|x: Transaction| #[trigger] r@.contains(x) ==> items@.contains(x),
        forall|k: int|
            0 <= k < items@.len() ==> holds_entry(
                r@,
                (#[trigger] items@[k])@.id,
                items@[k]@.occurred_at.instant,
            ),
{
    let ghost original = items@;
    let mut remaining = items;
    let mut sorted: Vec<Transaction> = Vec::new();
    while remaining.len() > 0
        invariant
            remaining@ == original.subrange(0, remaining@.len() as int),
            remaining@.len() <= original.len(),
            newest_first(transactions_view(sorted@)),
            forall|x: Transaction| #[trigger] sorted@.contains(x) ==> original.contains(x),
            forall|k: int|
                remaining@.len() <= k < original.len() ==> holds_entry(
                    sorted@,
                    (#[trigger] original[k])@.id,
                    original[k]@.occurred_at.instant,
                ),
        decreases remaining@.len(),
    {
        let value = remaining.pop().unwrap();
        let ghost n = remaining@.len() as int;
        proof {
            assert(remaining@ =~= original.subrange(0, n));
            assert(value == original[n]);
        }
        let mut position: usize = 0;
        while position < sorted.len() && is_newer(&sorted[position], &value)
            invariant
                position <= sorted@.len(),
                forall|t: int| 0 <= t < position ==> newer((#[trigger] sorted@[t])@, value@),
            decreases sorted@.len() - position,
        {
            position = position + 1;
        }
        let ghost old_sorted = sorted@;
        let same = position < sorted.len() && !is_newer(&value, &sorted[position]);
        if same {
            proof {
                TransactionId::lemma_view_injective(sorted@[position as int]@.id, value@.id);
                assert(sorted@[position as int]@.id == original[n]@.id);
                assert(holds_entry(sorted@, original[n]@.id, original[n]@.occurred_at.instant));
            }
        } else {
            sorted.insert(position, value);
            proof {
                assert forall|i: int, j: int| 0 <= i < j < sorted@.len() implies newer(
                    #[trigger] transactions_view(sorted@)[i],
                    #[trigger] transactions_view(sorted@)[j],
                ) by {
                    let ov = transactions_view(old_sorted);
                    if j < position {
                        assert(sorted@[i] == old_sorted[i]);
                        assert(sorted@[j] == old_sorted[j]);
                        assert(newer(ov[i], ov[j]));
                    } else if j == position {
                        assert(sorted@[i] == old_sorted[i]);
                    } else if i == position {
                        assert(sorted@[j] == old_sorted[j - 1]);
                        if j - 1 > position {
                            assert(newer(ov[position as int], ov[j - 1]));
                        }
                    } else if i < position {
                        assert(sorted@[i] == old_sorted[i]);
                        assert(sorted@[j] == old_sorted[j - 1]);
                        assert(newer(ov[i], ov[j - 1]));
                    } else {
                        assert(sorted@[i] == old_sorted[i - 1]);
                        assert(sorted@[j] == old_sorted[j - 1]);
                        assert(newer(ov[i - 1], ov[j - 1]));
                    }
                }
                assert forall|x: Transaction| #[trigger] sorted@.contains(x) implies original.contains(
                    x,
                ) by {
                    let i = choose|i: int| 0 <= i < sorted@.len() && sorted@[i] == x;
                    if i < position {
                        assert(sorted@[i] == old_sorted[i]);
                        assert(old_sorted.contains(x));
                    } else if i == position {
                        assert(original[n] == x);
                    } else {
                        assert(sorted@[i] == old_sorted[i - 1]);
                        assert(old_sorted.contains(x));
                    }
                }
                assert forall|k: int| n <= k < original.len() implies holds_entry(
                    sorted@,
                    (#[trigger] original[k])@.id,
                    original[k]@.occurred_at.instant,
                ) by {
                    if k == n {
                        assert(sorted@[position as int] == value);
                    } else {
                        assert(holds_entry(old_sorted, original[k]@.id, original[k]@.occurred_at.instant));
                        let i = choose|i: int|
                            0 <= i < old_sorted.len() && (#[trigger] old_sorted[i])@.id == original[k]@.id
                                && old_sorted[i]@.occurred_at.instant == original[k]@.occurred_at.instant;
                        if i < position {
                            assert(sorted@[i] == old_sorted[i]);
                        } else {
                            assert(sorted@[i + 1] == old_sorted[i]);
                        }
                    }
                }
            }
        }
    }
    proof {
        assert forall|k: int| 0 <= k < items@.len() implies holds_entry(
            sorted@,
            (#[trigger] items@[k])@.id,
            items@[k]@.occurred_at.instant,
        ) by {
            assert(original[k] == items@[k]);
        }
    }
    sorted
}


/// The transactions of a list that pass a filter, in their order.
fn keep_passing(values: Vec<Transaction>, filter: &TransactionFilter, needle: &Option<Vec<char>>) -> (r: Vec<
    Transaction,
>)
    requires
        match *needle {
            Some(chars) => description_needle(filter@) == Some(chars@),
            None => description_needle(filter@) is None,
        },
    ensures
        forall|x: Transaction| #[trigger] r@.contains(x) ==> values@.contains(x) && passes_filter(x@, filter@),
        forall|k: int|
            0 <= k < values@.len() && passes_filter((#[trigger] values@[k])@, filter@) ==> r@.contains(
                values@[k],
            ),
{
    let mut kept: Vec<Transaction> = Vec::new();
    let mut i: usize = 0;
    let ghost all = values@;
    let n = values.len();
    let mut rest = values;
    while rest.len() > 0
        invariant
            all.len() == n,
            i + rest@.len() == all.len(),
            rest@ == all.subrange(i as int, all.len() as int),
            match *needle {
                Some(chars) => description_needle(filter@) == Some(chars@),
                None => description_needle(filter@) is None,
            },
            forall|x: Transaction| #[trigger] kept@.contains(x) ==> all.contains(x) && passes_filter(x@, filter@),
            forall|k: int|
                0 <= k < i && passes_filter((#[trigger] all[k])@, filter@) ==> kept@.contains(all[k]),
        decreases rest@.len(),
    {
        let ghost before = kept@;
        let value = rest.remove(0);
        proof {
            assert(value == all[i as int]);
            assert(rest@ =~= all.subrange(i + 1, all.len() as int));
        }
        if passes(&value, filter, needle) {
            kept.push(value);
            proof {
                assert(kept@[kept@.len() - 1] == all[i as int]);
                assert forall|x: Transaction| #[trigger] kept@.contains(x) implies all.contains(x)
                    && passes_filter(x@, filter@) by {
                    let m = choose|m: int| 0 <= m < kept@.len() && kept@[m] == x;
                    if m < before.len() {
                        assert(before[m] == x);
                        assert(before.contains(x));
                    }
                }
                assert forall|k: int| 0 <= k < i + 1 && passes_filter((#[trigger] all[k])@, filter@) implies kept@.contains(
                    all[k],
                ) by {
                    if k < i {
                        let m = choose|m: int| 0 <= m < before.len() && before[m] == all[k];
                        assert(kept@[m] == all[k]);
                    } else {
                        assert(kept@[kept@.len() - 1] == all[k]);
                    }
                }
            }
        }
        i = i + 1;
    }
    proof {
        assert(all =~= values@);
    }
    kept
}

/// The transactions of an account that pass a filter, newest first; among equal times
/// the larger identifier comes first.
pub fn list_account_transactions<A: AccountRepository, T: TransactionRepository>(
    account_repository: &A,
    transaction_repository: &T,
    account_id: AccountId,
    filter: TransactionFilter,
) -> (r: Result<Vec<Transaction>, ListTransactionsError>)
    ensures
        match r {
            Ok(found) => {
                &&& account_repository.accounts().contains_key(account_id)
                &&& filter_problem(filter@) is None
                &&& lists_matching(
                    transactions_view(found@),
                    transaction_repository.transactions(),
                    account_id,
                    filter@,
                )
            },
            Err(ListTransactionsError::AccountNotFound(id)) => id == account_id
                && !account_repository.accounts().contains_key(account_id),
            Err(ListTransactionsError::Repository(_)) => true,
            Err(error) => account_repository.accounts().contains_key(account_id) && filter_problem(
                filter@,
            ) == Some(error@),
        },
{
    let account = match account_repository.find_by_id(account_id) {
        Ok(Some(account)) => account,
        Ok(None) => return Err(ListTransactionsError::AccountNotFound(account_id)),
        Err(error) => return Err(ListTransactionsError::Repository(error)),
    };
    let listed = match transaction_repository.find_by_account_id(account.id()) {
        Ok(listed) => listed,
        Err(error) => return Err(ListTransactionsError::Repository(error)),
    };
    let needle = check_filter(&filter)?;
    let ghost stored = transaction_repository.transactions();
    let ghost all = listed@;
    proof {
        assert(lists_transactions_of(transactions_view(all), stored, account_id));
    }
    let kept = keep_passing(listed, &filter, &needle);
    let ghost kept_values = kept@;
    let sorted = sort_newest_first(kept);
    proof {
        let view = transactions_view(sorted@);
        assert forall|i: int| 0 <= i < view.len() implies stored.contains_key((#[trigger] view[i]).id)
            && stored[view[i].id] == view[i] && view[i].account_id == account_id && passes_filter(
            view[i],
            filter@,
        ) by {
            let x = sorted@[i];
            assert(sorted@.contains(x));
            assert(kept_values.contains(x));
            let k = choose|k: int| 0 <= k < all.len() && all[k] == x;
            assert(transactions_view(all)[k] == x@);
        }
        assert forall|id: TransactionId| #[trigger]
            stored.contains_key(id) && stored[id].account_id == account_id && passes_filter(
                stored[id],
                filter@,
            ) implies exists|i: int| 0 <= i < view.len() && (#[trigger] view[i]).id == id by {
            let k = choose|k: int|
                0 <= k < transactions_view(all).len() && (#[trigger] transactions_view(all)[k]).id == id;
            assert(transactions_view(all)[k] == all[k]@);
            assert(kept_values.contains(all[k]));
            let m = choose|m: int| 0 <= m < kept_values.len() && kept_values[m] == all[k];
            assert(holds_entry(sorted@, kept_values[m]@.id, kept_values[m]@.occurred_at.instant));
            let i = choose|i: int|
                0 <= i < sorted@.len() && (#[trigger] sorted@[i])@.id == kept_values[m]@.id
                    && sorted@[i]@.occurred_at.instant == kept_values[m]@.occurred_at.instant;
            assert(view[i].id == id);
        }
    }
    Ok(sorted)
}


/// Where a page ends: the time and identifier of its last transaction.
#[derive(Debug, PartialEq, Eq)]
pub struct TransactionCursor {
    pub occurred_at: ZonedTime,
    pub id: u64,
}

pub struct TransactionCursorView {
    pub occurred_at: ZonedTimeView,
    pub id: u64,
}

impl View for TransactionCursor {
    type V = TransactionCursorView;

    open spec fn view(&self) -> TransactionCursorView {
        TransactionCursorView { occurred_at: self.occurred_at@, id: self.id }
    }
}

impl Clone for TransactionCursor {
    fn clone(&self) -> (r: Self)
        ensures
            r@ == self@,
    {
        TransactionCursor { occurred_at: self.occurred_at.duplicate(), id: self.id }
    }
}

/// How many transactions a page holds, and after which cursor it starts.
#[derive(Debug, PartialEq, Eq)]
pub struct TransactionPageRequest {
    pub limit: usize,
    pub cursor: Option<TransactionCursor>,
}

/// One page of a transaction listing, and the cursor of the next page when there is one.
#[derive(Debug, PartialEq, Eq)]
pub struct TransactionPage {
    pub items: Vec<Transaction>,
    pub next_cursor: Option<TransactionCursor>,
}

pub open spec fn option_cursor_view(value: Option<TransactionCursor>) -> Option<TransactionCursorView> {
    match value {
        Some(cursor) => Some(cursor@),
        None => None,
    }
}

/// Whether a transaction comes after a cursor in newest-first order.
pub open spec fn after_cursor(transaction: TransactionView, cursor: TransactionCursorView) -> bool {
    transaction.occurred_at.instant < cursor.occurred_at.instant || (transaction.occurred_at.instant
        == cursor.occurred_at.instant && transaction.id@ < cursor.id)
}

/// The cursor that points at a transaction.
pub open spec fn cursor_of(transaction: TransactionView) -> TransactionCursorView {
    TransactionCursorView { occurred_at: transaction.occurred_at, id: transaction.id@ }
}

/// Whether `items` and `next` are the page of `listing` that skips its first `start`
/// transactions, those not after `cursor`, and holds at most `limit` transactions.
pub open spec fn is_page_from(
    items: Seq<TransactionView>,
    next: Option<TransactionCursorView>,
    listing: Seq<TransactionView>,
    cursor: Option<TransactionCursorView>,
    limit: int,
    start: int,
) -> bool {
    &&& 0 <= start <= listing.len()
    &&& forall|i: int|
        0 <= i < listing.len() ==> (i >= start <==> (cursor matches Some(c) ==> after_cursor(
            #[trigger] listing[i],
            c,
        )))
    &&& items == listing.subrange(
        start,
        if listing.len() - start > limit {
            start + limit
        } else {
            listing.len() as int
        },
    )
    &&& next == (if listing.len() - start > limit {
        Some(cursor_of(items.last()))
    } else {
        None
    })
}

/// Whether `items` and `next` are the page of `listing` that starts after `cursor` and
/// holds at most `limit` transactions.
pub open spec fn is_page_of(
    items: Seq<TransactionView>,
    next: Option<TransactionCursorView>,
    listing: Seq<TransactionView>,
    cursor: Option<TransactionCursorView>,
    limit: int,
) -> bool {
    exists|start: int| #[trigger] is_page_from(items, next, listing, cursor, limit, start)
}

fn is_after_cursor(transaction: &Transaction, cursor: &TransactionCursor) -> (r: bool)
    ensures
        r == after_cursor(transaction@, cursor@),
{
    let time = transaction.occurred_at().timestamp_nanos();
    let mark = cursor.occurred_at.timestamp_nanos();
    time < mark || (time == mark && transaction.id().value() < cursor.id)
}

/// One page of the filtered transactions of an account, newest first: at most `limit`
/// of them, starting after the cursor, with the cursor of the next page when more remain.
pub fn list_account_transaction_page<A: AccountRepository, T: TransactionRepository>(
    account_repository: &A,
    transaction_repository: &T,
    account_id: AccountId,
    filter: TransactionFilter,
    request: TransactionPageRequest,
) -> (r: Result<TransactionPage, ListTransactionsError>)
    ensures
        match r {
            Ok(page) => {
                &&& 0 < request.limit <= MAX_TRANSACTION_PAGE_SIZE
                &&& account_repository.accounts().contains_key(account_id)
                &&& filter_problem(filter@) is None
                &&& exists|listing: Seq<TransactionView>|
                    lists_matching(listing, transaction_repository.transactions(), account_id, filter@)
                        && is_page_of(
                        transactions_view(page.items@),
                        option_cursor_view(page.next_cursor),
                        listing,
                        option_cursor_view(request.cursor),
                        request.limit as int,
                    )
            },
            Err(ListTransactionsError::InvalidPageLimit { limit, max }) => limit == request.limit && max
                == MAX_TRANSACTION_PAGE_SIZE && (request.limit == 0 || request.limit
                > MAX_TRANSACTION_PAGE_SIZE),
            Err(ListTransactionsError::AccountNotFound(id)) => 0 < request.limit
                <= MAX_TRANSACTION_PAGE_SIZE && id == account_id
                && !account_repository.accounts().contains_key(account_id),
            Err(ListTransactionsError::Repository(_)) => 0 < request.limit <= MAX_TRANSACTION_PAGE_SIZE,
            Err(error) => 0 < request.limit <= MAX_TRANSACTION_PAGE_SIZE
                && account_repository.accounts().contains_key(account_id) && filter_problem(filter@)
                == Some(error@),
        },
{
    if request.limit == 0 || request.limit > MAX_TRANSACTION_PAGE_SIZE {
        return Err(
            ListTransactionsError::InvalidPageLimit {
                limit: request.limit,
                max: MAX_TRANSACTION_PAGE_SIZE,
            },
        );
    }
    let listed = list_account_transactions(
        account_repository,
        transaction_repository,
        account_id,
        filter,
    )?;
    let ghost listing = transactions_view(listed@);
    let total = listed.len();
    let mut rest = listed;
    let mut start: usize = 0;
    if let Some(cursor) = &request.cursor {
        while rest.len() > 0 && !is_after_cursor(&rest[0], cursor)
            invariant
                listing.len() == total,
                start + rest@.len() == listing.len(),
                transactions_view(rest@) == listing.subrange(start as int, listing.len() as int),
                forall|i: int| 0 <= i < start ==> !after_cursor(#[trigger] listing[i], cursor@),
            decreases rest@.len(),
        {
            let ghost old_rest = rest@;
            proof {
                assert(transactions_view(rest@)[0] == listing[start as int]);
            }
            rest.remove(0);
            start = start + 1;
            proof {
                assert(rest@ =~= old_rest.subrange(1, old_rest.len() as int));
                assert forall|k: int| 0 <= k < rest@.len() implies transactions_view(rest@)[k]
                    == listing.subrange(start as int, listing.len() as int)[k] by {
                    assert(transactions_view(old_rest)[k + 1] == listing.subrange(
                        start - 1,
                        listing.len() as int,
                    )[k + 1]);
                }
                assert(transactions_view(rest@) =~= listing.subrange(start as int, listing.len() as int));
            }
        }
        proof {
            if rest@.len() > 0 {
                assert(transactions_view(rest@)[0] == listing[start as int]);
                assert forall|i: int| start <= i < listing.len() implies after_cursor(
                    #[trigger] listing[i],
                    cursor@,
                ) by {
                    if i > start {
                        assert(newer(listing[start as int], listing[i]));
                    }
                }
            }
        }
    }
    let has_more = rest.len() > request.limit;
    let ghost kept = transactions_view(rest@);
    rest.truncate(request.limit);
    let next_cursor = if has_more {
        let last = &rest[rest.len() - 1];
        Some(TransactionCursor { occurred_at: last.occurred_at().duplicate(), id: last.id().value() })
    } else {
        None
    };
    proof {
        let end = if listing.len() - start > request.limit {
            start + request.limit
        } else {
            listing.len() as int
        };
        assert(transactions_view(rest@) =~= listing.subrange(start as int, end));
        assert(is_page_from(
            transactions_view(rest@),
            option_cursor_view(next_cursor),
            listing,
            option_cursor_view(request.cursor),
            request.limit as int,
            start as int,
        ));
    }
    Ok(TransactionPage { items: rest, next_cursor })
}


/// In a newest-first listing, a transaction comes after the cursor of another exactly
/// when it is listed later.
proof fn lemma_after_cursor_is_later(listing: Seq<TransactionView>, i: int, k: int)
    requires
        newest_first(listing),
        0 <= i < listing.len(),
        0 <= k < listing.len(),
    ensures
        after_cursor(listing[i], cursor_of(listing[k])) <==> i > k,
{
    if i > k {
        assert(newer(listing[k], listing[i]));
    } else if i < k {
        assert(newer(listing[i], listing[k]));
    }
}

/// Following the cursor that a page hands out gives the next transactions of the same
/// listing: consecutive pages neither overlap nor leave a gap.
pub proof fn law_pages_follow_on(
    listing: Seq<TransactionView>,
    cursor: Option<TransactionCursorView>,
    limit: int,
    first: Seq<TransactionView>,
    next: TransactionCursorView,
    second: Seq<TransactionView>,
    after: Option<TransactionCursorView>,
)
    requires
        newest_first(listing),
        0 < limit,
        is_page_of(first, Some(next), listing, cursor, limit),
        is_page_of(second, after, listing, Some(next), limit),
    ensures
        exists|start: int|
            0 <= start && start + first.len() + second.len() <= listing.len() && #[trigger] listing.subrange(
                start,
                start + first.len() + second.len(),
            ) == first + second,
{
    let s1 = choose|start: int| #[trigger] is_page_from(first, Some(next), listing, cursor, limit, start);
    let s2 = choose|start: int| #[trigger] is_page_from(second, after, listing, Some(next), limit, start);
    let k = s1 + limit - 1;
    assert(listing.len() - s1 > limit);
    assert(first.last() == listing[k]);
    lemma_after_cursor_is_later(listing, k, k);
    lemma_after_cursor_is_later(listing, k + 1, k);
    assert(!after_cursor(listing[k], next));
    assert(after_cursor(listing[k + 1], next));
    assert(s2 == k + 1);
    let end = s1 + first.len() + second.len();
    assert(listing.subrange(s1, end) =~= first + second);
}

proof fn lemma_sorted_same_members(a: Seq<TransactionView>, b: Seq<TransactionView>)
    requires
        newest_first(a),
        newest_first(b),
        forall|x: TransactionView| a.contains(x) <==> b.contains(x),
    ensures
        a == b,
    decreases a.len(),
{
    if a.len() == 0 {
        if b.len() > 0 {
            assert(b.contains(b[0]));
        }
        assert(a =~= b);
    } else {
        assert(a.contains(a[0]));
        assert(b.len() > 0);
        assert(b.contains(b[0]));
        let i = choose|i: int| 0 <= i < a.len() && a[i] == b[0];
        let j = choose|j: int| 0 <= j < b.len() && b[j] == a[0];
        if i > 0 {
            assert(newer(a[0], a[i]));
            if j > 0 {
                assert(newer(b[0], b[j]));
            }
        }
        assert(a[0] == b[0]);
        let ra = a.drop_first();
        let rb = b.drop_first();
        assert forall|x: TransactionView| ra.contains(x) <==> rb.contains(x) by {
            if ra.contains(x) {
                let p = choose|p: int| 0 <= p < ra.len() && ra[p] == x;
                assert(a[p + 1] == x);
                assert(newer(a[0], a[p + 1]));
                assert(b.contains(x));
                let q = choose|q: int| 0 <= q < b.len() && b[q] == x;
                assert(q != 0);
                assert(rb[q - 1] == x);
            }
            if rb.contains(x) {
                let p = choose|p: int| 0 <= p < rb.len() && rb[p] == x;
                assert(b[p + 1] == x);
                assert(newer(b[0], b[p + 1]));
                assert(a.contains(x));
                let q = choose|q: int| 0 <= q < a.len() && a[q] == x;
                assert(q != 0);
                assert(ra[q - 1] == x);
            }
        }
        assert(newest_first(ra)) by {
            assert forall|p: int, q: int| 0 <= p < q < ra.len() implies newer(#[trigger] ra[p], #[trigger] ra[q]) by {
                assert(ra[p] == a[p + 1] && ra[q] == a[q + 1]);
            }
        }
        assert(newest_first(rb)) by {
            assert forall|p: int, q: int| 0 <= p < q < rb.len() implies newer(#[trigger] rb[p], #[trigger] rb[q]) by {
                assert(rb[p] == b[p + 1] && rb[q] == b[q + 1]);
            }
        }
        lemma_sorted_same_members(ra, rb);
        assert(a =~= seq![a[0]] + ra);
        assert(b =~= seq![b[0]] + rb);
    }
}

/// The items of pages joined in order.
pub open spec fn joined_pages(pages: Seq<(Seq<TransactionView>, Option<TransactionCursorView>)>) -> Seq<
    TransactionView,
>
    decreases pages.len(),
{
    if pages.len() == 0 {
        Seq::empty()
    } else {
        joined_pages(pages.drop_last()) + pages.last().0
    }
}

/// Whether pages are what paging through a listing gives: the first page has no cursor,
/// each further page follows the cursor that the page before handed out, and the last
/// page hands out none.
pub open spec fn pages_through(
    listing: Seq<TransactionView>,
    limit: int,
    pages: Seq<(Seq<TransactionView>, Option<TransactionCursorView>)>,
) -> bool {
    &&& pages.len() > 0
    &&& is_page_of(pages[0].0, pages[0].1, listing, None, limit)
    &&& forall|i: int|
        0 <= i < pages.len() - 1 ==> (#[trigger] pages[i]).1 is Some && is_page_of(
            pages[i + 1].0,
            pages[i + 1].1,
            listing,
            pages[i].1,
            limit,
        )
    &&& pages.last().1 is None
}

proof fn lemma_pages_prefix(
    listing: Seq<TransactionView>,
    limit: int,
    pages: Seq<(Seq<TransactionView>, Option<TransactionCursorView>)>,
    j: int,
)
    requires
        newest_first(listing),
        0 < limit,
        pages_through(listing, limit, pages),
        0 <= j < pages.len(),
    ensures
        joined_pages(pages.subrange(0, j)).len() <= listing.len(),
        joined_pages(pages.subrange(0, j)) == listing.subrange(0, joined_pages(pages.subrange(0, j)).len() as int),
        is_page_from(
            pages[j].0,
            pages[j].1,
            listing,
            if j == 0 {
                None
            } else {
                pages[j - 1].1
            },
            limit,
            joined_pages(pages.subrange(0, j)).len() as int,
        ),
        forall|i: int| 0 <= i < j ==> (#[trigger] pages[i]).0.len() == limit,
    decreases j,
{
    if j == 0 {
        assert(pages.subrange(0, 0) =~= Seq::<(Seq<TransactionView>, Option<TransactionCursorView>)>::empty());
        let start = choose|start: int| #[trigger] is_page_from(pages[0].0, pages[0].1, listing, None, limit, start);
        if start > 0 {
            assert(listing.len() > 0);
            let first = listing[0];
            assert(0 >= start);
        }
        assert(listing.subrange(0, 0) =~= Seq::<TransactionView>::empty());
    } else {
        lemma_pages_prefix(listing, limit, pages, j - 1);
        let before = pages.subrange(0, j - 1);
        let t = joined_pages(before).len() as int;
        let page = pages[j - 1];
        let cursor = page.1;
        assert(cursor is Some);
        let previous = if j - 1 == 0 {
            None
        } else {
            pages[j - 2].1
        };
        assert(is_page_from(page.0, page.1, listing, previous, limit, t));
        assert(listing.len() - t > limit);
        let k = t + limit - 1;
        assert(page.0 == listing.subrange(t, t + limit));
        assert(page.0.last() == listing[k]);
        assert(is_page_of(pages[j].0, pages[j].1, listing, cursor, limit));
        let s = choose|start: int| #[trigger] is_page_from(pages[j].0, pages[j].1, listing, cursor, limit, start);
        lemma_after_cursor_is_later(listing, k, k);
        lemma_after_cursor_is_later(listing, k + 1, k);
        assert(cursor == Some(cursor_of(listing[k])));
        assert(!after_cursor(listing[k], cursor_of(listing[k])));
        assert(after_cursor(listing[k + 1], cursor_of(listing[k])));
        assert(s == k + 1);
        let now = pages.subrange(0, j);
        assert(now.drop_last() =~= before);
        assert(now.last() == page);
        assert(joined_pages(now) == joined_pages(before) + page.0);
        assert(joined_pages(now) =~= listing.subrange(0, t + limit));
        assert forall|i: int| 0 <= i < j implies (#[trigger] pages[i]).0.len() == limit by {
            if i == j - 1 {
                assert(page.0.len() == limit);
            }
        }
    }
}

/// Paging through the transactions of an account, from no cursor until no cursor is
/// handed out, gives the whole listing in order: every page but the last holds exactly
/// `limit` transactions.
pub proof fn law_paging_gives_the_listing(
    listing: Seq<TransactionView>,
    limit: int,
    pages: Seq<(Seq<TransactionView>, Option<TransactionCursorView>)>,
)
    requires
        newest_first(listing),
        0 < limit,
        pages_through(listing, limit, pages),
    ensures
        joined_pages(pages) == listing,
        forall|i: int| 0 <= i < pages.len() - 1 ==> (#[trigger] pages[i]).0.len() == limit,
{
    let n = pages.len() as int;
    lemma_pages_prefix(listing, limit, pages, n - 1);
    let before = pages.subrange(0, n - 1);
    let t = joined_pages(before).len() as int;
    let last = pages[n - 1];
    assert(last.1 is None);
    assert(listing.len() - t <= limit);
    assert(last.0 == listing.subrange(t, listing.len() as int));
    assert(pages.drop_last() =~= before);
    assert(joined_pages(pages) =~= listing);
}

/// The filtered transactions of an account have one newest-first listing only, so every
/// listing of an unchanged store, and every page cut from it, is the same.
pub proof fn law_listing_is_unique(
    a: Seq<TransactionView>,
    b: Seq<TransactionView>,
    stored: Map<TransactionId, TransactionView>,
    account: AccountId,
    filter: TransactionFilterView,
)
    requires
        lists_matching(a, stored, account, filter),
        lists_matching(b, stored, account, filter),
    ensures
        a == b,
{
    assert forall|x: TransactionView| a.contains(x) <==> b.contains(x) by {
        if a.contains(x) {
            let i = choose|i: int| 0 <= i < a.len() && a[i] == x;
            assert(stored.contains_key(a[i].id));
            let j = choose|j: int| 0 <= j < b.len() && (#[trigger] b[j]).id == x.id;
            assert(b[j] == x);
        }
        if b.contains(x) {
            let i = choose|i: int| 0 <= i < b.len() && b[i] == x;
            assert(stored.contains_key(b[i].id));
            let j = choose|j: int| 0 <= j < a.len() && (#[trigger] a[j]).id == x.id;
            assert(a[j] == x);
        }
    }
    lemma_sorted_same_members(a, b);
}

} // verus!
