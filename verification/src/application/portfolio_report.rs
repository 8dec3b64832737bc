use vstd::prelude::*;
use crate::domain::category_report::{
    CATEGORY_COUNT, CategoryTotals, category_at, category_at_index, category_index,
    index_of_category, lemma_category_at, lemma_category_index,
};
use crate::domain::money::{Currency, Money, MoneyView, currency_code, fits_i64};
use crate::domain::summary::{
    CashFlowSummary, CashFlowView, SummaryError, SummaryReport, SummaryReportView, cash_flow_outcome,
};
use crate::domain::transaction::{Category, TransactionId, TransactionView};
use crate::domain::account::{Account, AccountId, AccountView};
use crate::domain::time::{ZonedTime, ZonedTimeView};
use crate::application::repository::{
    AccountRepository, TransactionRepository, accounts_view, lists_accounts, lists_transactions_of,
};
use crate::application::ranged_summary::{GetRangedSummaryError, get_ranged_summary, within_range};
use crate::domain::summary::summary_of;
use crate::application::monthly_trend::{
    MonthlyTrend, MonthlyTrendError, get_monthly_trend, month_start, next_month, trend_rows, trend_view,
};
use crate::domain::budget::{BudgetMonth, month_index};

verus! {

/// Cash-flow totals of several reports in one currency, as unbounded integers.
pub struct TotalsView {
    pub income: int,
    pub expense: int,
    pub categories: Map<Category, int>,
}

/// The totals of no report.
pub open spec fn no_totals() -> TotalsView {
    TotalsView { income: 0, expense: 0, categories: Map::empty() }
}

/// The total of a category, zero where there is none.
pub open spec fn category_amount(categories: Map<Category, int>, category: Category) -> int {
    if categories.contains_key(category) {
        categories[category]
    } else {
        0
    }
}

/// Totals after adding one more report: incomes, net expenses and each category's net
/// outflow add up; a category is present when it is present in either.
pub open spec fn add_report(totals: TotalsView, report: SummaryReportView) -> TotalsView {
    TotalsView {
        income: totals.income + report.income_total.minor,
        expense: totals.expense + report.net_expense_total.minor,
        categories: Map::new(
            |category: Category|
                totals.categories.contains_key(category)
                    || report.net_outflow_by_category.contains_key(category),
            |category: Category|
                category_amount(totals.categories, category) + if report.net_outflow_by_category.contains_key(
                    category,
                ) {
                    report.net_outflow_by_category[category].minor
                } else {
                    0
                },
        ),
    }
}

/// The report that totals make in a currency, or `ArithmeticOverflow` when a total does
/// not fit an amount.
pub open spec fn finish_totals(totals: TotalsView, currency: Currency) -> Result<
    SummaryReportView,
    SummaryError,
> {
    if !fits_i64(totals.income) || !fits_i64(totals.expense) {
        Err(SummaryError::ArithmeticOverflow)
    } else {
        match cash_flow_outcome(
            MoneyView { minor: totals.income, currency },
            MoneyView { minor: totals.expense, currency },
        ) {
            Err(error) => Err(error),
            Ok(flow) => if exists|category: Category|
                #[trigger] totals.categories.contains_key(category) && !fits_i64(
                    totals.categories[category],
                ) {
                Err(SummaryError::ArithmeticOverflow)
            } else {
                Ok(
                    SummaryReportView {
                        income_total: flow.income_total,
                        net_expense_total: flow.net_expense_total,
                        net_change: flow.net_change,
                        net_outflow_by_category: Map::new(
                            |category: Category| totals.categories.contains_key(category),
                            |category: Category|
                                MoneyView { minor: totals.categories[category], currency },
                        ),
                    },
                )
            },
        }
    }
}

/// The largest magnitude of one amount.
pub open spec fn amount_bound() -> int {
    0x8000_0000_0000_0000
}

/// Whether every total is within `count` amounts of zero.
pub open spec fn within_bound(totals: TotalsView, count: int) -> bool {
    &&& -count * amount_bound() <= totals.income <= count * amount_bound()
    &&& -count * amount_bound() <= totals.expense <= count * amount_bound()
    &&& forall|category: Category| #[trigger]
        totals.categories.contains_key(category) ==> -count * amount_bound()
            <= totals.categories[category] <= count * amount_bound()
}

/// Running totals of reports in one currency.
struct Totals {
    income: i128,
    expense: i128,
    categories: Vec<Option<i128>>,
}

impl View for Totals {
    type V = TotalsView;

    closed spec fn view(&self) -> TotalsView {
        TotalsView {
            income: self.income as int,
            expense: self.expense as int,
            categories: Map::new(
                |category: Category| self.categories@[category_index(category)] is Some,
                |category: Category| self.categories@[category_index(category)]->Some_0 as int,
            ),
        }
    }
}

impl Totals {
    spec fn well_formed(&self) -> bool {
        self.categories@.len() == CATEGORY_COUNT
    }

    fn new() -> (r: Totals)
        ensures
            r.well_formed(),
            r@ == no_totals(),
    {
        let mut categories: Vec<Option<i128>> = Vec::new();
        let mut i: usize = 0;
        while i < CATEGORY_COUNT
            invariant
                i <= CATEGORY_COUNT,
                categories@.len() == i,
                forall|k: int| 0 <= k < i ==> categories@[k] is None,
            decreases CATEGORY_COUNT - i,
        {
            categories.push(None);
            i = i + 1;
        }
        let r = Totals { income: 0, expense: 0, categories };
        proof {
            assert forall|category: Category| !r@.categories.contains_key(category) by {
                lemma_category_index(category);
            }
            assert(r@.categories =~= Map::<Category, int>::empty());
        }
        r
    }

    fn add(&mut self, report: &SummaryReport, count: Ghost<int>)
        requires
            old(self).well_formed(),
            0 <= count@,
            (count@ + 1) * amount_bound() <= i128::MAX,
            within_bound(old(self)@, count@),
        ensures
            final(self).well_formed(),
            final(self)@ == add_report(old(self)@, report@),
            within_bound(final(self)@, count@ + 1),
    {
        let ghost before = self@;
        let ghost bound = count@ * amount_bound();
        let ghost next_bound = (count@ + 1) * amount_bound();
        proof {
            assert(next_bound == bound + amount_bound()) by (nonlinear_arith)
                requires
                    bound == count@ * amount_bound(),
                    next_bound == (count@ + 1) * amount_bound(),
            ;
        }
        let income = report.income_total().minor_units() as i128;
        let expense = report.net_expense_total().minor_units() as i128;
        let outflows = report.net_outflow_by_category();
        let mut categories: Vec<Option<i128>> = Vec::new();
        let mut k: usize = 0;
        while k < CATEGORY_COUNT
            invariant
                k <= CATEGORY_COUNT,
                self.categories@.len() == CATEGORY_COUNT,
                before == self@,
                outflows@ == report@.net_outflow_by_category,
                next_bound == bound + amount_bound(),
                within_bound(before, count@),
                bound == count@ * amount_bound(),
                next_bound <= i128::MAX,
                0 <= count@,
                categories@.len() == k,
                forall|j: int|
                    0 <= j < k ==> (#[trigger] categories@[j] is Some) == (before.categories.contains_key(
                        category_at(j),
                    ) || outflows@.contains_key(category_at(j))),
                forall|j: int|
                    0 <= j < k ==> (#[trigger] categories@[j] is Some ==> categories@[j]->Some_0 as int
                        == category_amount(before.categories, category_at(j)) + if outflows@.contains_key(
                        category_at(j),
                    ) {
                        outflows@[category_at(j)].minor
                    } else {
                        0
                    }),
                forall|j: int|
                    0 <= j < k ==> (#[trigger] categories@[j] matches Some(value) ==> -next_bound <= value
                        <= next_bound),
            decreases CATEGORY_COUNT - k,
        {
            let category = category_at_index(k);
            proof {
                lemma_category_at(k as int);
                assert(category_index(category) == k);
                assert(before.categories.contains_key(category) == (self.categories@[k as int] is Some));
                if self.categories@[k as int] is Some {
                    assert(before.categories[category] == self.categories@[k as int]->Some_0 as int);
                    assert(-bound <= before.categories[category] <= bound);
                }
            }
            let current = self.categories[k];
            let added = outflows.get(category);
            let ghost formula = category_amount(before.categories, category) + if outflows@.contains_key(category) {
                outflows@[category].minor
            } else {
                0
            };
            let slot = match (current, added) {
                (None, None) => None,
                (Some(value), None) => Some(value),
                (None, Some(amount)) => Some(amount.minor_units() as i128),
                (Some(value), Some(amount)) => Some(value + amount.minor_units() as i128),
            };
            proof {
                if slot is Some {
                    assert(-next_bound <= formula <= next_bound);
                    assert(slot->Some_0 as int == formula);
                }
            }
            categories.push(slot);
            k = k + 1;
        }
        self.income = self.income + income;
        self.expense = self.expense + expense;
        self.categories = categories;
        proof {
            let expected = add_report(before, report@);
            assert forall|category: Category| #[trigger] self@.categories.contains_key(category)
                == expected.categories.contains_key(category) by {
                lemma_category_index(category);
            }
            assert forall|category: Category| #[trigger] self@.categories.contains_key(category)
                implies self@.categories[category] == expected.categories[category] by {
                lemma_category_index(category);
            }
            assert(self@.categories =~= expected.categories);
            assert forall|category: Category| #[trigger] self@.categories.contains_key(category)
                implies -next_bound <= self@.categories[category] <= next_bound by {
                lemma_category_index(category);
            }
        }
    }

    fn finish(&self, currency: Currency) -> (r: Result<SummaryReport, SummaryError>)
        requires
            self.well_formed(),
        ensures
            match r {
                Ok(report) => finish_totals(self@, currency) == Ok::<SummaryReportView, SummaryError>(
                    report@,
                ),
                Err(error) => finish_totals(self@, currency) == Err::<SummaryReportView, SummaryError>(
                    error,
                ),
            },
    {
        if self.income < -9223372036854775808i128 || self.income > 9223372036854775807i128
            || self.expense < -9223372036854775808i128 || self.expense > 9223372036854775807i128 {
            return Err(SummaryError::ArithmeticOverflow);
        }
        let flow = CashFlowSummary::new(
            Money::from_minor_units(self.income as i64, currency),
            Money::from_minor_units(self.expense as i64, currency),
        )?;
        let mut totals = CategoryTotals::new();
        let mut k: usize = 0;
        while k < CATEGORY_COUNT
            invariant
                k <= CATEGORY_COUNT,
                self.well_formed(),
                forall|j: int| 0 <= j < k ==> (#[trigger] self.categories@[j] matches Some(value) ==> fits_i64(value as int)),
                totals@ == Map::new(
                    |category: Category| category_index(category) < k && self.categories@[category_index(category)] is Some,
                    |category: Category| MoneyView { minor: self.categories@[category_index(category)]->Some_0 as int, currency },
                ),
            decreases CATEGORY_COUNT - k,
        {
            let category = category_at_index(k);
            proof {
                lemma_category_at(k as int);
            }
            let ghost before = totals@;
            if let Some(value) = self.categories[k] {
                if value < -9223372036854775808i128 || value > 9223372036854775807i128 {
                    proof {
                        assert(self@.categories.contains_key(category));
                        assert(!fits_i64(self@.categories[category]));
                    }
                    return Err(SummaryError::ArithmeticOverflow);
                }
                totals.set(category, Money::from_minor_units(value as i64, currency));
            }
            k = k + 1;
            proof {
                assert forall|c: Category| #[trigger] totals@.contains_key(c) == (category_index(c) < k
                    && self.categories@[category_index(c)] is Some) by {
                    lemma_category_index(c);
                }
                assert(totals@ =~= Map::new(
                    |c: Category| category_index(c) < k && self.categories@[category_index(c)] is Some,
                    |c: Category| MoneyView { minor: self.categories@[category_index(c)]->Some_0 as int, currency },
                ));
            }
        }
        proof {
            assert forall|category: Category| #[trigger] self@.categories.contains_key(category)
                implies fits_i64(self@.categories[category]) by {
                lemma_category_index(category);
            }
            assert(totals@ =~= Map::new(
                |category: Category| self@.categories.contains_key(category),
                |category: Category| MoneyView { minor: self@.categories[category], currency },
            ));
        }
        Ok(SummaryReport::new(flow, totals))
    }
}


/// The position of a currency's code in alphabetical order, which is the order in which
/// portfolio reports list currencies.
pub open spec fn code_rank(currency: Currency) -> int {
    match currency {
        Currency::Cny => 0,
        Currency::Eur => 1,
        Currency::Hkd => 2,
        Currency::Myr => 3,
        Currency::Usd => 4,
    }
}

/// The currency at a position in alphabetical order of the codes.
pub open spec fn currency_ranked(rank: int) -> Currency {
    if rank == 0 {
        Currency::Cny
    } else if rank == 1 {
        Currency::Eur
    } else if rank == 2 {
        Currency::Hkd
    } else if rank == 3 {
        Currency::Myr
    } else {
        Currency::Usd
    }
}

fn currency_at_rank(rank: usize) -> (r: Currency)
    requires
        rank < 5,
    ensures
        r == currency_ranked(rank as int),
        code_rank(r) == rank,
{
    if rank == 0 {
        Currency::Cny
    } else if rank == 1 {
        Currency::Eur
    } else if rank == 2 {
        Currency::Hkd
    } else if rank == 3 {
        Currency::Myr
    } else {
        Currency::Usd
    }
}

/// The totals of the reports in a currency, in order.
pub open spec fn group_totals(reports: Seq<(Currency, SummaryReportView)>, currency: Currency) -> TotalsView
    decreases reports.len(),
{
    if reports.len() == 0 {
        no_totals()
    } else {
        let totals = group_totals(reports.drop_last(), currency);
        if reports.last().0 == currency {
            add_report(totals, reports.last().1)
        } else {
            totals
        }
    }
}

/// Whether some report is in a currency.
pub open spec fn has_currency(reports: Seq<(Currency, SummaryReportView)>, currency: Currency) -> bool {
    exists|i: int| 0 <= i < reports.len() && (#[trigger] reports[i]).0 == currency
}

/// The combined reports of the first `count` currencies in code order that occur.
pub open spec fn groups_upto(reports: Seq<(Currency, SummaryReportView)>, count: int) -> Result<
    Seq<(Seq<char>, SummaryReportView)>,
    SummaryError,
>
    decreases count,
{
    if count <= 0 {
        Ok(Seq::empty())
    } else {
        match groups_upto(reports, count - 1) {
            Err(error) => Err(error),
            Ok(done) => {
                let currency = currency_ranked(count - 1);
                if has_currency(reports, currency) {
                    match finish_totals(group_totals(reports, currency), currency) {
                        Err(error) => Err(error),
                        Ok(report) => Ok(done.push((currency_code(currency), report))),
                    }
                } else {
                    Ok(done)
                }
            },
        }
    }
}

/// One combined report per currency that occurs, in alphabetical order of the codes:
/// incomes, net expenses and category outflows of the reports in that currency add up.
pub open spec fn portfolio_groups(reports: Seq<(Currency, SummaryReportView)>) -> Result<
    Seq<(Seq<char>, SummaryReportView)>,
    SummaryError,
> {
    groups_upto(reports, 5)
}

pub open spec fn reports_view(reports: Seq<(Currency, SummaryReport)>) -> Seq<(Currency, SummaryReportView)> {
    reports.map_values(|report: (Currency, SummaryReport)| (report.0, report.1@))
}

pub open spec fn groups_view(groups: Seq<(String, SummaryReport)>) -> Seq<(Seq<char>, SummaryReportView)> {
    groups.map_values(|group: (String, SummaryReport)| (group.0@, group.1@))
}

/// Combines reports per currency.
pub fn combine_reports(reports: &Vec<(Currency, SummaryReport)>) -> (r: Result<
    Vec<(String, SummaryReport)>,
    SummaryError,
>)
    ensures
        match r {
            Ok(groups) => portfolio_groups(reports_view(reports@)) == Ok::<
                Seq<(Seq<char>, SummaryReportView)>,
                SummaryError,
            >(groups_view(groups@)),
            Err(error) => portfolio_groups(reports_view(reports@)) == Err::<
                Seq<(Seq<char>, SummaryReportView)>,
                SummaryError,
            >(error),
        },
{
    let ghost all = reports_view(reports@);
    let mut groups: Vec<(String, SummaryReport)> = Vec::new();
    let mut rank: usize = 0;
    proof {
        assert(groups_view(groups@) =~= Seq::<(Seq<char>, SummaryReportView)>::empty());
    }
    while rank < 5
        invariant
            rank <= 5,
            all == reports_view(reports@),
            groups_upto(all, rank as int) == Ok::<Seq<(Seq<char>, SummaryReportView)>, SummaryError>(
                groups_view(groups@),
            ),
        decreases 5 - rank,
    {
        let currency = currency_at_rank(rank);
        let mut totals = Totals::new();
        let mut present = false;
        let mut j: usize = 0;
        let ghost mut count: int = 0;
        proof {
            assert(all.subrange(0, 0) =~= Seq::<(Currency, SummaryReportView)>::empty());
        }
        while j < reports.len()
            invariant
                j <= reports@.len(),
                all == reports_view(reports@),
                totals.well_formed(),
                totals@ == group_totals(all.subrange(0, j as int), currency),
                present == exists|i: int| 0 <= i < j && (#[trigger] all[i]).0 == currency,
                0 <= count <= j,
                within_bound(totals@, count),
            decreases reports@.len() - j,
        {
            proof {
                let prefix = all.subrange(0, j + 1);
                assert(prefix.drop_last() =~= all.subrange(0, j as int));
                assert(prefix.last() == all[j as int]);
                assert(all[j as int] == (reports@[j as int].0, reports@[j as int].1@));
                assert((count + 1) * amount_bound() <= i128::MAX) by (nonlinear_arith)
                    requires
                        count + 1 <= usize::MAX,
                        amount_bound() == 0x8000_0000_0000_0000,
                ;
            }
            if reports[j].0 == currency {
                totals.add(&reports[j].1, Ghost(count));
                present = true;
                proof {
                    count = count + 1;
                }
            }
            j = j + 1;
        }
        proof {
            assert(all.subrange(0, j as int) =~= all);
        }
        let ghost before = groups_view(groups@);
        if present {
            match totals.finish(currency) {
                Ok(report) => {
                    groups.push((String::from_str(currency.code()), report));
                    proof {
                        assert(groups_view(groups@) =~= before.push((currency_code(currency), report@)));
                    }
                },
                Err(error) => {
                    proof {
                        lemma_groups_error_persists(all, rank as int + 1, error);
                    }
                    return Err(error);
                },
            }
        }
        rank = rank + 1;
    }
    Ok(groups)
}

proof fn lemma_groups_error_persists(reports: Seq<(Currency, SummaryReportView)>, count: int, error: SummaryError)
    requires
        0 <= count <= 5,
        groups_upto(reports, count) == Err::<Seq<(Seq<char>, SummaryReportView)>, SummaryError>(error),
    ensures
        groups_upto(reports, 5) == Err::<Seq<(Seq<char>, SummaryReportView)>, SummaryError>(error),
    decreases 5 - count,
{
    if count < 5 {
        lemma_groups_error_persists(reports, count + 1, error);
    }
}


/// Which accounts a portfolio report covers.
#[derive(Debug, Clone, PartialEq, Eq)]
pub enum ReportScope {
    All,
    /// Duplicate identifiers count once; an empty selection produces no currency groups.
    Accounts(Vec<AccountId>),
}

pub enum ReportScopeView {
    All,
    Accounts(Seq<AccountId>),
}

impl View for ReportScope {
    type V = ReportScopeView;

    open spec fn view(&self) -> ReportScopeView {
        match self {
            ReportScope::All => ReportScopeView::All,
            ReportScope::Accounts(ids) => ReportScopeView::Accounts(ids@),
        }
    }
}

/// Identifiers in order, each kept at its first occurrence.
pub open spec fn distinct_ids(ids: Seq<AccountId>) -> Seq<AccountId>
    decreases ids.len(),
{
    if ids.len() == 0 {
        Seq::empty()
    } else {
        let done = distinct_ids(ids.drop_last());
        if done.contains(ids.last()) {
            done
        } else {
            done.push(ids.last())
        }
    }
}

/// Whether accounts are the ones a scope selects: every stored account in no particular
/// order, or the listed accounts in order, each once.
pub open spec fn selects(selected: Seq<AccountView>, scope: ReportScopeView, stored: Map<AccountId, AccountView>) -> bool {
    match scope {
        ReportScopeView::All => lists_accounts(selected, stored),
        ReportScopeView::Accounts(ids) => {
            let wanted = distinct_ids(ids);
            &&& selected.len() == wanted.len()
            &&& forall|k: int|
                0 <= k < wanted.len() ==> stored.contains_key(#[trigger] wanted[k]) && selected[k]
                    == stored[wanted[k]] && selected[k].id == wanted[k]
        },
    }
}

proof fn lemma_distinct_ids(ids: Seq<AccountId>)
    ensures
        forall|x: AccountId| distinct_ids(ids).contains(x) <==> ids.contains(x),
        forall|i: int, j: int|
            0 <= i < j < distinct_ids(ids).len() ==> #[trigger] distinct_ids(ids)[i] != #[trigger] distinct_ids(
                ids,
            )[j],
    decreases ids.len(),
{
    if ids.len() > 0 {
        let rest = ids.drop_last();
        let last = ids.last();
        let done = distinct_ids(rest);
        let all = distinct_ids(ids);
        lemma_distinct_ids(rest);
        assert forall|x: AccountId| all.contains(x) <==> ids.contains(x) by {
            if ids.contains(x) {
                let k = choose|k: int| 0 <= k < ids.len() && ids[k] == x;
                if k < rest.len() {
                    assert(rest[k] == x);
                    assert(rest.contains(x));
                }
            }
            if rest.contains(x) {
                let k = choose|k: int| 0 <= k < rest.len() && rest[k] == x;
                assert(ids[k] == x);
            }
            if x == last {
                assert(ids[ids.len() - 1] == x);
            }
            if done.contains(last) {
                assert(all == done);
                if x == last {
                    assert(rest.contains(x));
                }
            } else {
                assert(all == done.push(last));
                if all.contains(x) {
                    let k = choose|k: int| 0 <= k < all.len() && all[k] == x;
                    if k < done.len() {
                        assert(done[k] == x);
                    }
                }
                if done.contains(x) {
                    let k = choose|k: int| 0 <= k < done.len() && done[k] == x;
                    assert(all[k] == x);
                }
                if x == last {
                    assert(all[done.len() as int] == x);
                }
            }
        }
        if !done.contains(last) {
            assert forall|i: int, j: int| 0 <= i < j < all.len() implies #[trigger] all[i] != #[trigger] all[j] by {
                if j == done.len() {
                    assert(all[i] == done[i]);
                    assert(done.contains(done[i]));
                } else {
                    assert(all[i] == done[i] && all[j] == done[j]);
                }
            }
        }
    }
}

proof fn lemma_distinct_ids_of_distinct(ids: Seq<AccountId>)
    requires
        forall|i: int, j: int| 0 <= i < j < ids.len() ==> #[trigger] ids[i] != #[trigger] ids[j],
    ensures
        distinct_ids(ids) == ids,
    decreases ids.len(),
{
    if ids.len() > 0 {
        let rest = ids.drop_last();
        assert forall|i: int, j: int| 0 <= i < j < rest.len() implies #[trigger] rest[i] != #[trigger] rest[j] by {
            assert(rest[i] == ids[i] && rest[j] == ids[j]);
        }
        lemma_distinct_ids_of_distinct(rest);
        if rest.contains(ids.last()) {
            let k = choose|k: int| 0 <= k < rest.len() && rest[k] == ids.last();
            assert(ids[k] == ids[ids.len() - 1]);
        }
        assert(rest.push(ids.last()) =~= ids);
    }
}

/// An account named more than once in a scope is selected once: the scope selects what
/// the scope of its distinct identifiers selects, and no account twice.
pub proof fn law_repeated_ids_select_once(
    ids: Seq<AccountId>,
    selected: Seq<AccountView>,
    stored: Map<AccountId, AccountView>,
)
    ensures
        selects(selected, ReportScopeView::Accounts(ids), stored) == selects(
            selected,
            ReportScopeView::Accounts(distinct_ids(ids)),
            stored,
        ),
        selects(selected, ReportScopeView::Accounts(ids), stored) ==> forall|i: int, j: int|
            0 <= i < j < selected.len() ==> (#[trigger] selected[i]).id != (#[trigger] selected[j]).id,
{
    lemma_distinct_ids(ids);
    lemma_distinct_ids_of_distinct(distinct_ids(ids));
    if selects(selected, ReportScopeView::Accounts(ids), stored) {
        let wanted = distinct_ids(ids);
        assert forall|i: int, j: int| 0 <= i < j < selected.len() implies (#[trigger] selected[i]).id != (
        #[trigger] selected[j]).id by {
            assert(selected[i].id == wanted[i] && selected[j].id == wanted[j]);
        }
    }
}

/// Whether the `k`-th wanted identifier is `id`, is not stored, and every earlier one is.
pub open spec fn missing_at(wanted: Seq<AccountId>, k: int, id: AccountId, stored: Map<AccountId, AccountView>) -> bool {
    &&& 0 <= k < wanted.len()
    &&& wanted[k] == id
    &&& !stored.contains_key(id)
    &&& forall|t: int| 0 <= t < k ==> stored.contains_key(#[trigger] wanted[t])
}

/// Whether an identifier is the first of a list that is not stored.
pub open spec fn first_missing_in(id: AccountId, ids: Seq<AccountId>, stored: Map<AccountId, AccountView>) -> bool {
    exists|k: int| #[trigger] missing_at(distinct_ids(ids), k, id, stored)
}

/// Whether an identifier is the first listed one that is not stored.
pub open spec fn first_missing(id: AccountId, scope: ReportScopeView, stored: Map<AccountId, AccountView>) -> bool {
    scope matches ReportScopeView::Accounts(ids) && first_missing_in(id, ids, stored)
}

proof fn lemma_distinct_step(ids: Seq<AccountId>, i: int)
    requires
        0 <= i < ids.len(),
    ensures
        distinct_ids(ids.subrange(0, i + 1)) == if distinct_ids(ids.subrange(0, i)).contains(ids[i]) {
            distinct_ids(ids.subrange(0, i))
        } else {
            distinct_ids(ids.subrange(0, i)).push(ids[i])
        },
{
    assert(ids.subrange(0, i + 1).drop_last() =~= ids.subrange(0, i));
}

/// The accounts a scope selects.
pub fn selected_accounts<A: AccountRepository>(accounts: &A, scope: &ReportScope) -> (r: Result<
    Vec<Account>,
    GetRangedSummaryError,
>)
    ensures
        match r {
            Ok(selected) => selects(accounts_view(selected@), scope@, accounts.accounts()),
            Err(GetRangedSummaryError::AccountNotFound(id)) => first_missing(id, scope@, accounts.accounts()),
            Err(GetRangedSummaryError::Repository(_)) => true,
            Err(_) => false,
        },
{
    match scope {
        ReportScope::All => match accounts.find_all() {
            Ok(found) => Ok(found),
            Err(error) => Err(GetRangedSummaryError::Repository(error)),
        },
        ReportScope::Accounts(ids) => {
            let ghost stored = accounts.accounts();
            let mut seen: Vec<AccountId> = Vec::new();
            let mut selected: Vec<Account> = Vec::new();
            let mut i: usize = 0;
            proof {
                assert(ids@.subrange(0, 0) =~= Seq::<AccountId>::empty());
            }
            while i < ids.len()
                invariant
                    i <= ids@.len(),
                    stored == accounts.accounts(),
                    seen@ == distinct_ids(ids@.subrange(0, i as int)),
                    selected@.len() == seen@.len(),
                    forall|k: int|
                        0 <= k < seen@.len() ==> stored.contains_key(#[trigger] seen@[k])
                            && selected@[k]@ == stored[seen@[k]] && selected@[k]@.id == seen@[k],
                    scope@ == ReportScopeView::Accounts(ids@),
                decreases ids@.len() - i,
            {
                let id = ids[i];
                proof {
                    lemma_distinct_step(ids@, i as int);
                }
                let mut known = false;
                let mut t: usize = 0;
                while t < seen.len()
                    invariant
                        t <= seen@.len(),
                        known == exists|u: int| 0 <= u < t && seen@[u] == id,
                    decreases seen@.len() - t,
                {
                    if seen[t] == id {
                        known = true;
                    }
                    t = t + 1;
                }
                if !known {
                    match accounts.find_by_id(id) {
                        Ok(Some(account)) => {
                            seen.push(id);
                            selected.push(account);
                        },
                        Ok(None) => {
                            proof {
                                let wanted = distinct_ids(ids@);
                                lemma_distinct_prefix(ids@, i + 1);
                                let k = seen@.len() as int;
                                assert(distinct_ids(ids@.subrange(0, i + 1)) == seen@.push(id));
                                assert(wanted[k] == id);
                                assert forall|u: int| 0 <= u < k implies stored.contains_key(#[trigger] wanted[u]) by {
                                    assert(wanted[u] == seen@[u]);
                                }
                                assert(scope@ == ReportScopeView::Accounts(ids@));
                                assert(k < wanted.len());
                                assert(!stored.contains_key(id));
                                assert(missing_at(wanted, k, id, stored));
                                assert(wanted == distinct_ids(ids@));
                                assert(missing_at(distinct_ids(ids@), k, id, stored));
                                assert(first_missing_in(id, ids@, stored));
                            }
                            return Err(GetRangedSummaryError::AccountNotFound(id));
                        },
                        Err(error) => return Err(GetRangedSummaryError::Repository(error)),
                    }
                }
                i = i + 1;
            }
            proof {
                assert(ids@.subrange(0, i as int) =~= ids@);
                assert forall|k: int| 0 <= k < seen@.len() implies accounts_view(selected@)[k] == stored[seen@[k]]
                    && accounts_view(selected@)[k].id == seen@[k] by {}
            }
            Ok(selected)
        },
    }
}

proof fn lemma_distinct_prefix(ids: Seq<AccountId>, i: int)
    requires
        0 <= i <= ids.len(),
    ensures
        distinct_ids(ids.subrange(0, i)).len() <= distinct_ids(ids).len(),
        forall|k: int|
            0 <= k < distinct_ids(ids.subrange(0, i)).len() ==> #[trigger] distinct_ids(ids)[k]
                == distinct_ids(ids.subrange(0, i))[k],
    decreases ids.len() - i,
{
    if i < ids.len() {
        lemma_distinct_prefix(ids, i + 1);
        lemma_distinct_step(ids, i);
    } else {
        assert(ids.subrange(0, i) =~= ids);
    }
}

/// Whether a report is what the stored transactions of an account between two times
/// give, in some listing order.
pub open spec fn explains_ranged(
    report: SummaryReportView,
    accounts: Map<AccountId, AccountView>,
    transactions: Map<TransactionId, TransactionView>,
    account_id: AccountId,
    from: ZonedTimeView,
    to: ZonedTimeView,
) -> bool {
    exists|listed: Seq<TransactionView>|
        lists_transactions_of(listed, transactions, account_id) && #[trigger] summary_of(
            accounts[account_id],
            within_range(listed, from, to),
        ) == Ok::<SummaryReportView, SummaryError>(report)
}

/// Whether reports are those of the selected accounts, with their currencies.
pub open spec fn reports_of(
    reports: Seq<(Currency, SummaryReportView)>,
    selected: Seq<AccountView>,
    accounts: Map<AccountId, AccountView>,
    transactions: Map<TransactionId, TransactionView>,
    from: ZonedTimeView,
    to: ZonedTimeView,
) -> bool {
    &&& reports.len() == selected.len()
    &&& forall|k: int|
        0 <= k < reports.len() ==> (#[trigger] reports[k]).0 == selected[k].currency && explains_ranged(
            reports[k].1,
            accounts,
            transactions,
            selected[k].id,
            from,
            to,
        )
}

/// Transaction cash flow of the accounts of a scope between two times, combined per
/// currency in alphabetical order of the codes; transfers and balance adjustments do not
/// count.
pub fn get_portfolio_summary<A: AccountRepository, T: TransactionRepository>(
    accounts: &A,
    transactions: &T,
    scope: &ReportScope,
    from: ZonedTime,
    to: ZonedTime,
) -> (r: Result<Vec<(String, SummaryReport)>, GetRangedSummaryError>)
    ensures
        match r {
            Ok(groups) => from@.instant < to@.instant && exists|
                selected: Seq<AccountView>,
                reports: Seq<(Currency, SummaryReportView)>,
            |
                selects(selected, scope@, accounts.accounts()) && #[trigger] reports_of(
                    reports,
                    selected,
                    accounts.accounts(),
                    transactions.transactions(),
                    from@,
                    to@,
                ) && portfolio_groups(reports) == Ok::<Seq<(Seq<char>, SummaryReportView)>, SummaryError>(
                    groups_view(groups@),
                ),
            Err(GetRangedSummaryError::InvalidTimeRange { from: start, to: end }) => from@.instant
                >= to@.instant && start@ == from@ && end@ == to@,
            Err(GetRangedSummaryError::AccountNotFound(id)) => from@.instant < to@.instant
                && first_missing(id, scope@, accounts.accounts()),
            Err(GetRangedSummaryError::Repository(_)) => from@.instant < to@.instant,
            Err(GetRangedSummaryError::Summary(_)) => from@.instant < to@.instant,
        },
{
    if !from.is_before(&to) {
        return Err(GetRangedSummaryError::InvalidTimeRange { from, to });
    }
    let selected = match selected_accounts(accounts, scope) {
        Ok(selected) => selected,
        Err(error) => return Err(error),
    };
    let ghost chosen = accounts_view(selected@);
    let mut reports: Vec<(Currency, SummaryReport)> = Vec::new();
    let mut i: usize = 0;
    while i < selected.len()
        invariant
            i <= selected@.len(),
            from@.instant < to@.instant,
            chosen == accounts_view(selected@),
            selects(chosen, scope@, accounts.accounts()),
            reports_of(
                reports_view(reports@),
                chosen.subrange(0, i as int),
                accounts.accounts(),
                transactions.transactions(),
                from@,
                to@,
            ),
        decreases selected@.len() - i,
    {
        let account = &selected[i];
        proof {
            assert(chosen[i as int] == account@);
            if scope@ is All {
                assert(accounts.accounts().contains_key(chosen[i as int].id));
            } else {
                let wanted = distinct_ids(scope@->Accounts_0);
                assert(accounts.accounts().contains_key(wanted[i as int]));
                assert(chosen[i as int].id == wanted[i as int]);
            }
        }
        let report = match get_ranged_summary(
            accounts,
            transactions,
            account.id(),
            from.duplicate(),
            to.duplicate(),
        ) {
            Ok(report) => report,
            Err(error) => return Err(error),
        };
        let ghost before = reports_view(reports@);
        reports.push((account.currency(), report));
        proof {
            let now = reports_view(reports@);
            assert(now =~= before.push((account@.currency, report@)));
            let prefix = chosen.subrange(0, i + 1);
            assert forall|k: int| 0 <= k < now.len() implies (#[trigger] now[k]).0 == prefix[k].currency
                && explains_ranged(now[k].1, accounts.accounts(), transactions.transactions(), prefix[k].id, from@, to@) by {
                if k < i {
                    assert(now[k] == before[k]);
                    assert(prefix[k] == chosen.subrange(0, i as int)[k]);
                } else {
                    assert(prefix[k] == account@);
                }
            }
        }
        i = i + 1;
    }
    proof {
        assert(chosen.subrange(0, i as int) =~= chosen);
    }
    match combine_reports(&reports) {
        Ok(groups) => Ok(groups),
        Err(error) => Err(GetRangedSummaryError::Summary(error)),
    }
}


/// The reports of month `m` of each account's trend, with the account's currency.
pub open spec fn month_reports(
    rows: Seq<(Currency, Seq<(BudgetMonth, SummaryReportView)>)>,
    m: int,
) -> Seq<(Currency, SummaryReportView)> {
    rows.map_values(|row: (Currency, Seq<(BudgetMonth, SummaryReportView)>)| (row.0, row.1[m].1))
}

/// The first account trend in a currency.
pub open spec fn first_in(rows: Seq<(Currency, Seq<(BudgetMonth, SummaryReportView)>)>, currency: Currency) -> int {
    choose|k: int|
        0 <= k < rows.len() && rows[k].0 == currency && forall|t: int|
            0 <= t < k ==> (#[trigger] rows[t]).0 != currency
}

/// The combined trend of a currency over its first `count` months.
pub open spec fn currency_trend(
    rows: Seq<(Currency, Seq<(BudgetMonth, SummaryReportView)>)>,
    currency: Currency,
    count: int,
) -> Result<Seq<(BudgetMonth, SummaryReportView)>, SummaryError>
    decreases count,
{
    if count <= 0 {
        Ok(Seq::empty())
    } else {
        match currency_trend(rows, currency, count - 1) {
            Err(error) => Err(error),
            Ok(done) => match finish_totals(
                group_totals(month_reports(rows, count - 1), currency),
                currency,
            ) {
                Err(error) => Err(error),
                Ok(report) => Ok(done.push((rows[first_in(rows, currency)].1[count - 1].0, report))),
            },
        }
    }
}

/// Whether some account trend is in a currency.
pub open spec fn has_trend_in(rows: Seq<(Currency, Seq<(BudgetMonth, SummaryReportView)>)>, currency: Currency) -> bool {
    exists|k: int| 0 <= k < rows.len() && (#[trigger] rows[k]).0 == currency
}

/// The combined trends of the first `count` currencies in code order that occur.
pub open spec fn trend_groups_upto(
    rows: Seq<(Currency, Seq<(BudgetMonth, SummaryReportView)>)>,
    months: int,
    count: int,
) -> Result<Seq<(Seq<char>, Seq<(BudgetMonth, SummaryReportView)>)>, SummaryError>
    decreases count,
{
    if count <= 0 {
        Ok(Seq::empty())
    } else {
        match trend_groups_upto(rows, months, count - 1) {
            Err(error) => Err(error),
            Ok(done) => {
                let currency = currency_ranked(count - 1);
                if has_trend_in(rows, currency) {
                    match currency_trend(rows, currency, months) {
                        Err(error) => Err(error),
                        Ok(trend) => Ok(done.push((currency_code(currency), trend))),
                    }
                } else {
                    Ok(done)
                }
            },
        }
    }
}

pub open spec fn account_trends_view(rows: Seq<(Currency, Vec<MonthlyTrend>)>) -> Seq<
    (Currency, Seq<(BudgetMonth, SummaryReportView)>),
> {
    rows.map_values(|row: (Currency, Vec<MonthlyTrend>)| (row.0, trend_view(row.1@)))
}

pub open spec fn trend_groups_view(groups: Seq<(String, Vec<MonthlyTrend>)>) -> Seq<
    (Seq<char>, Seq<(BudgetMonth, SummaryReportView)>),
> {
    groups.map_values(|group: (String, Vec<MonthlyTrend>)| (group.0@, trend_view(group.1@)))
}

proof fn lemma_trend_groups_error_persists(
    rows: Seq<(Currency, Seq<(BudgetMonth, SummaryReportView)>)>,
    months: int,
    count: int,
    error: SummaryError,
)
    requires
        0 <= count <= 5,
        trend_groups_upto(rows, months, count) == Err::<
            Seq<(Seq<char>, Seq<(BudgetMonth, SummaryReportView)>)>,
            SummaryError,
        >(error),
    ensures
        trend_groups_upto(rows, months, 5) == Err::<
            Seq<(Seq<char>, Seq<(BudgetMonth, SummaryReportView)>)>,
            SummaryError,
        >(error),
    decreases 5 - count,
{
    if count < 5 {
        lemma_trend_groups_error_persists(rows, months, count + 1, error);
    }
}

proof fn lemma_currency_trend_error_persists(
    rows: Seq<(Currency, Seq<(BudgetMonth, SummaryReportView)>)>,
    currency: Currency,
    count: int,
    months: int,
    error: SummaryError,
)
    requires
        0 <= count <= months,
        currency_trend(rows, currency, count) == Err::<Seq<(BudgetMonth, SummaryReportView)>, SummaryError>(
            error,
        ),
    ensures
        currency_trend(rows, currency, months) == Err::<Seq<(BudgetMonth, SummaryReportView)>, SummaryError>(
            error,
        ),
    decreases months - count,
{
    if count < months {
        lemma_currency_trend_error_persists(rows, currency, count + 1, months, error);
    }
}

fn month_total(rows: &Vec<(Currency, Vec<MonthlyTrend>)>, m: usize, currency: Currency, months: usize) -> (r:
    Result<SummaryReport, SummaryError>)
    requires
        m < months,
        forall|k: int| 0 <= k < rows@.len() ==> (#[trigger] rows@[k]).1@.len() == months,
    ensures
        match r {
            Ok(report) => finish_totals(
                group_totals(month_reports(account_trends_view(rows@), m as int), currency),
                currency,
            ) == Ok::<SummaryReportView, SummaryError>(report@),
            Err(error) => finish_totals(
                group_totals(month_reports(account_trends_view(rows@), m as int), currency),
                currency,
            ) == Err::<SummaryReportView, SummaryError>(error),
        },
{
    let ghost all = account_trends_view(rows@);
    let ghost reports = month_reports(all, m as int);
    let mut totals = Totals::new();
    let mut j: usize = 0;
    let ghost mut count: int = 0;
    proof {
        assert(reports.subrange(0, 0) =~= Seq::<(Currency, SummaryReportView)>::empty());
    }
    while j < rows.len()
        invariant
            j <= rows@.len(),
            m < months,
            all == account_trends_view(rows@),
            reports == month_reports(all, m as int),
            forall|k: int| 0 <= k < rows@.len() ==> (#[trigger] rows@[k]).1@.len() == months,
            totals.well_formed(),
            totals@ == group_totals(reports.subrange(0, j as int), currency),
            0 <= count <= j,
            within_bound(totals@, count),
        decreases rows@.len() - j,
    {
        proof {
            let prefix = reports.subrange(0, j + 1);
            assert(prefix.drop_last() =~= reports.subrange(0, j as int));
            assert(prefix.last() == reports[j as int]);
            assert(all[j as int] == (rows@[j as int].0, trend_view(rows@[j as int].1@)));
            assert(rows@[j as int].1@.len() == months);
            assert(trend_view(rows@[j as int].1@)[m as int] == (
                rows@[j as int].1@[m as int].month,
                rows@[j as int].1@[m as int].summary@,
            ));
            assert(reports[j as int] == (rows@[j as int].0, rows@[j as int].1@[m as int].summary@));
            assert((count + 1) * amount_bound() <= i128::MAX) by (nonlinear_arith)
                requires
                    count + 1 <= usize::MAX,
                    amount_bound() == 0x8000_0000_0000_0000,
            ;
        }
        if rows[j].0 == currency {
            totals.add(&rows[j].1[m].summary, Ghost(count));
            proof {
                count = count + 1;
            }
        }
        j = j + 1;
    }
    proof {
        assert(reports.subrange(0, j as int) =~= reports);
    }
    totals.finish(currency)
}

#[verifier::rlimit(50)]
fn currency_trend_of(rows: &Vec<(Currency, Vec<MonthlyTrend>)>, currency: Currency, first: usize, months: usize) -> (r:
    Result<Vec<MonthlyTrend>, SummaryError>)
    requires
        first < rows@.len(),
        rows@[first as int].0 == currency,
        first_in(account_trends_view(rows@), currency) == first,
        forall|k: int| 0 <= k < rows@.len() ==> (#[trigger] rows@[k]).1@.len() == months,
    ensures
        match r {
            Ok(trend) => currency_trend(account_trends_view(rows@), currency, months as int) == Ok::<
                Seq<(BudgetMonth, SummaryReportView)>,
                SummaryError,
            >(trend_view(trend@)),
            Err(error) => currency_trend(account_trends_view(rows@), currency, months as int) == Err::<
                Seq<(BudgetMonth, SummaryReportView)>,
                SummaryError,
            >(error),
        },
{
    let ghost all = account_trends_view(rows@);
    let mut trend: Vec<MonthlyTrend> = Vec::new();
    let mut m: usize = 0;
    proof {
        assert(trend_view(trend@) =~= Seq::<(BudgetMonth, SummaryReportView)>::empty());
    }
    while m < months
        invariant
            m <= months,
            first < rows@.len(),
            rows@[first as int].0 == currency,
            first_in(all, currency) == first,
            all == account_trends_view(rows@),
            forall|k: int| 0 <= k < rows@.len() ==> (#[trigger] rows@[k]).1@.len() == months,
            currency_trend(all, currency, m as int) == Ok::<
                Seq<(BudgetMonth, SummaryReportView)>,
                SummaryError,
            >(trend_view(trend@)),
        decreases months - m,
    {
        let outcome = month_total(rows, m, currency, months);
        let ghost done = trend_view(trend@);
        match outcome {
            Ok(summary) => {
                let month = rows[first].1[m].month;
                trend.push(MonthlyTrend { month, summary });
                proof {
                    assert(rows@[first as int].1@.len() == months);
                    assert(all[first as int] == (rows@[first as int].0, trend_view(rows@[first as int].1@)));
                    assert(trend_view(rows@[first as int].1@)[m as int].0 == month);
                    assert(trend_view(trend@) =~= done.push((month, summary@)));
                }
            },
            Err(error) => {
                proof {
                    lemma_currency_trend_error_persists(all, currency, m as int + 1, months as int, error);
                }
                return Err(error);
            },
        }
        m = m + 1;
    }
    Ok(trend)
}

/// Combines account trends per currency: month by month, the reports of the accounts in
/// a currency add up as in a portfolio summary.
pub fn combine_trends(rows: &Vec<(Currency, Vec<MonthlyTrend>)>, months: usize) -> (r: Result<
    Vec<(String, Vec<MonthlyTrend>)>,
    SummaryError,
>)
    requires
        forall|k: int| 0 <= k < rows@.len() ==> (#[trigger] rows@[k]).1@.len() == months,
    ensures
        match r {
            Ok(groups) => trend_groups_upto(account_trends_view(rows@), months as int, 5) == Ok::<
                Seq<(Seq<char>, Seq<(BudgetMonth, SummaryReportView)>)>,
                SummaryError,
            >(trend_groups_view(groups@)),
            Err(error) => trend_groups_upto(account_trends_view(rows@), months as int, 5) == Err::<
                Seq<(Seq<char>, Seq<(BudgetMonth, SummaryReportView)>)>,
                SummaryError,
            >(error),
        },
{
    let ghost all = account_trends_view(rows@);
    let mut groups: Vec<(String, Vec<MonthlyTrend>)> = Vec::new();
    let mut rank: usize = 0;
    proof {
        assert(trend_groups_view(groups@) =~= Seq::<(Seq<char>, Seq<(BudgetMonth, SummaryReportView)>)>::empty());
    }
    while rank < 5
        invariant
            rank <= 5,
            all == account_trends_view(rows@),
            forall|k: int| 0 <= k < rows@.len() ==> (#[trigger] rows@[k]).1@.len() == months,
            trend_groups_upto(all, months as int, rank as int) == Ok::<
                Seq<(Seq<char>, Seq<(BudgetMonth, SummaryReportView)>)>,
                SummaryError,
            >(trend_groups_view(groups@)),
        decreases 5 - rank,
    {
        let currency = currency_at_rank(rank);
        let mut first: usize = 0;
        while first < rows.len() && rows[first].0 != currency
            invariant
                first <= rows@.len(),
                forall|t: int| 0 <= t < first ==> (#[trigger] rows@[t]).0 != currency,
            decreases rows@.len() - first,
        {
            first = first + 1;
        }
        let ghost before = trend_groups_view(groups@);
        if first < rows.len() {
            proof {
                assert(all[first as int].0 == currency);
                assert(has_trend_in(all, currency));
                assert forall|t: int| 0 <= t < first implies (#[trigger] all[t]).0 != currency by {
                    assert(all[t].0 == rows@[t].0);
                }
                let chosen = first_in(all, currency);
                if chosen < first {
                    assert(all[chosen].0 != currency);
                } else if chosen > first {
                    assert(all[first as int].0 == currency);
                }
                assert(chosen == first);
            }
            let trend = match currency_trend_of(rows, currency, first, months) {
                Ok(trend) => trend,
                Err(error) => {
                    proof {
                        lemma_trend_groups_error_persists(all, months as int, rank as int + 1, error);
                    }
                    return Err(error);
                },
            };
            groups.push((String::from_str(currency.code()), trend));
            proof {
                assert(trend_groups_view(groups@) =~= before.push((currency_code(currency), trend_view(trend@))));
            }
        } else {
            proof {
                assert(!has_trend_in(all, currency)) by {
                    if has_trend_in(all, currency) {
                        let k = choose|k: int| 0 <= k < all.len() && (#[trigger] all[k]).0 == currency;
                        assert(rows@[k].0 == all[k].0);
                    }
                }
            }
        }
        rank = rank + 1;
    }
    Ok(groups)
}


/// Whether account trends are those of the selected accounts over the months from
/// `from`, with their currencies.
pub open spec fn trends_of(
    trends: Seq<(Currency, Seq<(BudgetMonth, SummaryReportView)>)>,
    selected: Seq<AccountView>,
    accounts: Map<AccountId, AccountView>,
    transactions: Map<TransactionId, TransactionView>,
    from: BudgetMonth,
    months: int,
    zone_name: Seq<char>,
) -> bool {
    &&& trends.len() == selected.len()
    &&& forall|k: int|
        0 <= k < trends.len() ==> (#[trigger] trends[k]).0 == selected[k].currency && trends[k].1.len()
            == months && exists|
            listed: Seq<TransactionView>,
            starts: Seq<ZonedTimeView>,
            ends: Seq<ZonedTimeView>,
        |
            lists_transactions_of(listed, transactions, selected[k].id) && #[trigger] trend_rows(
                trends[k].1,
                from,
                accounts[selected[k].id],
                listed,
                starts,
                ends,
                zone_name,
            )
}

proof fn lemma_first_trend_exists(
    rows: Seq<(Currency, Seq<(BudgetMonth, SummaryReportView)>)>,
    currency: Currency,
    k: int,
)
    requires
        0 <= k < rows.len(),
        rows[k].0 == currency,
    ensures
        0 <= first_in(rows, currency) < rows.len(),
        rows[first_in(rows, currency)].0 == currency,
    decreases k,
{
    if exists|t: int| 0 <= t < k && (#[trigger] rows[t]).0 == currency {
        let t = choose|t: int| 0 <= t < k && (#[trigger] rows[t]).0 == currency;
        lemma_first_trend_exists(rows, currency, t);
    } else {
        assert(0 <= k < rows.len() && rows[k].0 == currency && forall|t: int|
            0 <= t < k ==> (#[trigger] rows[t]).0 != currency);
    }
}

proof fn lemma_currency_trend_labels(
    rows: Seq<(Currency, Seq<(BudgetMonth, SummaryReportView)>)>,
    currency: Currency,
    count: int,
    trend: Seq<(BudgetMonth, SummaryReportView)>,
)
    requires
        count >= 0,
        currency_trend(rows, currency, count) == Ok::<Seq<(BudgetMonth, SummaryReportView)>, SummaryError>(trend),
    ensures
        trend.len() == count,
        forall|k: int| 0 <= k < count ==> (#[trigger] trend[k]).0 == rows[first_in(rows, currency)].1[k].0,
    decreases count,
{
    if count > 0 {
        let done = currency_trend(rows, currency, count - 1)->Ok_0;
        lemma_currency_trend_labels(rows, currency, count - 1, done);
        assert forall|k: int| 0 <= k < count implies (#[trigger] trend[k]).0 == rows[first_in(
            rows,
            currency,
        )].1[k].0 by {
            if k < count - 1 {
                assert(trend[k] == done[k]);
            }
        }
    }
}

proof fn lemma_trend_groups_come_from_currencies(
    rows: Seq<(Currency, Seq<(BudgetMonth, SummaryReportView)>)>,
    months: int,
    count: int,
    groups: Seq<(Seq<char>, Seq<(BudgetMonth, SummaryReportView)>)>,
)
    requires
        trend_groups_upto(rows, months, count) == Ok::<
            Seq<(Seq<char>, Seq<(BudgetMonth, SummaryReportView)>)>,
            SummaryError,
        >(groups),
    ensures
        forall|g: int|
            0 <= g < groups.len() ==> exists|currency: Currency|
                has_trend_in(rows, currency) && #[trigger] currency_trend(rows, currency, months) == Ok::<
                    Seq<(BudgetMonth, SummaryReportView)>,
                    SummaryError,
                >((#[trigger] groups[g]).1),
    decreases count,
{
    if count > 0 {
        let done = trend_groups_upto(rows, months, count - 1)->Ok_0;
        lemma_trend_groups_come_from_currencies(rows, months, count - 1, done);
        let currency = currency_ranked(count - 1);
        assert forall|g: int| 0 <= g < groups.len() implies exists|c: Currency|
            has_trend_in(rows, c) && #[trigger] currency_trend(rows, c, months) == Ok::<
                Seq<(BudgetMonth, SummaryReportView)>,
                SummaryError,
            >((#[trigger] groups[g]).1) by {
            if g < done.len() {
                assert(groups[g] == done[g]);
            } else {
                assert(has_trend_in(rows, currency));
                assert(currency_trend(rows, currency, months) == Ok::<
                    Seq<(BudgetMonth, SummaryReportView)>,
                    SummaryError,
                >(groups[g].1));
            }
        }
    }
}

proof fn lemma_account_trend_month(
    trends: Seq<(Currency, Seq<(BudgetMonth, SummaryReportView)>)>,
    selected: Seq<AccountView>,
    accounts: Map<AccountId, AccountView>,
    transactions: Map<TransactionId, TransactionView>,
    from: BudgetMonth,
    months: int,
    zone_name: Seq<char>,
    t: int,
    k: int,
)
    requires
        trends_of(trends, selected, accounts, transactions, from, months, zone_name),
        0 <= t < trends.len(),
        0 <= k < months,
    ensures
        trends[t].1.len() == months,
        month_index(trends[t].1[k].0@) == month_index(from@) + k,
{
    assert(trends[t].0 == selected[t].currency);
    let (listed, starts, ends) = choose|
        listed: Seq<TransactionView>,
        starts: Seq<ZonedTimeView>,
        ends: Seq<ZonedTimeView>,
    |
        lists_transactions_of(listed, transactions, selected[t].id) && #[trigger] trend_rows(
            trends[t].1,
            from,
            accounts[selected[t].id],
            listed,
            starts,
            ends,
            zone_name,
        );
    assert(trend_rows(trends[t].1, from, accounts[selected[t].id], listed, starts, ends, zone_name));
    let row = trends[t].1[k];
    assert(month_index(row.0@) == crate::application::monthly_trend::month_offset(from, k));
}

proof fn lemma_group_row_month(
    trends: Seq<(Currency, Seq<(BudgetMonth, SummaryReportView)>)>,
    selected: Seq<AccountView>,
    accounts: Map<AccountId, AccountView>,
    transactions: Map<TransactionId, TransactionView>,
    from: BudgetMonth,
    months: int,
    zone_name: Seq<char>,
    group: Seq<(BudgetMonth, SummaryReportView)>,
    currency: Currency,
    k: int,
)
    requires
        months >= 0,
        trends_of(trends, selected, accounts, transactions, from, months, zone_name),
        has_trend_in(trends, currency),
        currency_trend(trends, currency, months) == Ok::<Seq<(BudgetMonth, SummaryReportView)>, SummaryError>(group),
        0 <= k < months,
    ensures
        group.len() == months,
        month_index(group[k].0@) == month_index(from@) + k,
{
    let some = choose|t: int| 0 <= t < trends.len() && (#[trigger] trends[t]).0 == currency;
    lemma_first_trend_exists(trends, currency, some);
    lemma_currency_trend_labels(trends, currency, months, group);
    lemma_account_trend_month(trends, selected, accounts, transactions, from, months, zone_name, first_in(trends, currency), k);
}

/// Every row of a combined portfolio trend is labelled by its own month: for account
/// trends of the selected accounts over the months from `from`, row `k` of each
/// currency's combined trend is the month `k` months after `from`, as in each account
/// trend, and each combined trend has one row per month.
pub proof fn law_portfolio_trend_rows_follow_the_months(
    trends: Seq<(Currency, Seq<(BudgetMonth, SummaryReportView)>)>,
    selected: Seq<AccountView>,
    accounts: Map<AccountId, AccountView>,
    transactions: Map<TransactionId, TransactionView>,
    from: BudgetMonth,
    months: int,
    zone_name: Seq<char>,
    groups: Seq<(Seq<char>, Seq<(BudgetMonth, SummaryReportView)>)>,
    g: int,
    k: int,
)
    requires
        months >= 0,
        trends_of(trends, selected, accounts, transactions, from, months, zone_name),
        trend_groups_upto(trends, months, 5) == Ok::<
            Seq<(Seq<char>, Seq<(BudgetMonth, SummaryReportView)>)>,
            SummaryError,
        >(groups),
        0 <= g < groups.len(),
        0 <= k < months,
    ensures
        groups[g].1.len() == months,
        month_index(groups[g].1[k].0@) == month_index(from@) + k,
{
    lemma_trend_groups_come_from_currencies(trends, months, 5, groups);
    let group = groups[g];
    let currency = choose|currency: Currency|
        has_trend_in(trends, currency) && #[trigger] currency_trend(trends, currency, months) == Ok::<
            Seq<(BudgetMonth, SummaryReportView)>,
            SummaryError,
        >(group.1);
    lemma_group_row_month(trends, selected, accounts, transactions, from, months, zone_name, group.1, currency, k);
}

/// Transaction cash flow of the accounts of a scope for each month from `from` to `to`,
/// combined per currency in alphabetical order of the codes; months start at local
/// midnight of their first day in the named time zone, and every month boundary is
/// checked even when the scope selects no account.
pub fn get_portfolio_trend<A: AccountRepository, T: TransactionRepository>(
    accounts: &A,
    transactions: &T,
    scope: &ReportScope,
    from: BudgetMonth,
    to: BudgetMonth,
    time_zone_name: &str,
) -> (r: Result<Vec<(String, Vec<MonthlyTrend>)>, MonthlyTrendError>)
    ensures
        match r {
            Ok(groups) => month_index(from@) <= month_index(to@) && exists|
                selected: Seq<AccountView>,
                trends: Seq<(Currency, Seq<(BudgetMonth, SummaryReportView)>)>,
            |
                selects(selected, scope@, accounts.accounts()) && #[trigger] trends_of(
                    trends,
                    selected,
                    accounts.accounts(),
                    transactions.transactions(),
                    from,
                    month_index(to@) - month_index(from@) + 1,
                    time_zone_name@,
                ) && trend_groups_upto(trends, month_index(to@) - month_index(from@) + 1, 5) == Ok::<
                    Seq<(Seq<char>, Seq<(BudgetMonth, SummaryReportView)>)>,
                    SummaryError,
                >(trend_groups_view(groups@)),
            Err(MonthlyTrendError::InvalidRange { from: first, to: last }) => first == from && last
                == to && month_index(from@) > month_index(to@),
            Err(MonthlyTrendError::InvalidTimeZone(name)) => month_index(from@) <= month_index(to@)
                && name@ == time_zone_name@,
            Err(MonthlyTrendError::AccountNotFound(id)) => month_index(from@) <= month_index(to@)
                && first_missing(id, scope@, accounts.accounts()),
            Err(_) => month_index(from@) <= month_index(to@),
        },
{
    if from.is_after(to) {
        return Err(MonthlyTrendError::InvalidRange { from, to });
    }
    match month_start(from, time_zone_name) {
        Ok(_) => {},
        Err(error) => return Err(error),
    }
    let _ = to.year();
    let _ = from.year();
    let mut month = from;
    let mut months: usize = 1;
    loop
        invariant
            month_index(from@) <= month_index(month@) <= month_index(to@),
            months == month_index(month@) - month_index(from@) + 1,
            crate::domain::budget::valid_month(to@.year, to@.month),
            crate::domain::budget::valid_month(from@.year, from@.month),
        ensures
            months == month_index(to@) - month_index(from@) + 1,
        decreases month_index(to@) - month_index(month@),
    {
        let next = next_month(month)?;
        match month_start(next, time_zone_name) {
            Ok(_) => {},
            Err(error) => return Err(error),
        }
        if !to.is_after(month) {
            break;
        }
        month = next;
        months = months + 1;
    }
    let selected = match selected_accounts(accounts, scope) {
        Ok(selected) => selected,
        Err(GetRangedSummaryError::AccountNotFound(id)) => return Err(MonthlyTrendError::AccountNotFound(id)),
        Err(GetRangedSummaryError::Repository(error)) => return Err(MonthlyTrendError::Repository(error)),
        Err(_) => return Err(MonthlyTrendError::InvalidMonthBoundary(String::new())),
    };
    let ghost chosen = accounts_view(selected@);
    let mut rows: Vec<(Currency, Vec<MonthlyTrend>)> = Vec::new();
    let mut i: usize = 0;
    while i < selected.len()
        invariant
            i <= selected@.len(),
            month_index(from@) <= month_index(to@),
            months == month_index(to@) - month_index(from@) + 1,
            chosen == accounts_view(selected@),
            selects(chosen, scope@, accounts.accounts()),
            forall|k: int| 0 <= k < rows@.len() ==> (#[trigger] rows@[k]).1@.len() == months,
            trends_of(
                account_trends_view(rows@),
                chosen.subrange(0, i as int),
                accounts.accounts(),
                transactions.transactions(),
                from,
                months as int,
                time_zone_name@,
            ),
        decreases selected@.len() - i,
    {
        let account = &selected[i];
        proof {
            assert(chosen[i as int] == account@);
            if scope@ is All {
                assert(accounts.accounts().contains_key(chosen[i as int].id));
            } else {
                let wanted = distinct_ids(scope@->Accounts_0);
                assert(accounts.accounts().contains_key(wanted[i as int]));
                assert(chosen[i as int].id == wanted[i as int]);
            }
        }
        let trend = match get_monthly_trend(accounts, transactions, account.id(), from, to, time_zone_name) {
            Ok(trend) => trend,
            Err(MonthlyTrendError::AccountNotFound(id)) => return Err(MonthlyTrendError::AccountNotFound(id)),
            Err(error) => return Err(error),
        };
        let ghost before = account_trends_view(rows@);
        rows.push((account.currency(), trend));
        proof {
            let now = account_trends_view(rows@);
            assert(now =~= before.push((account@.currency, trend_view(trend@))));
            let prefix = chosen.subrange(0, i + 1);
            assert forall|k: int| 0 <= k < now.len() implies (#[trigger] now[k]).0 == prefix[k].currency
                && now[k].1.len() == months && exists|
                listed: Seq<TransactionView>,
                starts: Seq<ZonedTimeView>,
                ends: Seq<ZonedTimeView>,
            |
                lists_transactions_of(listed, transactions.transactions(), prefix[k].id) && #[trigger] trend_rows(
                    now[k].1,
                    from,
                    accounts.accounts()[prefix[k].id],
                    listed,
                    starts,
                    ends,
                    time_zone_name@,
                ) by {
                if k < i {
                    assert(now[k] == before[k]);
                    assert(prefix[k] == chosen.subrange(0, i as int)[k]);
                } else {
                    assert(prefix[k] == account@);
                    assert(now[k].1 == trend_view(trend@));
                    let (listed, starts, ends) = choose|
                        listed: Seq<TransactionView>,
                        starts: Seq<ZonedTimeView>,
                        ends: Seq<ZonedTimeView>,
                    |
                        lists_transactions_of(listed, transactions.transactions(), account@.id)
                            && #[trigger] trend_rows(
                            trend_view(trend@),
                            from,
                            accounts.accounts()[account@.id],
                            listed,
                            starts,
                            ends,
                            time_zone_name@,
                        );
                    assert(trend_rows(
                        now[k].1,
                        from,
                        accounts.accounts()[prefix[k].id],
                        listed,
                        starts,
                        ends,
                        time_zone_name@,
                    ));
                }
            }
        }
        i = i + 1;
    }
    proof {
        assert(chosen.subrange(0, i as int) =~= chosen);
    }
    match combine_trends(&rows, months) {
        Ok(groups) => Ok(groups),
        Err(error) => Err(MonthlyTrendError::Summary(error)),
    }
}

} // verus!
