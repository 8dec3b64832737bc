use vstd::prelude::*;
use crate::domain::budget::month_index;
use crate::application::monthly_trend::{MonthlyTrendError, month_bounds, month_start, next_month};
use crate::application::repository::{
    AccountRepository, BudgetRepository, RepositoryError, TransactionRepository,
    lists_budgets_of, lists_transactions_of,
};
use crate::domain::account::AccountId;
use crate::domain::budget::{Budget, BudgetMonth, BudgetView, budgets_view};
use crate::domain::money::{Currency, Money, MoneyError, MoneyView, money_difference, money_sum};
use crate::domain::time::{ZonedTime, ZonedTimeView};
use crate::domain::transaction::{
    Transaction, TransactionKind, TransactionView, category_name_rank, transactions_view,
};
use crate::sorting::{LatestFirst, holds_rank, latest_first, ranks_before, sorted_latest_first};

verus! {

/// How much of a budget was used, what remains, and whether it was overrun.
#[derive(Debug, PartialEq, Eq)]
pub struct BudgetStatus {
    pub budget: Budget,
    pub used: Money,
    pub remaining: Money,
    pub overrun: bool,
}

pub struct BudgetStatusView {
    pub budget: BudgetView,
    pub used: MoneyView,
    pub remaining: MoneyView,
    pub overrun: bool,
}

impl View for BudgetStatus {
    type V = BudgetStatusView;

    open spec fn view(&self) -> BudgetStatusView {
        BudgetStatusView {
            budget: self.budget@,
            used: self.used@,
            remaining: self.remaining@,
            overrun: self.overrun,
        }
    }
}

/// Statuses are listed by the name of their budget's category, then by the budget's
/// identifier, ascending: their rank is the negated order.
impl LatestFirst for BudgetStatus {
    open spec fn rank(value: BudgetStatus) -> (int, int) {
        (-category_name_rank(value.budget@.category), -(value.budget@.id@ as int))
    }

    fn rank_value(&self) -> (r: (i128, i128)) {
        (-(self.budget.category().name_rank() as i128), -(self.budget.id().value() as i128))
    }
}

/// The views of a list of statuses.
pub open spec fn statuses_view(statuses: Seq<BudgetStatus>) -> Seq<BudgetStatusView> {
    statuses.map_values(|status: BudgetStatus| status@)
}

/// Why budget statuses could not be read.
#[derive(Debug, PartialEq, Eq)]
pub enum BudgetReportError {
    AccountNotFound(AccountId),
    InvalidTimeZone(String),
    InvalidMonthBoundary(String),
    Money(MoneyError),
    Repository(RepositoryError),
}

/// The use of a budget after one transaction: expenses of its category within the month
/// add, refunds subtract, and anything else leaves it unchanged.
pub open spec fn usage_step(
    used: MoneyView,
    transaction: TransactionView,
    budget: BudgetView,
    start: ZonedTimeView,
    end: ZonedTimeView,
) -> Result<MoneyView, MoneyError> {
    if transaction.category == budget.category && start.instant <= transaction.occurred_at.instant
        && transaction.occurred_at.instant < end.instant {
        match transaction.kind {
            TransactionKind::Expense => money_sum(used, transaction.amount),
            TransactionKind::ExpenseRefund => money_difference(used, transaction.amount),
            TransactionKind::Income => Ok(used),
        }
    } else {
        Ok(used)
    }
}

/// The use of a budget by a list of transactions, in order, from zero.
pub open spec fn budget_usage(
    transactions: Seq<TransactionView>,
    budget: BudgetView,
    start: ZonedTimeView,
    end: ZonedTimeView,
    currency: Currency,
) -> Result<MoneyView, MoneyError>
    decreases transactions.len(),
{
    if transactions.len() == 0 {
        Ok(MoneyView { minor: 0, currency })
    } else {
        match budget_usage(transactions.drop_last(), budget, start, end, currency) {
            Err(error) => Err(error),
            Ok(used) => usage_step(used, transactions.last(), budget, start, end),
        }
    }
}

/// The status of one budget.
pub open spec fn budget_status(
    budget: BudgetView,
    transactions: Seq<TransactionView>,
    start: ZonedTimeView,
    end: ZonedTimeView,
    currency: Currency,
) -> Result<BudgetStatusView, MoneyError> {
    match budget_usage(transactions, budget, start, end, currency) {
        Err(error) => Err(error),
        Ok(used) => match money_difference(budget.limit, used) {
            Err(error) => Err(error),
            Ok(remaining) => Ok(
                BudgetStatusView { budget, used, remaining, overrun: remaining.minor < 0 },
            ),
        },
    }
}

/// The statuses of the budgets of a month, in the order of the list.
pub open spec fn statuses_of(
    budgets: Seq<BudgetView>,
    month: BudgetMonth,
    transactions: Seq<TransactionView>,
    start: ZonedTimeView,
    end: ZonedTimeView,
    currency: Currency,
) -> Result<Seq<BudgetStatusView>, MoneyError>
    decreases budgets.len(),
{
    if budgets.len() == 0 {
        Ok(Seq::empty())
    } else {
        match statuses_of(budgets.drop_last(), month, transactions, start, end, currency) {
            Err(error) => Err(error),
            Ok(done) => if budgets.last().month == month {
                match budget_status(budgets.last(), transactions, start, end, currency) {
                    Err(error) => Err(error),
                    Ok(status) => Ok(done.push(status)),
                }
            } else {
                Ok(done)
            },
        }
    }
}

proof fn lemma_outside_use_unchanged(
    before: Seq<TransactionView>,
    extra: TransactionView,
    after: Seq<TransactionView>,
    budget: BudgetView,
    start: ZonedTimeView,
    end: ZonedTimeView,
    currency: Currency,
)
    requires
        extra.occurred_at.instant < start.instant || end.instant <= extra.occurred_at.instant,
    ensures
        budget_usage(before + seq![extra] + after, budget, start, end, currency) == budget_usage(
            before + after,
            budget,
            start,
            end,
            currency,
        ),
    decreases after.len(),
{
    if after.len() == 0 {
        assert((before + seq![extra] + after).drop_last() =~= before);
        assert(before + after =~= before);
    } else {
        lemma_outside_use_unchanged(before, extra, after.drop_last(), budget, start, end, currency);
        assert((before + seq![extra] + after).drop_last() =~= before + seq![extra] + after.drop_last());
        assert((before + after).drop_last() =~= before + after.drop_last());
        assert((before + seq![extra] + after).last() == after.last());
        assert((before + after).last() == after.last());
    }
}

/// Budget statuses count only the transactions of their month: a transaction that
/// occurred before the month's start or at or after the next month's start, wherever it
/// stands in the list, leaves every status (and every error) unchanged.
pub proof fn law_statuses_ignore_transactions_outside_the_month(
    budgets: Seq<BudgetView>,
    month: BudgetMonth,
    before: Seq<TransactionView>,
    extra: TransactionView,
    after: Seq<TransactionView>,
    start: ZonedTimeView,
    end: ZonedTimeView,
    currency: Currency,
)
    requires
        extra.occurred_at.instant < start.instant || end.instant <= extra.occurred_at.instant,
    ensures
        statuses_of(budgets, month, before + seq![extra] + after, start, end, currency) == statuses_of(
            budgets,
            month,
            before + after,
            start,
            end,
            currency,
        ),
    decreases budgets.len(),
{
    if budgets.len() > 0 {
        law_statuses_ignore_transactions_outside_the_month(
            budgets.drop_last(),
            month,
            before,
            extra,
            after,
            start,
            end,
            currency,
        );
        lemma_outside_use_unchanged(before, extra, after, budgets.last(), start, end, currency);
    }
}

/// A transaction of a budget's category within its month counts against it: after the
/// use so far, an expense adds its amount, a refund subtracts it, and an income leaves
/// the use unchanged.
pub proof fn law_transactions_in_the_month_count(
    transactions: Seq<TransactionView>,
    extra: TransactionView,
    budget: BudgetView,
    start: ZonedTimeView,
    end: ZonedTimeView,
    currency: Currency,
    used: MoneyView,
)
    requires
        budget_usage(transactions, budget, start, end, currency) == Ok::<MoneyView, MoneyError>(used),
        extra.category == budget.category,
        start.instant <= extra.occurred_at.instant < end.instant,
    ensures
        budget_usage(transactions.push(extra), budget, start, end, currency) == match extra.kind {
            TransactionKind::Expense => money_sum(used, extra.amount),
            TransactionKind::ExpenseRefund => money_difference(used, extra.amount),
            TransactionKind::Income => Ok::<MoneyView, MoneyError>(used),
        },
{
    assert(transactions.push(extra).drop_last() =~= transactions);
}

proof fn lemma_usage_error_persists(
    transactions: Seq<TransactionView>,
    budget: BudgetView,
    start: ZonedTimeView,
    end: ZonedTimeView,
    currency: Currency,
    i: int,
    error: MoneyError,
)
    requires
        0 <= i <= transactions.len(),
        budget_usage(transactions.subrange(0, i), budget, start, end, currency) == Err::<
            MoneyView,
            MoneyError,
        >(error),
    ensures
        budget_usage(transactions, budget, start, end, currency) == Err::<MoneyView, MoneyError>(error),
    decreases transactions.len() - i,
{
    if i < transactions.len() {
        assert(transactions.subrange(0, i + 1).drop_last() =~= transactions.subrange(0, i));
        lemma_usage_error_persists(transactions, budget, start, end, currency, i + 1, error);
    } else {
        assert(transactions.subrange(0, i) =~= transactions);
    }
}

proof fn lemma_statuses_error_persists(
    budgets: Seq<BudgetView>,
    month: BudgetMonth,
    transactions: Seq<TransactionView>,
    start: ZonedTimeView,
    end: ZonedTimeView,
    currency: Currency,
    i: int,
    error: MoneyError,
)
    requires
        0 <= i <= budgets.len(),
        statuses_of(budgets.subrange(0, i), month, transactions, start, end, currency) == Err::<
            Seq<BudgetStatusView>,
            MoneyError,
        >(error),
    ensures
        statuses_of(budgets, month, transactions, start, end, currency) == Err::<
            Seq<BudgetStatusView>,
            MoneyError,
        >(error),
    decreases budgets.len() - i,
{
    if i < budgets.len() {
        assert(budgets.subrange(0, i + 1).drop_last() =~= budgets.subrange(0, i));
        lemma_statuses_error_persists(budgets, month, transactions, start, end, currency, i + 1, error);
    } else {
        assert(budgets.subrange(0, i) =~= budgets);
    }
}

fn status_of(
    budget: Budget,
    transactions: &Vec<Transaction>,
    start: &ZonedTime,
    end: &ZonedTime,
    currency: Currency,
) -> (r: Result<BudgetStatus, MoneyError>)
    ensures
        match r {
            Ok(status) => budget_status(budget@, transactions_view(transactions@), start@, end@, currency)
                == Ok::<BudgetStatusView, MoneyError>(status@),
            Err(error) => budget_status(budget@, transactions_view(transactions@), start@, end@, currency)
                == Err::<BudgetStatusView, MoneyError>(error),
        },
{
    let ghost all = transactions_view(transactions@);
    let mut used = Money::from_minor_units(0, currency);
    let mut i: usize = 0;
    proof {
        assert(all.subrange(0, 0) =~= Seq::<TransactionView>::empty());
    }
    while i < transactions.len()
        invariant
            i <= transactions@.len(),
            all == transactions_view(transactions@),
            budget_usage(all.subrange(0, i as int), budget@, start@, end@, currency) == Ok::<
                MoneyView,
                MoneyError,
            >(used@),
        decreases transactions@.len() - i,
    {
        let transaction = &transactions[i];
        proof {
            let prefix = all.subrange(0, i + 1);
            assert(prefix.drop_last() =~= all.subrange(0, i as int));
            assert(prefix.last() == transaction@);
        }
        let time = transaction.occurred_at();
        if transaction.category() == budget.category() && !time.is_before(start) && time.is_before(end) {
            let step = match transaction.kind() {
                TransactionKind::Expense => used.add(transaction.amount()),
                TransactionKind::ExpenseRefund => used.sub(transaction.amount()),
                TransactionKind::Income => Ok(used),
            };
            match step {
                Ok(next) => {
                    used = next;
                },
                Err(error) => {
                    proof {
                        lemma_usage_error_persists(all, budget@, start@, end@, currency, i + 1, error);
                    }
                    return Err(error);
                },
            }
        }
        i = i + 1;
    }
    proof {
        assert(all.subrange(0, i as int) =~= all);
    }
    let remaining = budget.limit().sub(&used)?;
    let overrun = remaining.minor_units() < 0;
    Ok(BudgetStatus { budget, used, remaining, overrun })
}

/// The statuses of the budgets of a month, in the order of the list.
pub fn statuses_for_month(
    budgets: Vec<Budget>,
    month: BudgetMonth,
    transactions: &Vec<Transaction>,
    start: &ZonedTime,
    end: &ZonedTime,
    currency: Currency,
) -> (r: Result<Vec<BudgetStatus>, MoneyError>)
    ensures
        match r {
            Ok(statuses) => statuses_of(
                budgets_view(budgets@),
                month,
                transactions_view(transactions@),
                start@,
                end@,
                currency,
            ) == Ok::<Seq<BudgetStatusView>, MoneyError>(statuses_view(statuses@)),
            Err(error) => statuses_of(
                budgets_view(budgets@),
                month,
                transactions_view(transactions@),
                start@,
                end@,
                currency,
            ) == Err::<Seq<BudgetStatusView>, MoneyError>(error),
        },
{
    let ghost all = budgets_view(budgets@);
    let ghost listed = transactions_view(transactions@);
    let n = budgets.len();
    let mut rest = budgets;
    let mut done: Vec<BudgetStatus> = Vec::new();
    let mut i: usize = 0;
    proof {
        assert(all.subrange(0, 0) =~= Seq::<BudgetView>::empty());
        assert(statuses_view(done@) =~= Seq::<BudgetStatusView>::empty());
    }
    while rest.len() > 0
        invariant
            all == budgets_view(budgets@),
            all.len() == n,
            i + rest@.len() == n,
            budgets_view(rest@) == all.subrange(i as int, n as int),
            listed == transactions_view(transactions@),
            statuses_of(all.subrange(0, i as int), month, listed, start@, end@, currency) == Ok::<
                Seq<BudgetStatusView>,
                MoneyError,
            >(statuses_view(done@)),
        decreases rest@.len(),
    {
        let ghost old_rest = rest@;
        let budget = rest.remove(0);
        proof {
            assert(budgets_view(old_rest)[0] == budget@);
            assert(rest@ =~= old_rest.subrange(1, old_rest.len() as int));
            assert forall|k: int| 0 <= k < rest@.len() implies budgets_view(rest@)[k] == all.subrange(
                i + 1,
                n as int,
            )[k] by {
                assert(budgets_view(old_rest)[k + 1] == all.subrange(i as int, n as int)[k + 1]);
            }
            assert(budgets_view(rest@) =~= all.subrange(i + 1, n as int));
            let prefix = all.subrange(0, i + 1);
            assert(prefix.drop_last() =~= all.subrange(0, i as int));
            assert(prefix.last() == budget@);
        }
        let ghost before = statuses_view(done@);
        if budget.month() == month {
            match status_of(budget, transactions, start, end, currency) {
                Ok(status) => {
                    done.push(status);
                    proof {
                        assert(statuses_view(done@) =~= before.push(status@));
                    }
                },
                Err(error) => {
                    proof {
                        lemma_statuses_error_persists(all, month, listed, start@, end@, currency, i + 1, error);
                    }
                    return Err(error);
                },
            }
        }
        i = i + 1;
    }
    proof {
        assert(all.subrange(0, i as int) =~= all);
    }
    Ok(done)
}

/// Whether a status occurs in a list.
pub open spec fn status_in(status: BudgetStatusView, list: Seq<BudgetStatusView>) -> bool {
    exists|j: int| 0 <= j < list.len() && list[j] == status
}

/// Whether a list has a status of a budget.
pub open spec fn budget_covered(id: crate::domain::budget::BudgetId, list: Seq<BudgetStatus>) -> bool {
    exists|i: int| 0 <= i < list.len() && list[i]@.budget.id == id
}

/// Whether statuses are exactly those of a list, ordered by category name and budget
/// identifier.
pub open spec fn ordered_statuses(statuses: Seq<BudgetStatus>, unordered: Seq<BudgetStatusView>) -> bool {
    &&& latest_first(statuses)
    &&& forall|i: int| 0 <= i < statuses.len() ==> status_in((#[trigger] statuses[i])@, unordered)
    &&& forall|j: int| 0 <= j < unordered.len() ==> budget_covered((#[trigger] unordered[j]).budget.id, statuses)
}

proof fn lemma_ordered_statuses(sorted: Seq<BudgetStatus>, values: Seq<BudgetStatus>)
    requires
        latest_first(sorted),
        forall|x: BudgetStatus| #[trigger] sorted.contains(x) ==> values.contains(x),
        forall|k: int| 0 <= k < values.len() ==> holds_rank(sorted, BudgetStatus::rank(#[trigger] values[k])),
    ensures
        ordered_statuses(sorted, statuses_view(values)),
{
    let view = statuses_view(values);
    assert forall|i: int| 0 <= i < sorted.len() implies status_in((#[trigger] sorted[i])@, view) by {
        assert(sorted.contains(sorted[i]));
        let j = choose|j: int| 0 <= j < values.len() && values[j] == sorted[i];
        assert(view[j] == values[j]@);
    }
    assert forall|j: int| 0 <= j < view.len() implies budget_covered((#[trigger] view[j]).budget.id, sorted) by {
        assert(view[j] == values[j]@);
        assert(holds_rank(sorted, BudgetStatus::rank(values[j])));
        let i = choose|i: int| 0 <= i < sorted.len() && BudgetStatus::rank(#[trigger] sorted[i]) == BudgetStatus::rank(values[j]);
        crate::domain::budget::BudgetId::lemma_view_injective(sorted[i]@.budget.id, view[j].budget.id);
    }
}

/// Whether statuses are those of the stored budgets of an account for a month, given
/// the stored transactions, the start and the end of the month.
pub open spec fn explains_statuses(
    statuses: Seq<BudgetStatus>,
    unordered: Seq<BudgetStatusView>,
    listed: Seq<TransactionView>,
    planned: Seq<BudgetView>,
    start: ZonedTimeView,
    end: ZonedTimeView,
    transactions: Map<crate::domain::transaction::TransactionId, TransactionView>,
    budgets: Map<crate::domain::budget::BudgetId, BudgetView>,
    account_id: AccountId,
    month: BudgetMonth,
    currency: Currency,
) -> bool {
    &&& lists_transactions_of(listed, transactions, account_id)
    &&& lists_budgets_of(planned, budgets, account_id)
    &&& statuses_of(planned, month, listed, start, end, currency) == Ok::<
        Seq<BudgetStatusView>,
        MoneyError,
    >(unordered)
    &&& ordered_statuses(statuses, unordered)
}

/// The status of each budget of an account for a month, by category name: how much its
/// category's expenses, less refunds, used within the month, what remains of the limit,
/// and whether the limit was overrun. The month starts and ends at local midnight in the
/// named time zone.
#[verifier::rlimit(50)]
pub fn get_budget_statuses<A: AccountRepository, T: TransactionRepository, B: BudgetRepository>(
    accounts: &A,
    transactions: &T,
    budgets: &B,
    account_id: AccountId,
    month: BudgetMonth,
    time_zone_name: &str,
) -> (r: Result<Vec<BudgetStatus>, BudgetReportError>)
    ensures
        match r {
            Ok(statuses) => {
                &&& accounts.accounts().contains_key(account_id)
                &&& exists|
                    listed: Seq<TransactionView>,
                    planned: Seq<BudgetView>,
                    start: ZonedTimeView,
                    end: ZonedTimeView,
                    unordered: Seq<BudgetStatusView>,
                |
                    #[trigger] explains_statuses(
                        statuses@,
                        unordered,
                        listed,
                        planned,
                        start,
                        end,
                        transactions.transactions(),
                        budgets.budgets(),
                        account_id,
                        month,
                        accounts.accounts()[account_id].currency,
                    ) && month_bounds(start, end, month_index(month@), time_zone_name@)
            },
            Err(BudgetReportError::AccountNotFound(missing)) => missing == account_id
                && !accounts.accounts().contains_key(account_id),
            Err(BudgetReportError::InvalidTimeZone(name)) => accounts.accounts().contains_key(
                account_id,
            ) && name@ == time_zone_name@,
            Err(BudgetReportError::Money(error)) => accounts.accounts().contains_key(account_id)
                && exists|
                listed: Seq<TransactionView>,
                planned: Seq<BudgetView>,
                start: ZonedTimeView,
                end: ZonedTimeView,
            |
                lists_transactions_of(listed, transactions.transactions(), account_id)
                    && lists_budgets_of(planned, budgets.budgets(), account_id) && month_bounds(
                    start,
                    end,
                    month_index(month@),
                    time_zone_name@,
                ) && #[trigger] statuses_of(
                    planned,
                    month,
                    listed,
                    start,
                    end,
                    accounts.accounts()[account_id].currency,
                ) == Err::<Seq<BudgetStatusView>, MoneyError>(error),
            Err(BudgetReportError::InvalidMonthBoundary(_)) => accounts.accounts().contains_key(
                account_id,
            ),
            Err(BudgetReportError::Repository(_)) => true,
        },
{
    let account = match accounts.find_by_id(account_id) {
        Ok(Some(account)) => account,
        Ok(None) => return Err(BudgetReportError::AccountNotFound(account_id)),
        Err(error) => return Err(BudgetReportError::Repository(error)),
    };
    let start = match month_start(month, time_zone_name) {
        Ok(start) => start,
        Err(MonthlyTrendError::InvalidTimeZone(name)) => return Err(BudgetReportError::InvalidTimeZone(name)),
        Err(MonthlyTrendError::InvalidMonthBoundary(message)) => return Err(
            BudgetReportError::InvalidMonthBoundary(message),
        ),
        Err(_) => return Err(BudgetReportError::InvalidMonthBoundary(String::new())),
    };
    let next = match next_month(month) {
        Ok(next) => next,
        Err(MonthlyTrendError::InvalidMonthBoundary(message)) => return Err(
            BudgetReportError::InvalidMonthBoundary(message),
        ),
        Err(_) => return Err(BudgetReportError::InvalidMonthBoundary(String::new())),
    };
    let end = match month_start(next, time_zone_name) {
        Ok(end) => end,
        Err(MonthlyTrendError::InvalidTimeZone(name)) => return Err(BudgetReportError::InvalidTimeZone(name)),
        Err(MonthlyTrendError::InvalidMonthBoundary(message)) => return Err(
            BudgetReportError::InvalidMonthBoundary(message),
        ),
        Err(_) => return Err(BudgetReportError::InvalidMonthBoundary(String::new())),
    };
    let listed = match transactions.find_by_account_id(account_id) {
        Ok(found) => found,
        Err(error) => return Err(BudgetReportError::Repository(error)),
    };
    let planned = match budgets.find_by_account_id(account_id) {
        Ok(found) => found,
        Err(error) => return Err(BudgetReportError::Repository(error)),
    };
    let ghost planned_view = budgets_view(planned@);
    let ghost listed_view = transactions_view(listed@);
    let unordered = match statuses_for_month(planned, month, &listed, &start, &end, account.currency()) {
        Ok(statuses) => statuses,
        Err(error) => {
            proof {
                assert(lists_transactions_of(listed_view, transactions.transactions(), account_id));
                assert(lists_budgets_of(planned_view, budgets.budgets(), account_id));
            }
            return Err(BudgetReportError::Money(error));
        },
    };
    let ghost unordered_values = unordered@;
    let ghost unordered_view = statuses_view(unordered@);
    let sorted = sorted_latest_first(unordered);
    proof {
        assert(lists_transactions_of(listed_view, transactions.transactions(), account_id));
        assert(lists_budgets_of(planned_view, budgets.budgets(), account_id));
        lemma_ordered_statuses(sorted@, unordered_values);
        assert(ordered_statuses(sorted@, unordered_view));
        assert(explains_statuses(
            sorted@,
            unordered_view,
            listed_view,
            planned_view,
            start@,
            end@,
            transactions.transactions(),
            budgets.budgets(),
            account_id,
            month,
            accounts.accounts()[account_id].currency,
        ));
    }
    let result: Result<Vec<BudgetStatus>, BudgetReportError> = Ok(sorted);
    proof {
        let statuses = result->Ok_0;
        assert(statuses@ == sorted@);
    }
    result
}

} // verus!
