use vstd::prelude::*;
use crate::application::list_transactions::{TransactionFilterView, passes_filter};
use crate::application::repository::{
    AccountRepository, RepositoryError, TransactionRepository, lists_transactions_of,
};
use crate::domain::account::AccountId;
use crate::domain::summary::{SummaryError, SummaryReport, SummaryReportView, calculate_summary, summary_of};
use crate::domain::time::{ZonedTime, ZonedTimeView};
use crate::domain::transaction::{Transaction, TransactionView, transactions_view};

verus! {

/// Why a ranged summary could not be read.
#[derive(Debug, PartialEq, Eq)]
pub enum GetRangedSummaryError {
    AccountNotFound(AccountId),
    InvalidTimeRange { from: ZonedTime, to: ZonedTime },
    Repository(RepositoryError),
    Summary(SummaryError),
}

/// The transactions of a list that occurred at or after `from` and before `to`, in order.
pub open spec fn within_range(
    transactions: Seq<TransactionView>,
    from: ZonedTimeView,
    to: ZonedTimeView,
) -> Seq<TransactionView>
    decreases transactions.len(),
{
    if transactions.len() == 0 {
        Seq::empty()
    } else {
        let last = transactions.last();
        let kept = within_range(transactions.drop_last(), from, to);
        if from.instant <= last.occurred_at.instant && last.occurred_at.instant < to.instant {
            kept.push(last)
        } else {
            kept
        }
    }
}

/// The filter of a transaction listing that sets only a time range.
pub open spec fn range_filter(from: ZonedTimeView, to: ZonedTimeView) -> TransactionFilterView {
    TransactionFilterView {
        category: None,
        kind: None,
        from: Some(from),
        to: Some(to),
        description_contains: None,
        min_amount_minor: None,
        max_amount_minor: None,
    }
}

/// A ranged summary counts the transactions that a listing filtered by the same range
/// keeps: those with `from <= occurred_at < to`, in the same order.
pub proof fn law_summary_range_is_listing_range(
    transactions: Seq<TransactionView>,
    from: ZonedTimeView,
    to: ZonedTimeView,
)
    ensures
        within_range(transactions, from, to) == transactions.filter(
            |transaction: TransactionView| passes_filter(transaction, range_filter(from, to)),
        ),
    decreases transactions.len(),
{
    reveal(Seq::filter);
    if transactions.len() > 0 {
        law_summary_range_is_listing_range(transactions.drop_last(), from, to);
    }
}

/// Adjacent time ranges do not overlap: a transaction in `from <= occurred_at < to` lies in
/// exactly one of `from <= occurred_at < middle` and `middle <= occurred_at < to`.
pub proof fn law_adjacent_ranges_split_a_range(
    transaction: TransactionView,
    from: ZonedTimeView,
    middle: ZonedTimeView,
    to: ZonedTimeView,
)
    requires
        from.instant <= middle.instant,
        middle.instant <= to.instant,
    ensures
        !(passes_filter(transaction, range_filter(from, middle)) && passes_filter(
            transaction,
            range_filter(middle, to),
        )),
        passes_filter(transaction, range_filter(from, to)) <==> (passes_filter(
            transaction,
            range_filter(from, middle),
        ) || passes_filter(transaction, range_filter(middle, to))),
{
}

/// The transactions of a list that occurred at or after `from` and before `to`.
pub fn keep_within_range(transactions: Vec<Transaction>, from: &ZonedTime, to: &ZonedTime) -> (r: Vec<
    Transaction,
>)
    ensures
        transactions_view(r@) == within_range(transactions_view(transactions@), from@, to@),
{
    let ghost all = transactions_view(transactions@);
    let n = transactions.len();
    let mut rest = transactions;
    let mut kept: Vec<Transaction> = Vec::new();
    let mut i: usize = 0;
    proof {
        assert(all.subrange(0, 0) =~= Seq::<TransactionView>::empty());
        assert(transactions_view(kept@) =~= Seq::<TransactionView>::empty());
    }
    while rest.len() > 0
        invariant
            all.len() == n,
            i + rest@.len() == n,
            transactions_view(rest@) == all.subrange(i as int, n as int),
            transactions_view(kept@) == within_range(all.subrange(0, i as int), from@, to@),
        decreases rest@.len(),
    {
        let ghost old_rest = rest@;
        let value = rest.remove(0);
        proof {
            assert(transactions_view(old_rest)[0] == value@);
            assert(rest@ =~= old_rest.subrange(1, old_rest.len() as int));
            assert forall|k: int| 0 <= k < rest@.len() implies transactions_view(rest@)[k] == all.subrange(
                i + 1,
                n as int,
            )[k] by {
                assert(transactions_view(old_rest)[k + 1] == all.subrange(i as int, n as int)[k + 1]);
            }
            assert(transactions_view(rest@) =~= all.subrange(i + 1, n as int));
            let prefix = all.subrange(0, i + 1);
            assert(prefix.drop_last() =~= all.subrange(0, i as int));
            assert(prefix.last() == value@);
        }
        let ghost before = transactions_view(kept@);
        if !value.occurred_at().is_before(from) && value.occurred_at().is_before(to) {
            kept.push(value);
            proof {
                assert(transactions_view(kept@) =~= before.push(transactions_view(old_rest)[0]));
            }
        }
        i = i + 1;
    }
    proof {
        assert(all.subrange(0, i as int) =~= all);
    }
    kept
}

/// A summary of the transactions of an account that occurred at or after `from` and
/// before `to`.
pub fn get_ranged_summary<A: AccountRepository, T: TransactionRepository>(
    account_repository: &A,
    transaction_repository: &T,
    account_id: AccountId,
    from: ZonedTime,
    to: ZonedTime,
) -> (r: Result<SummaryReport, GetRangedSummaryError>)
    ensures
        match r {
            Ok(report) => from@.instant < to@.instant && account_repository.accounts().contains_key(
                account_id,
            ) && exists|listed: Seq<TransactionView>|
                lists_transactions_of(listed, transaction_repository.transactions(), account_id)
                    && #[trigger] summary_of(
                    account_repository.accounts()[account_id],
                    within_range(listed, from@, to@),
                ) == Ok::<SummaryReportView, SummaryError>(report@),
            Err(GetRangedSummaryError::InvalidTimeRange { from: start, to: end }) => from@.instant
                >= to@.instant && start@ == from@ && end@ == to@,
            Err(GetRangedSummaryError::AccountNotFound(id)) => from@.instant < to@.instant && id
                == account_id && !account_repository.accounts().contains_key(account_id),
            Err(GetRangedSummaryError::Repository(_)) => from@.instant < to@.instant,
            Err(GetRangedSummaryError::Summary(error)) => from@.instant < to@.instant
                && account_repository.accounts().contains_key(account_id) && exists|
                listed: Seq<TransactionView>,
            |
                lists_transactions_of(listed, transaction_repository.transactions(), account_id)
                    && #[trigger] summary_of(
                    account_repository.accounts()[account_id],
                    within_range(listed, from@, to@),
                ) == Err::<SummaryReportView, SummaryError>(error),
        },
{
    if !from.is_before(&to) {
        return Err(GetRangedSummaryError::InvalidTimeRange { from, to });
    }
    let account = match account_repository.find_by_id(account_id) {
        Ok(Some(account)) => account,
        Ok(None) => return Err(GetRangedSummaryError::AccountNotFound(account_id)),
        Err(error) => return Err(GetRangedSummaryError::Repository(error)),
    };
    let transactions = match transaction_repository.find_by_account_id(account_id) {
        Ok(found) => found,
        Err(error) => return Err(GetRangedSummaryError::Repository(error)),
    };
    let ghost listed = transactions_view(transactions@);
    let ranged = keep_within_range(transactions, &from, &to);
    let result = calculate_summary(&account, ranged.as_slice());
    proof {
        assert(summary_of(account_repository.accounts()[account_id], within_range(listed, from@, to@))
            == crate::domain::summary::summary_result_view(result));
    }
    match result {
        Ok(report) => Ok(report),
        Err(error) => Err(GetRangedSummaryError::Summary(error)),
    }
}

} // verus!
