use vstd::prelude::*;
use crate::application::account_balance::{apply_transfers, balance_after_transfers};
use crate::application::repository::{
    AccountRepository, RepositoryError, TransactionRepository, TransferRepository,
    lists_transactions_of, lists_transfers_of,
};
use crate::domain::account::{
    Account, AccountId, AccountView, BalanceAdjustment, BalanceAdjustmentKind, BalanceAdjustmentView,
    adjustments_view, copy_adjustments,
};
use crate::domain::balance::{BalanceError, balance_error_of, balance_of, calculate_balance};
use crate::domain::money::{Money, MoneyView, currency_code, money_difference};
use crate::domain::time::{ZonedTime, ZonedTimeView};
use crate::domain::transaction::{Transaction, TransactionId, TransactionView, transactions_view};
use crate::domain::transfer::{Transfer, TransferId, TransferView, transfers_view};

verus! {

/// Why an adjustment could not be recorded.
#[derive(Debug, PartialEq, Eq)]
pub enum ReconcileError {
    Repository(RepositoryError),
    Balance(BalanceError),
    AccountNotFound(AccountId),
    OpeningAlreadySet,
    OpeningAfterActivity,
    AccountChanged,
}

/// The transactions that occurred at or before an instant, in their order.
pub open spec fn transactions_until(values: Seq<TransactionView>, at: int) -> Seq<TransactionView>
    decreases values.len(),
{
    if values.len() == 0 {
        Seq::empty()
    } else {
        let earlier = transactions_until(values.drop_last(), at);
        if values.last().occurred_at.instant <= at {
            earlier.push(values.last())
        } else {
            earlier
        }
    }
}

/// The transfers that occurred at or before an instant, in their order.
pub open spec fn transfers_until(values: Seq<TransferView>, at: int) -> Seq<TransferView>
    decreases values.len(),
{
    if values.len() == 0 {
        Seq::empty()
    } else {
        let earlier = transfers_until(values.drop_last(), at);
        if values.last().occurred_at.instant <= at {
            earlier.push(values.last())
        } else {
            earlier
        }
    }
}

/// Whether a transfer occurred at or before an instant.
pub open spec fn occurred_by(at: int) -> spec_fn(TransferView) -> bool {
    |transfer: TransferView| transfer.occurred_at.instant <= at
}

/// A reconciliation counts exactly the transfers that occurred at or before its time,
/// in their order: the counted transfers are the listed ones filtered by that time,
/// each of them occurred at or before it, and a transfer after it changes nothing.
pub proof fn law_reconciliation_counts_transfers_until(values: Seq<TransferView>, at: int, later: TransferView)
    ensures
        transfers_until(values, at) == values.filter(occurred_by(at)),
        forall|k: int|
            0 <= k < transfers_until(values, at).len() ==> (#[trigger] transfers_until(values, at)[k]).occurred_at.instant
                <= at,
        later.occurred_at.instant > at ==> transfers_until(values.push(later), at) == transfers_until(values, at),
    decreases values.len(),
{
    reveal(Seq::filter);
    let pred = occurred_by(at);
    if values.len() > 0 {
        law_reconciliation_counts_transfers_until(values.drop_last(), at, later);
        assert(pred(values.last()) == (values.last().occurred_at.instant <= at));
        let earlier = transfers_until(values.drop_last(), at);
        assert forall|k: int| 0 <= k < transfers_until(values, at).len() implies (#[trigger] transfers_until(
            values,
            at,
        )[k]).occurred_at.instant <= at by {
            if k < earlier.len() {
                assert(earlier[k].occurred_at.instant <= at);
            }
        }
    }
    assert(transfers_until(values, at) =~= values.filter(pred));
    assert(values.push(later).drop_last() =~= values);
}

/// Whether some transaction occurred strictly before an instant.
pub open spec fn any_transaction_before(values: Seq<TransactionView>, at: int) -> bool {
    exists|i: int| 0 <= i < values.len() && (#[trigger] values[i]).occurred_at.instant < at
}

/// Whether some transfer occurred strictly before an instant.
pub open spec fn any_transfer_before(values: Seq<TransferView>, at: int) -> bool {
    exists|i: int| 0 <= i < values.len() && (#[trigger] values[i]).occurred_at.instant < at
}

/// The amount of an adjustment: an opening balance is the observed balance itself; a
/// reconciliation is the observed balance minus the balance that the transactions and
/// then the transfers up to the adjustment time give.
pub open spec fn adjustment_amount(
    account: AccountView,
    transactions: Seq<TransactionView>,
    transfers: Seq<TransferView>,
    observed: MoneyView,
    at: int,
    kind: BalanceAdjustmentKind,
) -> Result<MoneyView, BalanceError> {
    match kind {
        BalanceAdjustmentKind::Opening => Ok(observed),
        BalanceAdjustmentKind::Reconciliation => match balance_of(
            account,
            transactions_until(transactions, at),
        ) {
            Err(error) => Err(error),
            Ok(from_transactions) => match balance_after_transfers(
                from_transactions,
                transfers_until(transfers, at),
                account.id,
            ) {
                Err(error) => Err(error),
                Ok(calculated) => match money_difference(observed, calculated) {
                    Err(error) => Err(balance_error_of(error)),
                    Ok(amount) => Ok(amount),
                },
            },
        },
    }
}

/// What reconciling gives for a stored account in the observed currency, once its
/// transactions and transfers are listed: an opening balance must be the first
/// adjustment and precede all activity.
pub open spec fn reconcile_outcome(
    account: AccountView,
    transactions: Seq<TransactionView>,
    transfers: Seq<TransferView>,
    observed: MoneyView,
    at: ZonedTimeView,
    description: Seq<char>,
    kind: BalanceAdjustmentKind,
) -> Result<BalanceAdjustmentView, ReconcileError> {
    if kind == BalanceAdjustmentKind::Opening && account.adjustments.len() > 0 {
        Err(ReconcileError::OpeningAlreadySet)
    } else if kind == BalanceAdjustmentKind::Opening && (any_transaction_before(
        transactions,
        at.instant,
    ) || any_transfer_before(transfers, at.instant)) {
        Err(ReconcileError::OpeningAfterActivity)
    } else {
        match adjustment_amount(account, transactions, transfers, observed, at.instant, kind) {
            Err(error) => Err(ReconcileError::Balance(error)),
            Ok(amount) => Ok(
                BalanceAdjustmentView {
                    amount_minor: amount.minor as i64,
                    currency: currency_code(account.currency),
                    occurred_at: at,
                    description,
                    kind,
                },
            ),
        }
    }
}

/// Whether a reconcile result is what the stored transactions and transfers of the
/// account give when listed in some order.
pub open spec fn explains_reconcile(
    result: Result<BalanceAdjustmentView, ReconcileError>,
    account: AccountView,
    stored_transactions: Map<TransactionId, TransactionView>,
    stored_transfers: Map<TransferId, TransferView>,
    observed: MoneyView,
    at: ZonedTimeView,
    description: Seq<char>,
    kind: BalanceAdjustmentKind,
) -> bool {
    exists|transactions: Seq<TransactionView>, transfers: Seq<TransferView>|
        lists_transactions_of(transactions, stored_transactions, account.id) && lists_transfers_of(
            transfers,
            stored_transfers,
            account.id,
        ) && #[trigger] reconcile_outcome(
            account,
            transactions,
            transfers,
            observed,
            at,
            description,
            kind,
        ) == result
}

/// Whether some listed transaction occurred strictly before `at`.
fn any_transaction_occurred_before(values: &Vec<Transaction>, at: &ZonedTime) -> (r: bool)
    ensures
        r == any_transaction_before(transactions_view(values@), at@.instant),
{
    let ghost all = transactions_view(values@);
    let mut i: usize = 0;
    while i < values.len()
        invariant
            i <= values@.len(),
            all == transactions_view(values@),
            forall|k: int| 0 <= k < i ==> (#[trigger] all[k]).occurred_at.instant >= at@.instant,
        decreases values@.len() - i,
    {
        if values[i].occurred_at().is_before(at) {
            assert(all[i as int].occurred_at.instant < at@.instant);
            return true;
        }
        i = i + 1;
    }
    false
}

/// Whether some listed transfer occurred strictly before `at`.
fn any_transfer_occurred_before(values: &Vec<Transfer>, at: &ZonedTime) -> (r: bool)
    ensures
        r == any_transfer_before(transfers_view(values@), at@.instant),
{
    let ghost all = transfers_view(values@);
    let mut i: usize = 0;
    while i < values.len()
        invariant
            i <= values@.len(),
            all == transfers_view(values@),
            forall|k: int| 0 <= k < i ==> (#[trigger] all[k]).occurred_at.instant >= at@.instant,
        decreases values@.len() - i,
    {
        if values[i].occurred_at().is_before(at) {
            assert(all[i as int].occurred_at.instant < at@.instant);
            return true;
        }
        i = i + 1;
    }
    false
}

/// Copies of the listed transactions that occurred at or before `at`, in their order.
fn transactions_occurred_until(values: &Vec<Transaction>, at: &ZonedTime) -> (r: Vec<Transaction>)
    ensures
        transactions_view(r@) == transactions_until(transactions_view(values@), at@.instant),
{
    let ghost all = transactions_view(values@);
    let mut kept: Vec<Transaction> = Vec::new();
    let mut i: usize = 0;
    assert(transactions_view(kept@) =~= transactions_until(all.subrange(0, 0), at@.instant));
    while i < values.len()
        invariant
            i <= values@.len(),
            all == transactions_view(values@),
            transactions_view(kept@) == transactions_until(all.subrange(0, i as int), at@.instant),
        decreases values@.len() - i,
    {
        let ghost prefix = all.subrange(0, i + 1);
        assert(prefix.drop_last() =~= all.subrange(0, i as int));
        assert(prefix.last() == values@[i as int]@);
        if !at.is_before(values[i].occurred_at()) {
            let ghost before = kept@;
            kept.push(values[i].clone());
            assert(transactions_view(kept@) =~= transactions_view(before).push(values@[i as int]@));
        }
        i = i + 1;
    }
    assert(all.subrange(0, values@.len() as int) =~= all);
    kept
}

/// Copies of the listed transfers that occurred at or before `at`, in their order.
fn transfers_occurred_until(values: &Vec<Transfer>, at: &ZonedTime) -> (r: Vec<Transfer>)
    ensures
        transfers_view(r@) == transfers_until(transfers_view(values@), at@.instant),
{
    let ghost all = transfers_view(values@);
    let mut kept: Vec<Transfer> = Vec::new();
    let mut i: usize = 0;
    assert(transfers_view(kept@) =~= transfers_until(all.subrange(0, 0), at@.instant));
    while i < values.len()
        invariant
            i <= values@.len(),
            all == transfers_view(values@),
            transfers_view(kept@) == transfers_until(all.subrange(0, i as int), at@.instant),
        decreases values@.len() - i,
    {
        let ghost prefix = all.subrange(0, i + 1);
        assert(prefix.drop_last() =~= all.subrange(0, i as int));
        assert(prefix.last() == values@[i as int]@);
        if !at.is_before(values[i].occurred_at()) {
            let ghost before = kept@;
            kept.push(values[i].duplicate());
            assert(transfers_view(kept@) =~= transfers_view(before).push(values@[i as int]@));
        }
        i = i + 1;
    }
    assert(all.subrange(0, values@.len() as int) =~= all);
    kept
}

/// What reconciling gives once an account's transactions and transfers are listed: the
/// observed balance must be in the account's currency; an opening balance must be the
/// first adjustment and precede all activity; a reconciliation records the observed
/// balance minus the one that the activity up to `at` gives.
pub fn reconcile_listed(
    account: &Account,
    transactions: &Vec<Transaction>,
    transfers: &Vec<Transfer>,
    observed: Money,
    at: &ZonedTime,
    description: String,
    kind: BalanceAdjustmentKind,
) -> (r: Result<BalanceAdjustment, ReconcileError>)
    ensures
        ({
            let expected = if observed@.currency != account@.currency {
                Err(
                    ReconcileError::Balance(
                        BalanceError::CurrencyMismatch {
                            expected: account@.currency,
                            found: observed@.currency,
                        },
                    ),
                )
            } else {
                reconcile_outcome(
                    account@,
                    transactions_view(transactions@),
                    transfers_view(transfers@),
                    observed@,
                    at@,
                    description@,
                    kind,
                )
            };
            match r {
                Ok(adjustment) => expected == Ok::<BalanceAdjustmentView, ReconcileError>(adjustment@),
                Err(error) => expected == Err::<BalanceAdjustmentView, ReconcileError>(error),
            }
        }),
{
    let account_id = account.id();
    if observed.currency() != account.currency() {
        return Err(
            ReconcileError::Balance(
                BalanceError::CurrencyMismatch {
                    expected: account.currency(),
                    found: observed.currency(),
                },
            ),
        );
    }
    let all_transactions = transactions;
    let all_transfers = transfers;
    let ghost listed_transactions = transactions_view(all_transactions@);
    let ghost listed_transfers = transfers_view(all_transfers@);
    let ghost outcome = reconcile_outcome(
        account@,
        listed_transactions,
        listed_transfers,
        observed@,
        at@,
        description@,
        kind,
    );
    if kind == BalanceAdjustmentKind::Opening {
        if account.adjustments().len() > 0 {
            assert(outcome == Err::<BalanceAdjustmentView, ReconcileError>(
                ReconcileError::OpeningAlreadySet,
            ));
            return Err(ReconcileError::OpeningAlreadySet);
        }
        if any_transaction_occurred_before(all_transactions, &at) || any_transfer_occurred_before(
            all_transfers,
            &at,
        ) {
            assert(outcome == Err::<BalanceAdjustmentView, ReconcileError>(
                ReconcileError::OpeningAfterActivity,
            ));
            return Err(ReconcileError::OpeningAfterActivity);
        }
    }
    let amount = match kind {
        BalanceAdjustmentKind::Opening => observed,
        BalanceAdjustmentKind::Reconciliation => {
            let dated_transactions = transactions_occurred_until(all_transactions, &at);
            let from_transactions = match calculate_balance(account, dated_transactions.as_slice()) {
                Ok(value) => value,
                Err(error) => {
                    assert(outcome == Err::<BalanceAdjustmentView, ReconcileError>(
                        ReconcileError::Balance(error),
                    ));
                    return Err(ReconcileError::Balance(error));
                },
            };
            let dated_transfers = transfers_occurred_until(all_transfers, &at);
            let calculated = match apply_transfers(from_transactions, &dated_transfers, account_id) {
                Ok(value) => value,
                Err(error) => {
                    assert(outcome == Err::<BalanceAdjustmentView, ReconcileError>(
                        ReconcileError::Balance(error),
                    ));
                    return Err(ReconcileError::Balance(error));
                },
            };
            match observed.sub(&calculated) {
                Ok(value) => value,
                Err(error) => {
                    let error = BalanceError::from_money_error(error);
                    assert(outcome == Err::<BalanceAdjustmentView, ReconcileError>(
                        ReconcileError::Balance(error),
                    ));
                    return Err(ReconcileError::Balance(error));
                },
            }
        },
    };
    assert(adjustment_amount(account@, listed_transactions, listed_transfers, observed@, at@.instant, kind)
        == Ok::<MoneyView, BalanceError>(amount@));
    let adjustment = BalanceAdjustment {
        amount_minor: amount.minor_units(),
        currency: String::from_str(account.currency().code()),
        occurred_at: at.duplicate(),
        description,
        kind,
    };
    assert(outcome == Ok::<BalanceAdjustmentView, ReconcileError>(adjustment@));
    Ok(adjustment)
}

/// Records a fixed balance adjustment at `at` on an account. An opening adjustment
/// records the observed balance; a reconciliation records the difference between the
/// observed balance and the one that the activity up to `at` gives. Callers with
/// concurrent writers must hold a write transaction across this read, calculation and
/// update.
pub fn reconcile_balance<A: AccountRepository, T: TransactionRepository, R: TransferRepository>(
    accounts: &mut A,
    transactions: &T,
    transfers: &R,
    id: AccountId,
    observed: Money,
    at: ZonedTime,
    description: String,
    kind: BalanceAdjustmentKind,
) -> (r: Result<BalanceAdjustment, ReconcileError>)
    ensures
        match r {
            Ok(adjustment) => {
                &&& old(accounts).accounts().contains_key(id)
                &&& observed@.currency == old(accounts).accounts()[id].currency
                &&& explains_reconcile(
                    Ok(adjustment@),
                    old(accounts).accounts()[id],
                    transactions.transactions(),
                    transfers.transfers(),
                    observed@,
                    at@,
                    description@,
                    kind,
                )
                &&& final(accounts).accounts() == old(accounts).accounts().insert(
                    id,
                    AccountView {
                        adjustments: old(accounts).accounts()[id].adjustments.push(adjustment@),
                        ..old(accounts).accounts()[id]
                    },
                )
            },
            Err(ReconcileError::AccountNotFound(missing)) => {
                &&& missing == id
                &&& !old(accounts).accounts().contains_key(id)
                &&& final(accounts).accounts() == old(accounts).accounts()
            },
            Err(ReconcileError::Repository(_)) => final(accounts).accounts() == old(accounts).accounts(),
            Err(ReconcileError::AccountChanged) => false,
            Err(ReconcileError::Balance(error)) => {
                &&& old(accounts).accounts().contains_key(id)
                &&& final(accounts).accounts() == old(accounts).accounts()
                &&& if observed@.currency != old(accounts).accounts()[id].currency {
                    error == (BalanceError::CurrencyMismatch {
                        expected: old(accounts).accounts()[id].currency,
                        found: observed@.currency,
                    })
                } else {
                    explains_reconcile(
                        Err(ReconcileError::Balance(error)),
                        old(accounts).accounts()[id],
                        transactions.transactions(),
                        transfers.transfers(),
                        observed@,
                        at@,
                        description@,
                        kind,
                    )
                }
            },
            Err(error) => {
                &&& old(accounts).accounts().contains_key(id)
                &&& observed@.currency == old(accounts).accounts()[id].currency
                &&& final(accounts).accounts() == old(accounts).accounts()
                &&& explains_reconcile(
                    Err(error),
                    old(accounts).accounts()[id],
                    transactions.transactions(),
                    transfers.transfers(),
                    observed@,
                    at@,
                    description@,
                    kind,
                )
            },
        },
{
    let account = match accounts.find_by_id(id) {
        Ok(Some(account)) => account,
        Ok(None) => return Err(ReconcileError::AccountNotFound(id)),
        Err(error) => return Err(ReconcileError::Repository(error)),
    };
    let ghost stored = account@;
    let account_id = account.id();
    if observed.currency() != account.currency() {
        return Err(
            ReconcileError::Balance(
                BalanceError::CurrencyMismatch {
                    expected: account.currency(),
                    found: observed.currency(),
                },
            ),
        );
    }
    let all_transactions = match transactions.find_by_account_id(account_id) {
        Ok(found) => found,
        Err(error) => return Err(ReconcileError::Repository(error)),
    };
    let all_transfers = match transfers.find_by_account_id(account_id) {
        Ok(found) => found,
        Err(error) => return Err(ReconcileError::Repository(error)),
    };
    let ghost listed_transactions = transactions_view(all_transactions@);
    let ghost listed_transfers = transfers_view(all_transfers@);
    let adjustment = match reconcile_listed(
        &account,
        &all_transactions,
        &all_transfers,
        observed,
        &at,
        description,
        kind,
    ) {
        Ok(adjustment) => adjustment,
        Err(error) => return Err(error),
    };
    proof {
        assert(reconcile_outcome(stored, listed_transactions, listed_transfers, observed@, at@, description@, kind)
            == Ok::<BalanceAdjustmentView, ReconcileError>(adjustment@));
    }
    let mut values = copy_adjustments(account.adjustments());
    let ghost before = values@;
    values.push(adjustment.clone());
    proof {
        assert(adjustments_view(values@) =~= stored.adjustments.push(adjustment@));
    }
    let updated = account.with_adjustments(values).unwrap();
    match accounts.update(updated) {
        Ok(true) => Ok(adjustment),
        Ok(false) => Err(ReconcileError::AccountChanged),
        Err(error) => Err(ReconcileError::Repository(error)),
    }
}

} // verus!
