use vstd::prelude::*;
use crate::application::repository::{
    AccountRepository, RepositoryError, TransactionRepository, TransferRepository,
    lists_transactions_of, lists_transfers_of,
};
use crate::domain::account::AccountId;
use crate::domain::time::{ZonedTime, ZonedTimeView};
use crate::domain::transaction::{Transaction, TransactionId, TransactionView, transactions_view};
use crate::domain::transfer::{Transfer, TransferId, TransferView, transfers_view};
use crate::sorting::{LatestFirst, holds_rank, latest_first, ranks_before, sorted_latest_first};

verus! {

/// One entry of an account's history: a transaction or a transfer.
#[derive(Debug, PartialEq, Eq)]
pub enum AccountActivity {
    Transaction(Transaction),
    Transfer(Transfer),
}

pub enum AccountActivityView {
    Transaction(TransactionView),
    Transfer(TransferView),
}

impl View for AccountActivity {
    type V = AccountActivityView;

    open spec fn view(&self) -> AccountActivityView {
        match self {
            AccountActivity::Transaction(value) => AccountActivityView::Transaction(value@),
            AccountActivity::Transfer(value) => AccountActivityView::Transfer(value@),
        }
    }
}

/// The time of an activity.
pub open spec fn activity_time(activity: AccountActivityView) -> ZonedTimeView {
    match activity {
        AccountActivityView::Transaction(value) => value.occurred_at,
        AccountActivityView::Transfer(value) => value.occurred_at,
    }
}

/// How activities at the same time are ordered: transfers before transactions, then the
/// larger identifier first.
pub open spec fn activity_tie_breaker(activity: AccountActivityView) -> int {
    match activity {
        AccountActivityView::Transaction(value) => value.id@ as int,
        AccountActivityView::Transfer(value) => 0x1_0000_0000_0000_0000int + value.id@ as int,
    }
}

/// The variant number and identifier of an activity.
pub open spec fn activity_tie_parts(activity: AccountActivityView) -> (u8, u64) {
    match activity {
        AccountActivityView::Transaction(value) => (0u8, value.id@),
        AccountActivityView::Transfer(value) => (1u8, value.id@),
    }
}

impl AccountActivity {
    /// When the activity happened.
    pub fn occurred_at(&self) -> (r: &ZonedTime)
        ensures
            r@ == activity_time(self@),
    {
        match self {
            AccountActivity::Transaction(value) => value.occurred_at(),
            AccountActivity::Transfer(value) => value.occurred_at(),
        }
    }

    /// How activities at the same time are told apart: transfers (1) come before
    /// transactions (0), then the larger identifier first.
    pub fn tie_breaker(&self) -> (r: (u8, u64))
        ensures
            r == activity_tie_parts(self@),
    {
        match self {
            AccountActivity::Transaction(value) => (0, value.id().value()),
            AccountActivity::Transfer(value) => (1, value.id().value()),
        }
    }
}

impl LatestFirst for AccountActivity {
    open spec fn rank(value: AccountActivity) -> (int, int) {
        (activity_time(value@).instant, activity_tie_breaker(value@))
    }

    fn rank_value(&self) -> (r: (i128, i128)) {
        match self {
            AccountActivity::Transaction(value) => (
                value.occurred_at().timestamp_nanos(),
                value.id().value() as i128,
            ),
            AccountActivity::Transfer(value) => (
                value.occurred_at().timestamp_nanos(),
                0x1_0000_0000_0000_0000i128 + value.id().value() as i128,
            ),
        }
    }
}

/// Why an account's activity could not be listed.
#[derive(Debug, PartialEq, Eq)]
pub enum AccountActivityError {
    AccountNotFound(AccountId),
    Repository(RepositoryError),
}

/// Whether a list holds exactly the stored transactions of an account and the stored
/// transfers that involve it.
pub open spec fn lists_activity(
    values: Seq<AccountActivityView>,
    transactions: Map<TransactionId, TransactionView>,
    transfers: Map<TransferId, TransferView>,
    account: AccountId,
) -> bool {
    &&& forall|i: int|
        0 <= i < values.len() ==> match #[trigger] values[i] {
            AccountActivityView::Transaction(value) => transactions.contains_key(value.id)
                && transactions[value.id] == value && value.account_id == account,
            AccountActivityView::Transfer(value) => transfers.contains_key(value.id) && transfers[value.id]
                == value && value.involves(account),
        }
    &&& forall|id: TransactionId| #[trigger]
        transactions.contains_key(id) && transactions[id].account_id == account ==> exists|i: int|
            0 <= i < values.len() && #[trigger] values[i] == AccountActivityView::Transaction(
                transactions[id],
            )
    &&& forall|id: TransferId| #[trigger]
        transfers.contains_key(id) && transfers[id].involves(account) ==> exists|i: int|
            0 <= i < values.len() && #[trigger] values[i] == AccountActivityView::Transfer(transfers[id])
}

/// Whether an activity holds one of the given transactions or transfers.
pub open spec fn drawn_from(activity: AccountActivity, transactions: Seq<Transaction>, transfers: Seq<Transfer>) -> bool {
    match activity {
        AccountActivity::Transaction(value) => transactions.contains(value),
        AccountActivity::Transfer(value) => transfers.contains(value),
    }
}

/// The transactions and transfers of an existing account, latest first; at equal times
/// transfers come before transactions and larger identifiers first.
pub fn list_account_activity<A: AccountRepository, T: TransactionRepository, R: TransferRepository>(
    accounts: &A,
    transactions: &T,
    transfers: &R,
    account_id: AccountId,
) -> (r: Result<Vec<AccountActivity>, AccountActivityError>)
    ensures
        match r {
            Ok(activity) => {
                &&& accounts.accounts().contains_key(account_id)
                &&& lists_activity(
                    activity@.map_values(|value: AccountActivity| value@),
                    transactions.transactions(),
                    transfers.transfers(),
                    account_id,
                )
                &&& latest_first(activity@)
            },
            Err(AccountActivityError::AccountNotFound(missing)) => missing == account_id
                && !accounts.accounts().contains_key(account_id),
            Err(AccountActivityError::Repository(_)) => true,
        },
{
    match accounts.find_by_id(account_id) {
        Ok(Some(_)) => {},
        Ok(None) => return Err(AccountActivityError::AccountNotFound(account_id)),
        Err(error) => return Err(AccountActivityError::Repository(error)),
    }
    let mut listed = match transactions.find_by_account_id(account_id) {
        Ok(found) => found,
        Err(error) => return Err(AccountActivityError::Repository(error)),
    };
    let mut moved = match transfers.find_by_account_id(account_id) {
        Ok(found) => found,
        Err(error) => return Err(AccountActivityError::Repository(error)),
    };
    let ghost listed_all = listed@;
    let ghost moved_all = moved@;
    let ghost stored_transactions = transactions.transactions();
    let ghost stored_transfers = transfers.transfers();
    proof {
        assert(lists_transactions_of(transactions_view(listed_all), stored_transactions, account_id));
        assert(lists_transfers_of(transfers_view(moved_all), stored_transfers, account_id));
    }
    let mut activity: Vec<AccountActivity> = Vec::new();
    while listed.len() > 0
        invariant
            listed@.len() <= listed_all.len(),
            listed@ == listed_all.subrange(0, listed@.len() as int),
            forall|x: AccountActivity| #[trigger]
                activity@.contains(x) ==> drawn_from(x, listed_all, Seq::empty()),
            forall|k: int|
                listed@.len() <= k < listed_all.len() ==> holds_rank(
                    activity@,
                    AccountActivity::rank(AccountActivity::Transaction(#[trigger] listed_all[k])),
                ),
        decreases listed@.len(),
    {
        let value = listed.pop().unwrap();
        let ghost n = listed@.len() as int;
        let ghost before = activity@;
        proof {
            assert(listed@ =~= listed_all.subrange(0, n));
            assert(value == listed_all[n]);
        }
        activity.push(AccountActivity::Transaction(value));
        proof {
            assert forall|x: AccountActivity| #[trigger] activity@.contains(x) implies drawn_from(
                x,
                listed_all,
                Seq::empty(),
            ) by {
                let m = choose|m: int| 0 <= m < activity@.len() && activity@[m] == x;
                if m < before.len() {
                    assert(before[m] == x);
                    assert(before.contains(x));
                }
            }
            assert forall|k: int| n <= k < listed_all.len() implies holds_rank(
                activity@,
                AccountActivity::rank(AccountActivity::Transaction(#[trigger] listed_all[k])),
            ) by {
                if k == n {
                    assert(activity@[before.len() as int] == AccountActivity::Transaction(listed_all[k]));
                } else {
                    let m = choose|m: int|
                        0 <= m < before.len() && AccountActivity::rank(#[trigger] before[m])
                            == AccountActivity::rank(AccountActivity::Transaction(listed_all[k]));
                    assert(activity@[m] == before[m]);
                }
            }
        }
    }
    proof {
        assert forall|x: AccountActivity| #[trigger] activity@.contains(x) implies drawn_from(
            x,
            listed_all,
            moved_all,
        ) by {
            assert(drawn_from(x, listed_all, Seq::empty()));
        }
    }
    while moved.len() > 0
        invariant
            moved@.len() <= moved_all.len(),
            moved@ == moved_all.subrange(0, moved@.len() as int),
            forall|x: AccountActivity| #[trigger]
                activity@.contains(x) ==> drawn_from(x, listed_all, moved_all),
            forall|k: int|
                0 <= k < listed_all.len() ==> holds_rank(
                    activity@,
                    AccountActivity::rank(AccountActivity::Transaction(#[trigger] listed_all[k])),
                ),
            forall|k: int|
                moved@.len() <= k < moved_all.len() ==> holds_rank(
                    activity@,
                    AccountActivity::rank(AccountActivity::Transfer(#[trigger] moved_all[k])),
                ),
        decreases moved@.len(),
    {
        let value = moved.pop().unwrap();
        let ghost n = moved@.len() as int;
        let ghost before = activity@;
        proof {
            assert(moved@ =~= moved_all.subrange(0, n));
            assert(value == moved_all[n]);
        }
        activity.push(AccountActivity::Transfer(value));
        proof {
            assert forall|x: AccountActivity| #[trigger] activity@.contains(x) implies drawn_from(
                x,
                listed_all,
                moved_all,
            ) by {
                let m = choose|m: int| 0 <= m < activity@.len() && activity@[m] == x;
                if m < before.len() {
                    assert(before[m] == x);
                    assert(before.contains(x));
                }
            }
            assert forall|k: int| 0 <= k < listed_all.len() implies holds_rank(
                activity@,
                AccountActivity::rank(AccountActivity::Transaction(#[trigger] listed_all[k])),
            ) by {
                let m = choose|m: int|
                    0 <= m < before.len() && AccountActivity::rank(#[trigger] before[m])
                        == AccountActivity::rank(AccountActivity::Transaction(listed_all[k]));
                assert(activity@[m] == before[m]);
            }
            assert forall|k: int| n <= k < moved_all.len() implies holds_rank(
                activity@,
                AccountActivity::rank(AccountActivity::Transfer(#[trigger] moved_all[k])),
            ) by {
                if k == n {
                    assert(activity@[before.len() as int] == AccountActivity::Transfer(moved_all[k]));
                } else {
                    let m = choose|m: int|
                        0 <= m < before.len() && AccountActivity::rank(#[trigger] before[m])
                            == AccountActivity::rank(AccountActivity::Transfer(moved_all[k]));
                    assert(activity@[m] == before[m]);
                }
            }
        }
    }
    let ghost collected = activity@;
    let sorted = sorted_latest_first(activity);
    proof {
        let view = sorted@.map_values(|value: AccountActivity| value@);
        assert forall|i: int| 0 <= i < view.len() implies match #[trigger] view[i] {
            AccountActivityView::Transaction(value) => stored_transactions.contains_key(value.id)
                && stored_transactions[value.id] == value && value.account_id == account_id,
            AccountActivityView::Transfer(value) => stored_transfers.contains_key(value.id)
                && stored_transfers[value.id] == value && value.involves(account_id),
        } by {
            let x = sorted@[i];
            assert(sorted@.contains(x));
            assert(collected.contains(x));
            match x {
                AccountActivity::Transaction(t) => {
                    let k = choose|k: int| 0 <= k < listed_all.len() && listed_all[k] == t;
                    assert(transactions_view(listed_all)[k] == t@);
                },
                AccountActivity::Transfer(t) => {
                    let k = choose|k: int| 0 <= k < moved_all.len() && moved_all[k] == t;
                    assert(transfers_view(moved_all)[k] == t@);
                },
            }
        }
        assert forall|id: TransactionId| #[trigger]
            stored_transactions.contains_key(id) && stored_transactions[id].account_id == account_id implies exists|i: int|
            0 <= i < view.len() && #[trigger] view[i] == AccountActivityView::Transaction(
                stored_transactions[id],
            ) by {
            let k = choose|k: int|
                0 <= k < transactions_view(listed_all).len() && (#[trigger] transactions_view(listed_all)[k]).id == id;
            assert(transactions_view(listed_all)[k] == listed_all[k]@);
            let target = AccountActivity::Transaction(listed_all[k]);
            assert(holds_rank(collected, AccountActivity::rank(target)));
            let m = choose|m: int| 0 <= m < collected.len() && AccountActivity::rank(#[trigger] collected[m]) == AccountActivity::rank(target);
            assert(holds_rank(sorted@, AccountActivity::rank(collected[m])));
            let i = choose|i: int| 0 <= i < sorted@.len() && AccountActivity::rank(#[trigger] sorted@[i]) == AccountActivity::rank(collected[m]);
            let x = sorted@[i];
            assert(sorted@.contains(x));
            assert(collected.contains(x));
            match x {
                AccountActivity::Transaction(t) => {
                    let j = choose|j: int| 0 <= j < listed_all.len() && listed_all[j] == t;
                    assert(transactions_view(listed_all)[j] == t@);
                    TransactionId::lemma_view_injective(t@.id, id);
                    assert(view[i] == AccountActivityView::Transaction(stored_transactions[id]));
                },
                AccountActivity::Transfer(t) => {
                    assert(false);
                },
            }
        }
        assert forall|id: TransferId| #[trigger]
            stored_transfers.contains_key(id) && stored_transfers[id].involves(account_id) implies exists|i: int|
            0 <= i < view.len() && #[trigger] view[i] == AccountActivityView::Transfer(stored_transfers[id]) by {
            let k = choose|k: int|
                0 <= k < transfers_view(moved_all).len() && (#[trigger] transfers_view(moved_all)[k]).id == id;
            assert(transfers_view(moved_all)[k] == moved_all[k]@);
            let target = AccountActivity::Transfer(moved_all[k]);
            assert(holds_rank(collected, AccountActivity::rank(target)));
            let m = choose|m: int| 0 <= m < collected.len() && AccountActivity::rank(#[trigger] collected[m]) == AccountActivity::rank(target);
            assert(holds_rank(sorted@, AccountActivity::rank(collected[m])));
            let i = choose|i: int| 0 <= i < sorted@.len() && AccountActivity::rank(#[trigger] sorted@[i]) == AccountActivity::rank(collected[m]);
            let x = sorted@[i];
            assert(sorted@.contains(x));
            assert(collected.contains(x));
            match x {
                AccountActivity::Transaction(t) => {
                    assert(false);
                },
                AccountActivity::Transfer(t) => {
                    let j = choose|j: int| 0 <= j < moved_all.len() && moved_all[j] == t;
                    assert(transfers_view(moved_all)[j] == t@);
                    TransferId::lemma_view_injective(t@.id, id);
                    assert(view[i] == AccountActivityView::Transfer(stored_transfers[id]));
                },
            }
        }
    }
    Ok(sorted)
}

} // verus!
