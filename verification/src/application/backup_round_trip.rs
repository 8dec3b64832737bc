use vstd::prelude::*;
use crate::application::backup::{
    account_entry, budget_entry, transaction_entry, transfer_entry,
    BACKUP_FORMAT_VERSION, BackupAccountView, BackupBudgetView, BackupDocumentView,
    BackupErrorView, BackupTransactionView, BackupTransferView, ValidatedBackupView,
    account_currency, accounts_outcome, backs_up_accounts, backs_up_budgets,
    backs_up_transactions, backs_up_transfers, backup_account_of, backup_budget_of,
    backup_outcome, backup_transaction_of, backup_transfer_of, budgets_outcome, storable_id,
    transactions_outcome, transfers_outcome,
};
use crate::codes::{law_category_code_round_trip, law_currency_code_round_trip, law_kind_code_round_trip};
use crate::domain::account::{AccountId, AccountView};
use crate::domain::budget::{BudgetId, BudgetMonth, BudgetView, valid_month};
use crate::domain::money::fits_i64;
use crate::domain::time::TimeReading;
use crate::domain::transaction::{TransactionId, TransactionView};
use crate::domain::transfer::{TransferId, TransferView};
use crate::text::trimmed;

verus! {

broadcast use {
    AccountId::lemma_from_value,
    TransactionId::lemma_from_value,
    TransferId::lemma_from_value,
    BudgetId::lemma_from_value,
    BudgetMonth::lemma_from_parts,
};

/// How an account comes back from a backup, which holds no balance adjustments.
pub open spec fn restored_account(account: AccountView) -> AccountView {
    AccountView { adjustments: Seq::empty(), ..account }
}

/// Whether a text is a description or name as the library stores it: trimmed and not
/// empty.
pub open spec fn stored_text(text: Seq<char>) -> bool {
    text.len() > 0 && trimmed(text) == text
}

/// Whether the stored accounts are as the library keeps them.
pub open spec fn restorable_accounts(stored: Map<AccountId, AccountView>) -> bool {
    forall|id: AccountId| #[trigger]
        stored.contains_key(id) ==> stored[id].id == id && storable_id(id@) && stored_text(
            stored[id].name,
        )
}

/// Whether the stored transactions of stored accounts are as the library keeps them.
pub open spec fn restorable_transactions(
    stored: Map<TransactionId, TransactionView>,
    accounts: Map<AccountId, AccountView>,
) -> bool {
    forall|id: TransactionId| #[trigger]
        stored.contains_key(id) && accounts.contains_key(stored[id].account_id) ==> {
            &&& stored[id].id == id
            &&& storable_id(id@)
            &&& stored[id].amount.minor > 0
            &&& fits_i64(stored[id].amount.minor)
            &&& stored[id].amount.currency == accounts[stored[id].account_id].currency
            &&& stored_text(stored[id].description)
        }
}

/// Whether the stored transfers that involve a stored account are as the library keeps
/// them: both accounts stored, and each amount in its account's currency.
pub open spec fn restorable_transfers(
    stored: Map<TransferId, TransferView>,
    accounts: Map<AccountId, AccountView>,
) -> bool {
    forall|id: TransferId| #[trigger]
        stored.contains_key(id) && (accounts.contains_key(stored[id].source_account_id)
            || accounts.contains_key(stored[id].destination_account_id)) ==> {
            let transfer = stored[id];
            &&& transfer.id == id
            &&& storable_id(id@)
            &&& accounts.contains_key(transfer.source_account_id)
            &&& accounts.contains_key(transfer.destination_account_id)
            &&& transfer.source_account_id != transfer.destination_account_id
            &&& transfer.source_amount.minor > 0
            &&& transfer.destination_amount.minor > 0
            &&& fits_i64(transfer.source_amount.minor)
            &&& fits_i64(transfer.destination_amount.minor)
            &&& transfer.source_amount.currency == accounts[transfer.source_account_id].currency
            &&& transfer.destination_amount.currency
                == accounts[transfer.destination_account_id].currency
            &&& (transfer.source_amount.currency == transfer.destination_amount.currency
                ==> transfer.source_amount.minor == transfer.destination_amount.minor)
            &&& stored_text(transfer.description)
        }
}

/// Whether the stored budgets of stored accounts are as the library keeps them: one per
/// account, category and month.
pub open spec fn restorable_budgets(
    stored: Map<BudgetId, BudgetView>,
    accounts: Map<AccountId, AccountView>,
) -> bool {
    &&& forall|id: BudgetId| #[trigger]
        stored.contains_key(id) && accounts.contains_key(stored[id].account_id) ==> {
            &&& stored[id].id == id
            &&& storable_id(id@)
            &&& stored[id].limit.minor > 0
            &&& fits_i64(stored[id].limit.minor)
            &&& stored[id].limit.currency == accounts[stored[id].account_id].currency
            &&& valid_month(stored[id].month@.year, stored[id].month@.month)
        }
    &&& forall|a: BudgetId, b: BudgetId|
        #![trigger stored[a], stored[b]]
        stored.contains_key(a) && stored.contains_key(b) && a != b && stored[a].account_id
            == stored[b].account_id && stored[a].category == stored[b].category ==> stored[a].month
            != stored[b].month
}

/// The accounts that a backup's account entries restore.
pub open spec fn restored_accounts(
    entries: Seq<BackupAccountView>,
    stored: Map<AccountId, AccountView>,
) -> Seq<AccountView> {
    entries.map_values(|entry: BackupAccountView| restored_account(stored[AccountId::from_value(entry.id)]))
}

/// The transactions that a backup's transaction entries restore.
pub open spec fn restored_transactions(
    entries: Seq<BackupTransactionView>,
    stored: Map<TransactionId, TransactionView>,
) -> Seq<TransactionView> {
    entries.map_values(|entry: BackupTransactionView| stored[TransactionId::from_value(entry.id)])
}

/// The transfers that a backup's transfer entries restore.
pub open spec fn restored_transfers(
    entries: Seq<BackupTransferView>,
    stored: Map<TransferId, TransferView>,
) -> Seq<TransferView> {
    entries.map_values(|entry: BackupTransferView| stored[TransferId::from_value(entry.id)])
}

/// The budgets that a backup's budget entries restore.
pub open spec fn restored_budgets(
    entries: Seq<BackupBudgetView>,
    stored: Map<BudgetId, BudgetView>,
) -> Seq<BudgetView> {
    entries.map_values(|entry: BackupBudgetView| stored[BudgetId::from_value(entry.id)])
}

/// Whether each timestamp text of the transaction entries reads back as the stored time.
pub open spec fn transaction_times_read_back(
    times: Seq<TimeReading>,
    entries: Seq<BackupTransactionView>,
    stored: Map<TransactionId, TransactionView>,
) -> bool {
    &&& times.len() == entries.len()
    &&& forall|i: int|
        0 <= i < entries.len() ==> #[trigger] times[i] == Ok::<_, Seq<char>>(
            stored[TransactionId::from_value(entries[i].id)].occurred_at,
        )
}

/// Whether each timestamp text of the transfer entries reads back as the stored time.
pub open spec fn transfer_times_read_back(
    times: Seq<TimeReading>,
    entries: Seq<BackupTransferView>,
    stored: Map<TransferId, TransferView>,
) -> bool {
    &&& times.len() == entries.len()
    &&& forall|i: int|
        0 <= i < entries.len() ==> #[trigger] times[i] == Ok::<_, Seq<char>>(
            stored[TransferId::from_value(entries[i].id)].occurred_at,
        )
}

proof fn lemma_account_currency_absent(accounts: Seq<AccountView>, id: u64)
    requires
        forall|k: int| 0 <= k < accounts.len() ==> (#[trigger] accounts[k]).id@ != id,
    ensures
        account_currency(accounts, id) is None,
    decreases accounts.len(),
{
    if accounts.len() > 0 {
        let rest = accounts.drop_last();
        assert forall|k: int| 0 <= k < rest.len() implies (#[trigger] rest[k]).id@ != id by {
            assert(rest[k] == accounts[k]);
        }
        lemma_account_currency_absent(rest, id);
    }
}

proof fn lemma_account_currency_present(accounts: Seq<AccountView>, k: int)
    requires
        0 <= k < accounts.len(),
        forall|i: int, j: int|
            0 <= i < j < accounts.len() ==> (#[trigger] accounts[i]).id@ != (#[trigger] accounts[j]).id@,
    ensures
        account_currency(accounts, accounts[k].id@) == Some(accounts[k].currency),
    decreases accounts.len(),
{
    if k < accounts.len() - 1 {
        let rest = accounts.drop_last();
        assert(accounts.last() == accounts[accounts.len() - 1]);
        assert forall|i: int, j: int| 0 <= i < j < rest.len() implies (#[trigger] rest[i]).id@ != (
        #[trigger] rest[j]).id@ by {
            assert(rest[i] == accounts[i] && rest[j] == accounts[j]);
        }
        assert(rest[k] == accounts[k]);
        lemma_account_currency_present(rest, k);
    }
}

proof fn lemma_accounts_restore(entries: Seq<BackupAccountView>, stored: Map<AccountId, AccountView>)
    requires
        restorable_accounts(stored),
        forall|i: int, j: int|
            0 <= i < j < entries.len() ==> (#[trigger] entries[i]).id < (#[trigger] entries[j]).id,
        forall|i: int|
            0 <= i < entries.len() ==> stored.contains_key(AccountId::from_value((#[trigger] entries[i]).id))
                && entries[i] == backup_account_of(stored[AccountId::from_value(entries[i].id)]),
    ensures
        accounts_outcome(entries) == Ok::<Seq<AccountView>, BackupErrorView>(
            restored_accounts(entries, stored),
        ),
    decreases entries.len(),
{
    if entries.len() > 0 {
        let rest = entries.drop_last();
        assert forall|i: int, j: int| 0 <= i < j < rest.len() implies (#[trigger] rest[i]).id < (
        #[trigger] rest[j]).id by {
            assert(rest[i] == entries[i] && rest[j] == entries[j]);
        }
        assert forall|i: int| 0 <= i < rest.len() implies stored.contains_key(
            AccountId::from_value((#[trigger] rest[i]).id),
        ) && rest[i] == backup_account_of(stored[AccountId::from_value(rest[i].id)]) by {
            assert(rest[i] == entries[i]);
        }
        lemma_accounts_restore(rest, stored);
        let accepted = restored_accounts(rest, stored);
        let last = entries.last();
        let n = entries.len() - 1;
        assert(last == entries[n]);
        let id = AccountId::from_value(last.id);
        let account = stored[id];
        assert(stored.contains_key(id));
        assert(account.id == id);
        assert forall|k: int| 0 <= k < accepted.len() implies (#[trigger] accepted[k]).id@ != last.id by {
            assert(rest[k] == entries[k]);
            assert(stored.contains_key(AccountId::from_value(rest[k].id)));
            assert(accepted[k].id == AccountId::from_value(rest[k].id));
        }
        lemma_account_currency_absent(accepted, last.id);
        law_currency_code_round_trip(account.currency);
        assert(last == backup_account_of(account));
        assert(account_currency(accepted, last.id) is None);
        assert(storable_id(last.id));
        assert(crate::codes::currency_named(last.currency) == Some(account.currency));
        assert(crate::domain::account::new_account_outcome(last.name, account.currency) is Ok);
        assert(account_entry(last, accepted) == Ok::<AccountView, BackupErrorView>(restored_account(account)));
        assert(accounts_outcome(rest) == Ok::<Seq<AccountView>, BackupErrorView>(accepted));
        assert(restored_accounts(entries, stored) =~= accepted.push(restored_account(account)));
    } else {
        assert(restored_accounts(entries, stored) =~= Seq::<AccountView>::empty());
    }
}

proof fn lemma_restored_accounts_unique(entries: Seq<BackupAccountView>, stored: Map<AccountId, AccountView>)
    requires
        restorable_accounts(stored),
        forall|i: int, j: int|
            0 <= i < j < entries.len() ==> (#[trigger] entries[i]).id < (#[trigger] entries[j]).id,
        forall|i: int|
            0 <= i < entries.len() ==> stored.contains_key(AccountId::from_value((#[trigger] entries[i]).id))
                && entries[i] == backup_account_of(stored[AccountId::from_value(entries[i].id)]),
    ensures
        forall|i: int, j: int|
            0 <= i < j < entries.len() ==> (#[trigger] restored_accounts(entries, stored)[i]).id@ != (
            #[trigger] restored_accounts(entries, stored)[j]).id@,
        forall|i: int|
            0 <= i < entries.len() ==> (#[trigger] restored_accounts(entries, stored)[i]).id@
                == entries[i].id && restored_accounts(entries, stored)[i].currency == stored[AccountId::from_value(entries[i].id)].currency,
{
    let restored = restored_accounts(entries, stored);
    assert forall|i: int| 0 <= i < entries.len() implies (#[trigger] restored[i]).id@ == entries[i].id
        && restored[i].currency == stored[AccountId::from_value(entries[i].id)].currency by {
        assert(stored.contains_key(AccountId::from_value(entries[i].id)));
    }
    assert forall|i: int, j: int| 0 <= i < j < entries.len() implies (#[trigger] restored[i]).id@ != (
    #[trigger] restored[j]).id@ by {
        assert(restored[i].id@ == entries[i].id);
        assert(restored[j].id@ == entries[j].id);
    }
}

/// The currency that the restored accounts give for the account of a stored entity.
proof fn lemma_restored_currency(
    document_accounts: Seq<BackupAccountView>,
    stored: Map<AccountId, AccountView>,
    account: AccountId,
)
    requires
        restorable_accounts(stored),
        backs_up_accounts(document_accounts, stored),
        stored.contains_key(account),
    ensures
        account_currency(restored_accounts(document_accounts, stored), account@) == Some(
            stored[account].currency,
        ),
{
    let restored = restored_accounts(document_accounts, stored);
    lemma_restored_accounts_unique(document_accounts, stored);
    let k = choose|k: int| 0 <= k < document_accounts.len() && (#[trigger] document_accounts[k]).id == account@;
    AccountId::lemma_view_injective(AccountId::from_value(document_accounts[k].id), account);
    assert(restored[k].id@ == account@);
    lemma_account_currency_present(restored, k);
}

proof fn lemma_transactions_restore(
    entries: Seq<BackupTransactionView>,
    times: Seq<TimeReading>,
    stored: Map<TransactionId, TransactionView>,
    accounts: Map<AccountId, AccountView>,
    document_accounts: Seq<BackupAccountView>,
)
    requires
        restorable_accounts(accounts),
        backs_up_accounts(document_accounts, accounts),
        restorable_transactions(stored, accounts),
        forall|i: int, j: int|
            0 <= i < j < entries.len() ==> (#[trigger] entries[i]).id < (#[trigger] entries[j]).id,
        forall|i: int|
            0 <= i < entries.len() ==> stored.contains_key(TransactionId::from_value((#[trigger] entries[i]).id))
                && entries[i] == backup_transaction_of(stored[TransactionId::from_value(entries[i].id)])
                && accounts.contains_key(stored[TransactionId::from_value(entries[i].id)].account_id),
        entries.len() <= times.len(),
        forall|i: int|
            0 <= i < entries.len() ==> #[trigger] times[i] == Ok::<_, Seq<char>>(
                stored[TransactionId::from_value(entries[i].id)].occurred_at,
            ),
    ensures
        transactions_outcome(entries, times, restored_accounts(document_accounts, accounts)) == Ok::<
            Seq<TransactionView>,
            BackupErrorView,
        >(restored_transactions(entries, stored)),
    decreases entries.len(),
{
    if entries.len() > 0 {
        let rest = entries.drop_last();
        assert forall|i: int, j: int| 0 <= i < j < rest.len() implies (#[trigger] rest[i]).id < (
        #[trigger] rest[j]).id by {
            assert(rest[i] == entries[i] && rest[j] == entries[j]);
        }
        assert forall|i: int| 0 <= i < rest.len() implies stored.contains_key(
            TransactionId::from_value((#[trigger] rest[i]).id),
        ) && rest[i] == backup_transaction_of(stored[TransactionId::from_value(rest[i].id)])
            && accounts.contains_key(stored[TransactionId::from_value(rest[i].id)].account_id) by {
            assert(rest[i] == entries[i]);
        }
        assert forall|i: int| 0 <= i < rest.len() implies #[trigger] times[i] == Ok::<_, Seq<char>>(
            stored[TransactionId::from_value(rest[i].id)].occurred_at,
        ) by {
            assert(rest[i] == entries[i]);
        }
        lemma_transactions_restore(rest, times, stored, accounts, document_accounts);
        let accepted = restored_transactions(rest, stored);
        let n = entries.len() - 1;
        let last = entries[n];
        assert(entries.last() == last);
        let id = TransactionId::from_value(last.id);
        let transaction = stored[id];
        assert(stored.contains_key(id));
        assert(accounts.contains_key(transaction.account_id));
        assert(transaction.id == id);
        assert(times[n] == Ok::<_, Seq<char>>(transaction.occurred_at));
        assert forall|j: int| 0 <= j < accepted.len() implies (#[trigger] accepted[j]).id@ != last.id by {
            assert(rest[j] == entries[j]);
            let other = TransactionId::from_value(rest[j].id);
            assert(stored.contains_key(other));
            assert(accounts.contains_key(stored[other].account_id));
            assert(accepted[j] == stored[other]);
        }
        lemma_restored_currency(document_accounts, accounts, transaction.account_id);
        law_currency_code_round_trip(transaction.amount.currency);
        law_kind_code_round_trip(transaction.kind);
        law_category_code_round_trip(transaction.category);
        AccountId::lemma_view_injective(AccountId::from_value(transaction.account_id@), transaction.account_id);
        let restored = restored_accounts(document_accounts, accounts);
        assert(transaction.amount.minor as i64 as int == transaction.amount.minor);
        assert(transaction_entry(last, times[n], restored, accepted) == Ok::<TransactionView, BackupErrorView>(transaction));
        assert(restored_transactions(entries, stored) =~= accepted.push(transaction));
    } else {
        assert(restored_transactions(entries, stored) =~= Seq::<TransactionView>::empty());
    }
}

proof fn lemma_transfers_restore(
    entries: Seq<BackupTransferView>,
    times: Seq<TimeReading>,
    stored: Map<TransferId, TransferView>,
    accounts: Map<AccountId, AccountView>,
    document_accounts: Seq<BackupAccountView>,
)
    requires
        restorable_accounts(accounts),
        backs_up_accounts(document_accounts, accounts),
        restorable_transfers(stored, accounts),
        forall|i: int, j: int|
            0 <= i < j < entries.len() ==> (#[trigger] entries[i]).id < (#[trigger] entries[j]).id,
        forall|i: int|
            0 <= i < entries.len() ==> stored.contains_key(TransferId::from_value((#[trigger] entries[i]).id))
                && entries[i] == backup_transfer_of(stored[TransferId::from_value(entries[i].id)])
                && (accounts.contains_key(stored[TransferId::from_value(entries[i].id)].source_account_id)
                || accounts.contains_key(
                stored[TransferId::from_value(entries[i].id)].destination_account_id,
            )),
        entries.len() <= times.len(),
        forall|i: int|
            0 <= i < entries.len() ==> #[trigger] times[i] == Ok::<_, Seq<char>>(
                stored[TransferId::from_value(entries[i].id)].occurred_at,
            ),
    ensures
        transfers_outcome(entries, times, restored_accounts(document_accounts, accounts)) == Ok::<
            Seq<TransferView>,
            BackupErrorView,
        >(restored_transfers(entries, stored)),
    decreases entries.len(),
{
    if entries.len() > 0 {
        let rest = entries.drop_last();
        assert forall|i: int, j: int| 0 <= i < j < rest.len() implies (#[trigger] rest[i]).id < (
        #[trigger] rest[j]).id by {
            assert(rest[i] == entries[i] && rest[j] == entries[j]);
        }
        assert forall|i: int| 0 <= i < rest.len() implies stored.contains_key(
            TransferId::from_value((#[trigger] rest[i]).id),
        ) && rest[i] == backup_transfer_of(stored[TransferId::from_value(rest[i].id)]) && (
        accounts.contains_key(stored[TransferId::from_value(rest[i].id)].source_account_id)
            || accounts.contains_key(stored[TransferId::from_value(rest[i].id)].destination_account_id)) by {
            assert(rest[i] == entries[i]);
        }
        assert forall|i: int| 0 <= i < rest.len() implies #[trigger] times[i] == Ok::<_, Seq<char>>(
            stored[TransferId::from_value(rest[i].id)].occurred_at,
        ) by {
            assert(rest[i] == entries[i]);
        }
        lemma_transfers_restore(rest, times, stored, accounts, document_accounts);
        let accepted = restored_transfers(rest, stored);
        let n = entries.len() - 1;
        let last = entries[n];
        assert(entries.last() == last);
        let id = TransferId::from_value(last.id);
        let transfer = stored[id];
        assert(stored.contains_key(id));
        assert(accounts.contains_key(transfer.source_account_id) || accounts.contains_key(
            transfer.destination_account_id,
        ));
        assert(transfer.id == id);
        assert(times[n] == Ok::<_, Seq<char>>(transfer.occurred_at));
        assert forall|j: int| 0 <= j < accepted.len() implies (#[trigger] accepted[j]).id@ != last.id by {
            assert(rest[j] == entries[j]);
            let other = TransferId::from_value(rest[j].id);
            assert(stored.contains_key(other));
            assert(accepted[j] == stored[other]);
        }
        lemma_restored_currency(document_accounts, accounts, transfer.source_account_id);
        lemma_restored_currency(document_accounts, accounts, transfer.destination_account_id);
        law_currency_code_round_trip(transfer.source_amount.currency);
        law_currency_code_round_trip(transfer.destination_amount.currency);
        AccountId::lemma_view_injective(
            AccountId::from_value(transfer.source_account_id@),
            transfer.source_account_id,
        );
        AccountId::lemma_view_injective(
            AccountId::from_value(transfer.destination_account_id@),
            transfer.destination_account_id,
        );
        let restored = restored_accounts(document_accounts, accounts);
        assert(transfer_entry(last, times[n], restored, accepted) == Ok::<TransferView, BackupErrorView>(transfer));
        assert(restored_transfers(entries, stored) =~= accepted.push(transfer));
    } else {
        assert(restored_transfers(entries, stored) =~= Seq::<TransferView>::empty());
    }
}

proof fn lemma_budgets_restore(
    entries: Seq<BackupBudgetView>,
    stored: Map<BudgetId, BudgetView>,
    accounts: Map<AccountId, AccountView>,
    document_accounts: Seq<BackupAccountView>,
)
    requires
        restorable_accounts(accounts),
        backs_up_accounts(document_accounts, accounts),
        restorable_budgets(stored, accounts),
        forall|i: int, j: int|
            0 <= i < j < entries.len() ==> (#[trigger] entries[i]).id < (#[trigger] entries[j]).id,
        forall|i: int|
            0 <= i < entries.len() ==> stored.contains_key(BudgetId::from_value((#[trigger] entries[i]).id))
                && entries[i] == backup_budget_of(stored[BudgetId::from_value(entries[i].id)])
                && accounts.contains_key(stored[BudgetId::from_value(entries[i].id)].account_id),
    ensures
        budgets_outcome(entries, restored_accounts(document_accounts, accounts)) == Ok::<
            Seq<BudgetView>,
            BackupErrorView,
        >(restored_budgets(entries, stored)),
    decreases entries.len(),
{
    if entries.len() > 0 {
        let rest = entries.drop_last();
        assert forall|i: int, j: int| 0 <= i < j < rest.len() implies (#[trigger] rest[i]).id < (
        #[trigger] rest[j]).id by {
            assert(rest[i] == entries[i] && rest[j] == entries[j]);
        }
        assert forall|i: int| 0 <= i < rest.len() implies stored.contains_key(
            BudgetId::from_value((#[trigger] rest[i]).id),
        ) && rest[i] == backup_budget_of(stored[BudgetId::from_value(rest[i].id)])
            && accounts.contains_key(stored[BudgetId::from_value(rest[i].id)].account_id) by {
            assert(rest[i] == entries[i]);
        }
        lemma_budgets_restore(rest, stored, accounts, document_accounts);
        let accepted = restored_budgets(rest, stored);
        let n = entries.len() - 1;
        let last = entries[n];
        assert(entries.last() == last);
        let id = BudgetId::from_value(last.id);
        let budget = stored[id];
        assert(stored.contains_key(id));
        assert(accounts.contains_key(budget.account_id));
        assert(budget.id == id);
        assert forall|j: int| 0 <= j < accepted.len() implies (#[trigger] accepted[j]).id@ != last.id by {
            assert(rest[j] == entries[j]);
            let other = BudgetId::from_value(rest[j].id);
            assert(stored.contains_key(other));
            assert(accepted[j] == stored[other]);
        }
        lemma_restored_currency(document_accounts, accounts, budget.account_id);
        law_currency_code_round_trip(budget.limit.currency);
        law_category_code_round_trip(budget.category);
        AccountId::lemma_view_injective(AccountId::from_value(budget.account_id@), budget.account_id);
        let month = BudgetMonth::from_parts(budget.month@.year as i32, budget.month@.month as u8);
        BudgetMonth::lemma_view_injective(month, budget.month);
        assert(month == budget.month);
        assert forall|j: int| 0 <= j < accepted.len() implies !((#[trigger] accepted[j]).account_id@
            == last.account_id && accepted[j].category == budget.category && accepted[j].month
            == month) by {
            assert(rest[j] == entries[j]);
            let other = BudgetId::from_value(rest[j].id);
            assert(stored.contains_key(other));
            assert(accepted[j] == stored[other]);
            assert(stored[other].id@ != last.id);
            if stored[other].account_id@ == last.account_id {
                AccountId::lemma_view_injective(stored[other].account_id, budget.account_id);
            }
        }
        let restored = restored_accounts(document_accounts, accounts);
        assert(budget_entry(last, restored, accepted) == Ok::<BudgetView, BackupErrorView>(budget));
        assert(restored_budgets(entries, stored) =~= accepted.push(budget));
    } else {
        assert(restored_budgets(entries, stored) =~= Seq::<BudgetView>::empty());
    }
}

/// A backup restores what it was made from: checking a document that backs up stores
/// whose data the library's operations produced gives back every account (without its
/// balance adjustments, which backups do not hold), transaction, transfer and budget,
/// with their identifiers, references and times, provided each time text reads back as
/// the time it was written from.
pub proof fn law_backup_round_trip(
    document: BackupDocumentView,
    accounts: Map<AccountId, AccountView>,
    transactions: Map<TransactionId, TransactionView>,
    transfers: Map<TransferId, TransferView>,
    budgets: Map<BudgetId, BudgetView>,
    transaction_times: Seq<TimeReading>,
    transfer_times: Seq<TimeReading>,
)
    requires
        document.format_version == BACKUP_FORMAT_VERSION,
        backs_up_accounts(document.accounts, accounts),
        backs_up_transactions(document.transactions, transactions, accounts),
        backs_up_transfers(document.transfers, transfers, accounts),
        backs_up_budgets(document.budgets, budgets, accounts),
        restorable_accounts(accounts),
        restorable_transactions(transactions, accounts),
        restorable_transfers(transfers, accounts),
        restorable_budgets(budgets, accounts),
        transaction_times_read_back(transaction_times, document.transactions, transactions),
        transfer_times_read_back(transfer_times, document.transfers, transfers),
    ensures
        backup_outcome(document, transaction_times, transfer_times) == Ok::<
            ValidatedBackupView,
            BackupErrorView,
        >(
            ValidatedBackupView {
                accounts: restored_accounts(document.accounts, accounts),
                transactions: restored_transactions(document.transactions, transactions),
                transfers: restored_transfers(document.transfers, transfers),
                budgets: restored_budgets(document.budgets, budgets),
            },
        ),
{
    lemma_accounts_restore(document.accounts, accounts);
    lemma_transactions_restore(
        document.transactions,
        transaction_times,
        transactions,
        accounts,
        document.accounts,
    );
    lemma_transfers_restore(document.transfers, transfer_times, transfers, accounts, document.accounts);
    lemma_budgets_restore(document.budgets, budgets, accounts, document.accounts);
}

} // verus!
