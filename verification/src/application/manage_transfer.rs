use vstd::prelude::*;
use crate::application::repository::{
    AccountRepository, RepositoryError, TransferRepository, lists_transfers_of,
};
use crate::domain::account::{AccountId, AccountView};
use crate::domain::money::{Currency, Money, MoneyView};
use crate::domain::time::{ZonedTime, ZonedTimeView};
use crate::domain::transfer::{
    NewTransfer, NewTransferView, Transfer, TransferError, TransferId, TransferView,
    new_transfer_outcome, transfers_view,
};
use crate::sorting::{LatestFirst, holds_rank, latest_first, ranks_before, sorted_latest_first};

verus! {

/// The fields of a transfer to replace; `None` keeps the stored value.
#[derive(Debug)]
pub struct TransferChanges {
    pub source_account_id: Option<AccountId>,
    pub destination_account_id: Option<AccountId>,
    pub source_amount: Option<Money>,
    pub destination_amount: Option<Money>,
    pub occurred_at: Option<ZonedTime>,
    pub description: Option<String>,
}

pub struct TransferChangesView {
    pub source_account_id: Option<AccountId>,
    pub destination_account_id: Option<AccountId>,
    pub source_amount: Option<MoneyView>,
    pub destination_amount: Option<MoneyView>,
    pub occurred_at: Option<ZonedTimeView>,
    pub description: Option<Seq<char>>,
}

impl View for TransferChanges {
    type V = TransferChangesView;

    open spec fn view(&self) -> TransferChangesView {
        TransferChangesView {
            source_account_id: self.source_account_id,
            destination_account_id: self.destination_account_id,
            source_amount: match self.source_amount {
                Some(amount) => Some(amount@),
                None => None,
            },
            destination_amount: match self.destination_amount {
                Some(amount) => Some(amount@),
                None => None,
            },
            occurred_at: match self.occurred_at {
                Some(time) => Some(time@),
                None => None,
            },
            description: match self.description {
                Some(text) => Some(text@),
                None => None,
            },
        }
    }
}

impl Default for TransferChanges {
    fn default() -> (r: Self)
        ensures
            r@.source_account_id is None,
            r@.destination_account_id is None,
            r@.source_amount is None,
            r@.destination_amount is None,
            r@.occurred_at is None,
            r@.description is None,
    {
        TransferChanges {
            source_account_id: None,
            destination_account_id: None,
            source_amount: None,
            destination_amount: None,
            occurred_at: None,
            description: None,
        }
    }
}

/// Why a transfer could not be created, read, changed or deleted.
#[derive(Debug, PartialEq, Eq)]
pub enum ManageTransferError {
    TransferNotFound(TransferId),
    AccountNotFound(AccountId),
    CurrencyMismatch { account_id: AccountId, expected: Currency, found: Currency },
    NoChanges,
    Transfer(TransferError),
    Repository(RepositoryError),
}

/// What checking that an account exists and holds an amount's currency gives.
pub open spec fn account_amount_problem(
    accounts: Map<AccountId, AccountView>,
    id: AccountId,
    amount: MoneyView,
) -> Option<ManageTransferError> {
    if !accounts.contains_key(id) {
        Some(ManageTransferError::AccountNotFound(id))
    } else if accounts[id].currency != amount.currency {
        Some(
            ManageTransferError::CurrencyMismatch {
                account_id: id,
                expected: accounts[id].currency,
                found: amount.currency,
            },
        )
    } else {
        None
    }
}

/// The first problem with a transfer's two accounts: the source, then the destination.
pub open spec fn transfer_accounts_problem(
    accounts: Map<AccountId, AccountView>,
    transfer: NewTransferView,
) -> Option<ManageTransferError> {
    match account_amount_problem(accounts, transfer.source_account_id, transfer.source_amount) {
        Some(problem) => Some(problem),
        None => account_amount_problem(
            accounts,
            transfer.destination_account_id,
            transfer.destination_amount,
        ),
    }
}

fn validate_account_amount<A: AccountRepository>(accounts: &A, id: AccountId, amount: &Money) -> (r:
    Result<(), ManageTransferError>)
    ensures
        match r {
            Ok(()) => account_amount_problem(accounts.accounts(), id, amount@) is None,
            Err(ManageTransferError::Repository(_)) => true,
            Err(error) => account_amount_problem(accounts.accounts(), id, amount@) == Some(error),
        },
{
    let account = match accounts.find_by_id(id) {
        Ok(Some(account)) => account,
        Ok(None) => return Err(ManageTransferError::AccountNotFound(id)),
        Err(error) => return Err(ManageTransferError::Repository(error)),
    };
    if account.currency() != amount.currency() {
        return Err(
            ManageTransferError::CurrencyMismatch {
                account_id: id,
                expected: account.currency(),
                found: amount.currency(),
            },
        );
    }
    Ok(())
}

/// Stores a new transfer between two existing accounts whose currencies match its
/// amounts.
pub fn create_transfer<A: AccountRepository, R: TransferRepository>(
    accounts: &A,
    transfers: &mut R,
    transfer: NewTransfer,
) -> (r: Result<Transfer, ManageTransferError>)
    ensures
        match r {
            Ok(created) => {
                &&& transfer_accounts_problem(accounts.accounts(), transfer@) is None
                &&& !old(transfers).transfers().contains_key(created@.id)
                &&& created@ == TransferView::from_new(created@.id, transfer@)
                &&& final(transfers).transfers() == old(transfers).transfers().insert(created@.id, created@)
            },
            Err(ManageTransferError::Repository(_)) => final(transfers).transfers() == old(transfers).transfers(),
            Err(error) => final(transfers).transfers() == old(transfers).transfers()
                && transfer_accounts_problem(accounts.accounts(), transfer@) == Some(error),
        },
{
    validate_account_amount(accounts, transfer.source_account_id(), transfer.source_amount())?;
    validate_account_amount(
        accounts,
        transfer.destination_account_id(),
        transfer.destination_amount(),
    )?;
    match transfers.create(transfer) {
        Ok(created) => Ok(created),
        Err(error) => Err(ManageTransferError::Repository(error)),
    }
}

/// The stored transfer with an identifier.
pub fn get_transfer<R: TransferRepository>(transfers: &R, id: TransferId) -> (r: Result<
    Transfer,
    ManageTransferError,
>)
    ensures
        match r {
            Ok(transfer) => transfers.transfers().contains_key(id) && transfers.transfers()[id]
                == transfer@ && transfer@.id == id,
            Err(ManageTransferError::TransferNotFound(missing)) => missing == id
                && !transfers.transfers().contains_key(id),
            Err(ManageTransferError::Repository(_)) => true,
            Err(_) => false,
        },
{
    match transfers.find_by_id(id) {
        Ok(Some(transfer)) => Ok(transfer),
        Ok(None) => Err(ManageTransferError::TransferNotFound(id)),
        Err(error) => Err(ManageTransferError::Repository(error)),
    }
}

/// The stored transfers that involve an existing account, latest first; among equal
/// times the larger identifier comes first.
pub fn list_account_transfers<A: AccountRepository, R: TransferRepository>(
    accounts: &A,
    transfers: &R,
    account_id: AccountId,
) -> (r: Result<Vec<Transfer>, ManageTransferError>)
    ensures
        match r {
            Ok(listed) => {
                &&& accounts.accounts().contains_key(account_id)
                &&& lists_transfers_of(transfers_view(listed@), transfers.transfers(), account_id)
                &&& latest_first(listed@)
            },
            Err(ManageTransferError::AccountNotFound(missing)) => missing == account_id
                && !accounts.accounts().contains_key(account_id),
            Err(ManageTransferError::Repository(_)) => true,
            Err(_) => false,
        },
{
    match accounts.find_by_id(account_id) {
        Ok(Some(_)) => {},
        Ok(None) => return Err(ManageTransferError::AccountNotFound(account_id)),
        Err(error) => return Err(ManageTransferError::Repository(error)),
    }
    let found = match transfers.find_by_account_id(account_id) {
        Ok(found) => found,
        Err(error) => return Err(ManageTransferError::Repository(error)),
    };
    let ghost before = found@;
    let ghost stored = transfers.transfers();
    let sorted = sorted_latest_first(found);
    proof {
        let view = transfers_view(sorted@);
        let old_view = transfers_view(before);
        assert forall|i: int| 0 <= i < view.len() implies stored.contains_key((#[trigger] view[i]).id)
            && stored[view[i].id] == view[i] && view[i].involves(account_id) by {
            assert(sorted@.contains(sorted@[i]));
            let k = choose|k: int| 0 <= k < before.len() && before[k] == sorted@[i];
            assert(old_view[k] == before[k]@);
        }
        assert forall|id: TransferId| #[trigger]
            stored.contains_key(id) && stored[id].involves(account_id) implies exists|i: int|
            0 <= i < view.len() && (#[trigger] view[i]).id == id by {
            let k = choose|k: int| 0 <= k < old_view.len() && (#[trigger] old_view[k]).id == id;
            assert(old_view[k] == before[k]@);
            assert(holds_rank(sorted@, Transfer::rank(before[k])));
            let i = choose|i: int| 0 <= i < sorted@.len() && Transfer::rank(#[trigger] sorted@[i]) == Transfer::rank(before[k]);
            TransferId::lemma_view_injective(view[i].id, id);
        }
        assert forall|i: int, j: int|
            0 <= i < view.len() && 0 <= j < view.len() && i != j implies (#[trigger] view[i]).id != (
            #[trigger] view[j]).id by {
            if i < j {
                assert(ranks_before(Transfer::rank(sorted@[i]), Transfer::rank(sorted@[j])));
            } else {
                assert(ranks_before(Transfer::rank(sorted@[j]), Transfer::rank(sorted@[i])));
            }
        }
    }
    Ok(sorted)
}

/// Whether a set of changes replaces nothing.
pub open spec fn no_transfer_changes(changes: TransferChangesView) -> bool {
    changes.source_account_id is None && changes.destination_account_id is None
        && changes.source_amount is None && changes.destination_amount is None
        && changes.occurred_at is None && changes.description is None
}

/// What `NewTransfer::new` gives for a stored transfer with changes applied.
pub open spec fn changed_transfer(current: TransferView, changes: TransferChangesView) -> Result<
    NewTransferView,
    TransferError,
> {
    new_transfer_outcome(
        crate::application::manage_transaction::changed(
            changes.source_account_id,
            current.source_account_id,
        ),
        crate::application::manage_transaction::changed(
            changes.destination_account_id,
            current.destination_account_id,
        ),
        crate::application::manage_transaction::changed(changes.source_amount, current.source_amount),
        crate::application::manage_transaction::changed(
            changes.destination_amount,
            current.destination_amount,
        ),
        crate::application::manage_transaction::changed(changes.occurred_at, current.occurred_at),
        crate::application::manage_transaction::changed(changes.description, current.description),
    )
}

/// Replaces fields of a stored transfer and validates the result as a new transfer
/// would be.
pub fn update_transfer<A: AccountRepository, R: TransferRepository>(
    accounts: &A,
    transfers: &mut R,
    id: TransferId,
    changes: TransferChanges,
) -> (r: Result<Transfer, ManageTransferError>)
    ensures
        ({
            let stored = old(transfers).transfers();
            let outcome = changed_transfer(stored[id], changes@);
            match r {
                Ok(updated) => {
                    &&& !no_transfer_changes(changes@)
                    &&& stored.contains_key(id)
                    &&& outcome matches Ok(value) && transfer_accounts_problem(accounts.accounts(), value)
                        is None && updated@ == TransferView::from_new(id, value)
                    &&& final(transfers).transfers() == stored.insert(id, updated@)
                },
                Err(error) => final(transfers).transfers() == stored && match error {
                    ManageTransferError::NoChanges => no_transfer_changes(changes@),
                    ManageTransferError::TransferNotFound(missing) => missing == id
                        && !no_transfer_changes(changes@) && !stored.contains_key(id),
                    ManageTransferError::Transfer(problem) => !no_transfer_changes(changes@)
                        && stored.contains_key(id) && outcome == Err::<NewTransferView, TransferError>(
                        problem,
                    ),
                    ManageTransferError::Repository(_) => !no_transfer_changes(changes@),
                    _ => {
                        &&& !no_transfer_changes(changes@)
                        &&& stored.contains_key(id)
                        &&& outcome matches Ok(value) && transfer_accounts_problem(
                            accounts.accounts(),
                            value,
                        ) == Some(error)
                    },
                },
            }
        }),
{
    let empty = changes.source_account_id.is_none() && changes.destination_account_id.is_none()
        && changes.source_amount.is_none() && changes.destination_amount.is_none()
        && changes.occurred_at.is_none() && changes.description.is_none();
    if empty {
        return Err(ManageTransferError::NoChanges);
    }
    let current = get_transfer(transfers, id)?;
    let source = match changes.source_account_id {
        Some(value) => value,
        None => current.source_account_id(),
    };
    let destination = match changes.destination_account_id {
        Some(value) => value,
        None => current.destination_account_id(),
    };
    let source_amount = match changes.source_amount {
        Some(value) => value,
        None => *current.source_amount(),
    };
    let destination_amount = match changes.destination_amount {
        Some(value) => value,
        None => *current.destination_amount(),
    };
    let occurred_at = match changes.occurred_at {
        Some(value) => value,
        None => current.occurred_at().duplicate(),
    };
    let description = match changes.description {
        Some(value) => value,
        None => String::from_str(current.description()),
    };
    let new = match NewTransfer::new(
        source,
        destination,
        source_amount,
        destination_amount,
        occurred_at,
        description,
    ) {
        Ok(new) => new,
        Err(error) => return Err(ManageTransferError::Transfer(error)),
    };
    validate_account_amount(accounts, new.source_account_id(), new.source_amount())?;
    validate_account_amount(accounts, new.destination_account_id(), new.destination_amount())?;
    let updated = Transfer::from_new(id, new);
    match transfers.update(updated.duplicate()) {
        Ok(true) => Ok(updated),
        Ok(false) => Err(ManageTransferError::TransferNotFound(id)),
        Err(error) => Err(ManageTransferError::Repository(error)),
    }
}

/// Deletes a stored transfer.
pub fn delete_transfer<R: TransferRepository>(transfers: &mut R, id: TransferId) -> (r: Result<
    (),
    ManageTransferError,
>)
    ensures
        match r {
            Ok(()) => old(transfers).transfers().contains_key(id) && final(transfers).transfers() == old(transfers).transfers().remove(id),
            Err(ManageTransferError::TransferNotFound(missing)) => missing == id && !old(transfers).transfers().contains_key(id)
                && final(transfers).transfers() == old(transfers).transfers(),
            Err(ManageTransferError::Repository(_)) => final(transfers).transfers() == old(transfers).transfers(),
            Err(_) => false,
        },
{
    match transfers.delete(id) {
        Ok(true) => Ok(()),
        Ok(false) => Err(ManageTransferError::TransferNotFound(id)),
        Err(error) => Err(ManageTransferError::Repository(error)),
    }
}

} // verus!
