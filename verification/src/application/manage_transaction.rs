use vstd::prelude::*;
use crate::application::repository::{AccountRepository, RepositoryError, TransactionRepository};
use crate::domain::account::AccountId;
use crate::domain::money::{Currency, Money, MoneyView};
use crate::domain::time::{ZonedTime, ZonedTimeView};
use crate::domain::transaction::{
    Category, NewTransactionView, Transaction, TransactionError, TransactionId, TransactionKind,
    TransactionView, new_transaction_outcome,
};
use crate::text::trimmed;

verus! {

/// The fields of a transaction to replace; `None` keeps the stored value.
#[derive(Debug)]
pub struct TransactionChanges {
    pub account_id: Option<AccountId>,
    pub kind: Option<TransactionKind>,
    pub amount: Option<Money>,
    pub occurred_at: Option<ZonedTime>,
    pub description: Option<String>,
    pub category: Option<Category>,
}

pub struct TransactionChangesView {
    pub account_id: Option<AccountId>,
    pub kind: Option<TransactionKind>,
    pub amount: Option<MoneyView>,
    pub occurred_at: Option<ZonedTimeView>,
    pub description: Option<Seq<char>>,
    pub category: Option<Category>,
}

impl View for TransactionChanges {
    type V = TransactionChangesView;

    open spec fn view(&self) -> TransactionChangesView {
        TransactionChangesView {
            account_id: self.account_id,
            kind: self.kind,
            amount: match self.amount {
                Some(amount) => Some(amount@),
                None => None,
            },
            occurred_at: match self.occurred_at {
                Some(time) => Some(time@),
                None => None,
            },
            description: match self.description {
                Some(text) => Some(text@),
                None => None,
            },
            category: self.category,
        }
    }
}

impl Default for TransactionChanges {
    fn default() -> (r: Self)
        ensures
            r@.account_id is None,
            r@.kind is None,
            r@.amount is None,
            r@.occurred_at is None,
            r@.description is None,
            r@.category is None,
    {
        TransactionChanges {
            account_id: None,
            kind: None,
            amount: None,
            occurred_at: None,
            description: None,
            category: None,
        }
    }
}

/// Whether a set of changes replaces nothing.
pub open spec fn no_changes(changes: TransactionChangesView) -> bool {
    changes.account_id is None && changes.kind is None && changes.amount is None
        && changes.occurred_at is None && changes.description is None && changes.category is None
}

impl TransactionChanges {
    /// Whether these changes replace nothing.
    pub fn is_empty(&self) -> (r: bool)
        ensures
            r == no_changes(self@),
    {
        self.account_id.is_none() && self.kind.is_none() && self.amount.is_none()
            && self.occurred_at.is_none() && self.description.is_none() && self.category.is_none()
    }
}

/// Why a transaction could not be read, changed or deleted.
#[derive(Debug, PartialEq, Eq)]
pub enum ManageTransactionError {
    TransactionNotFound(TransactionId),
    AccountNotFound(AccountId),
    CurrencyMismatch { expected: Currency, found: Currency },
    NoChanges,
    Transaction(TransactionError),
    Repository(RepositoryError),
}

/// The value of an optional change, or the current value.
pub open spec fn changed<T>(change: Option<T>, current: T) -> T {
    match change {
        Some(value) => value,
        None => current,
    }
}

/// The fields that a stored transaction would have after changes, before validation.
pub open spec fn changed_fields(current: TransactionView, changes: TransactionChangesView) -> (
    AccountId,
    TransactionKind,
    MoneyView,
    ZonedTimeView,
    Seq<char>,
    Category,
) {
    (
        changed(changes.account_id, current.account_id),
        changed(changes.kind, current.kind),
        changed(changes.amount, current.amount),
        changed(changes.occurred_at, current.occurred_at),
        changed(changes.description, current.description),
        changed(changes.category, current.category),
    )
}

/// An update applies each given change and keeps every field it does not name: where
/// the changes give an account, kind, amount, time or category, the updated transaction
/// has it, and otherwise it has the stored one; its description is the given or stored
/// one with surrounding white space removed, and its identifier is unchanged.
pub proof fn law_update_applies_each_change(
    current: TransactionView,
    changes: TransactionChangesView,
    id: TransactionId,
    updated: TransactionView,
)
    requires
        ({
            let fields = changed_fields(current, changes);
            new_transaction_outcome(fields.0, fields.1, fields.2, fields.3, fields.4, fields.5) matches Ok(value)
                && updated == TransactionView::from_new(id, value)
        }),
    ensures
        updated.id == id,
        updated.account_id == match changes.account_id {
            Some(account_id) => account_id,
            None => current.account_id,
        },
        updated.kind == match changes.kind {
            Some(kind) => kind,
            None => current.kind,
        },
        updated.amount == match changes.amount {
            Some(amount) => amount,
            None => current.amount,
        },
        updated.occurred_at == match changes.occurred_at {
            Some(time) => time,
            None => current.occurred_at,
        },
        updated.description == trimmed(
            match changes.description {
                Some(text) => text,
                None => current.description,
            },
        ),
        updated.category == match changes.category {
            Some(category) => category,
            None => current.category,
        },
{
}

/// The stored transaction with an identifier.
pub fn get_transaction<T: TransactionRepository>(repository: &T, id: TransactionId) -> (r: Result<
    Transaction,
    ManageTransactionError,
>)
    ensures
        match r {
            Ok(transaction) => repository.transactions().contains_key(id)
                && repository.transactions()[id] == transaction@ && transaction@.id == id,
            Err(ManageTransactionError::TransactionNotFound(missing)) => missing == id
                && !repository.transactions().contains_key(id),
            Err(ManageTransactionError::Repository(_)) => true,
            Err(_) => false,
        },
{
    match repository.find_by_id(id) {
        Ok(Some(transaction)) => Ok(transaction),
        Ok(None) => Err(ManageTransactionError::TransactionNotFound(id)),
        Err(error) => Err(ManageTransactionError::Repository(error)),
    }
}

/// Replaces fields of a stored transaction and validates the result as a new
/// transaction would be: its account must exist and hold the amount's currency.
pub fn update_transaction<A: AccountRepository, T: TransactionRepository>(
    account_repository: &A,
    transaction_repository: &mut T,
    id: TransactionId,
    changes: TransactionChanges,
) -> (r: Result<Transaction, ManageTransactionError>)
    ensures
        ({
            let stored = old(transaction_repository).transactions();
            let accounts = account_repository.accounts();
            let fields = changed_fields(stored[id], changes@);
            match r {
                Ok(updated) => {
                    &&& !no_changes(changes@)
                    &&& stored.contains_key(id)
                    &&& accounts.contains_key(fields.0)
                    &&& accounts[fields.0].currency == fields.2.currency
                    &&& new_transaction_outcome(fields.0, fields.1, fields.2, fields.3, fields.4, fields.5)
                        matches Ok(value) && updated@ == TransactionView::from_new(id, value)
                    &&& final(transaction_repository).transactions() == stored.insert(id, updated@)
                },
                Err(error) => final(transaction_repository).transactions() == stored && match error {
                    ManageTransactionError::NoChanges => no_changes(changes@),
                    ManageTransactionError::TransactionNotFound(missing) => missing == id
                        && !no_changes(changes@) && !stored.contains_key(id),
                    ManageTransactionError::AccountNotFound(missing) => !no_changes(changes@)
                        && stored.contains_key(id) && missing == fields.0 && !accounts.contains_key(
                        missing,
                    ),
                    ManageTransactionError::CurrencyMismatch { expected, found } => !no_changes(
                        changes@,
                    ) && stored.contains_key(id) && accounts.contains_key(fields.0) && expected
                        == accounts[fields.0].currency && found == fields.2.currency && expected
                        != found,
                    ManageTransactionError::Transaction(problem) => !no_changes(changes@)
                        && stored.contains_key(id) && accounts.contains_key(fields.0)
                        && accounts[fields.0].currency == fields.2.currency && new_transaction_outcome(
                        fields.0,
                        fields.1,
                        fields.2,
                        fields.3,
                        fields.4,
                        fields.5,
                    ) == Err::<NewTransactionView, TransactionError>(problem),
                    ManageTransactionError::Repository(_) => !no_changes(changes@),
                },
            }
        }),
        r matches Ok(updated) ==> updated@.category == match changes@.category {
            Some(category) => category,
            None => old(transaction_repository).transactions()[id].category,
        } && updated@.amount == match changes@.amount {
            Some(amount) => amount,
            None => old(transaction_repository).transactions()[id].amount,
        } && updated@.occurred_at == match changes@.occurred_at {
            Some(time) => time,
            None => old(transaction_repository).transactions()[id].occurred_at,
        } && updated@.kind == match changes@.kind {
            Some(kind) => kind,
            None => old(transaction_repository).transactions()[id].kind,
        } && updated@.account_id == match changes@.account_id {
            Some(account_id) => account_id,
            None => old(transaction_repository).transactions()[id].account_id,
        },
{
    if changes.is_empty() {
        return Err(ManageTransactionError::NoChanges);
    }
    let current = get_transaction(transaction_repository, id)?;
    let account_id = match changes.account_id {
        Some(value) => value,
        None => current.account_id(),
    };
    let account = match account_repository.find_by_id(account_id) {
        Ok(Some(account)) => account,
        Ok(None) => return Err(ManageTransactionError::AccountNotFound(account_id)),
        Err(error) => return Err(ManageTransactionError::Repository(error)),
    };
    let amount = match changes.amount {
        Some(value) => value,
        None => *current.amount(),
    };
    if amount.currency() != account.currency() {
        return Err(
            ManageTransactionError::CurrencyMismatch {
                expected: account.currency(),
                found: amount.currency(),
            },
        );
    }
    let kind = match changes.kind {
        Some(value) => value,
        None => current.kind(),
    };
    let occurred_at = match changes.occurred_at {
        Some(value) => value,
        None => current.occurred_at().duplicate(),
    };
    let description = match changes.description {
        Some(value) => value,
        None => String::from_str(current.description()),
    };
    let category = match changes.category {
        Some(value) => value,
        None => current.category(),
    };
    let updated = match Transaction::new(id, account_id, kind, amount, occurred_at, description, category) {
        Ok(updated) => updated,
        Err(error) => return Err(ManageTransactionError::Transaction(error)),
    };
    proof {
        let stored = old(transaction_repository).transactions();
        let fields = changed_fields(stored[id], changes@);
        if let Ok(value) = new_transaction_outcome(fields.0, fields.1, fields.2, fields.3, fields.4, fields.5) {
            if updated@ == TransactionView::from_new(id, value) {
                law_update_applies_each_change(stored[id], changes@, id, updated@);
            }
        }
    }
    match transaction_repository.update(updated.duplicate()) {
        Ok(true) => Ok(updated),
        Ok(false) => Err(ManageTransactionError::TransactionNotFound(id)),
        Err(error) => Err(ManageTransactionError::Repository(error)),
    }
}

/// Deletes a stored transaction.
pub fn delete_transaction<T: TransactionRepository>(repository: &mut T, id: TransactionId) -> (r:
    Result<(), ManageTransactionError>)
    ensures
        match r {
            Ok(()) => old(repository).transactions().contains_key(id) && final(repository).transactions()
                == old(repository).transactions().remove(id),
            Err(ManageTransactionError::TransactionNotFound(missing)) => missing == id && !old(repository).transactions().contains_key(id)
                && final(repository).transactions() == old(repository).transactions(),
            Err(ManageTransactionError::Repository(_)) => final(repository).transactions() == old(repository).transactions(),
            Err(_) => false,
        },
{
    match repository.delete(id) {
        Ok(true) => Ok(()),
        Ok(false) => Err(ManageTransactionError::TransactionNotFound(id)),
        Err(error) => Err(ManageTransactionError::Repository(error)),
    }
}

} // verus!
