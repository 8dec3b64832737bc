use vstd::prelude::*;
use crate::application::repository::{
    AccountRepository, BudgetRepository, RepositoryError, TransactionRepository, TransferRepository,
};
use crate::domain::account::{Account, AccountError, AccountId, AccountView, new_account_outcome};
use crate::domain::budget::BudgetId;
use crate::domain::transaction::TransactionId;
use crate::domain::transfer::TransferId;

verus! {

/// Why an account could not be read, renamed or deleted.
#[derive(Debug, PartialEq, Eq)]
pub enum ManageAccountError {
    AccountNotFound(AccountId),
    HasTransactions(AccountId),
    HasTransfers(AccountId),
    HasBudgets(AccountId),
    Account(AccountError),
    Repository(RepositoryError),
}

/// Whether an account has stored transactions.
pub open spec fn has_transactions(
    transactions: Map<TransactionId, crate::domain::transaction::TransactionView>,
    id: AccountId,
) -> bool {
    exists|t: TransactionId| #[trigger] transactions.contains_key(t) && transactions[t].account_id == id
}

/// Whether an account takes part in stored transfers.
pub open spec fn has_transfers(
    transfers: Map<TransferId, crate::domain::transfer::TransferView>,
    id: AccountId,
) -> bool {
    exists|t: TransferId| #[trigger] transfers.contains_key(t) && transfers[t].involves(id)
}

/// Whether an account has stored budgets.
pub open spec fn has_budgets(budgets: Map<BudgetId, crate::domain::budget::BudgetView>, id: AccountId) -> bool {
    exists|b: BudgetId| #[trigger] budgets.contains_key(b) && budgets[b].account_id == id
}

/// The stored account with an identifier.
pub fn get_account<A: AccountRepository>(repository: &A, id: AccountId) -> (r: Result<
    Account,
    ManageAccountError,
>)
    ensures
        match r {
            Ok(account) => repository.accounts().contains_key(id) && repository.accounts()[id]
                == account@,
            Err(ManageAccountError::AccountNotFound(missing)) => missing == id
                && !repository.accounts().contains_key(id),
            Err(ManageAccountError::Repository(_)) => true,
            Err(_) => false,
        },
{
    match repository.find_by_id(id) {
        Ok(Some(account)) => Ok(account),
        Ok(None) => Err(ManageAccountError::AccountNotFound(id)),
        Err(error) => Err(ManageAccountError::Repository(error)),
    }
}

/// Gives a stored account a new name, keeping its currency.
pub fn rename_account<A: AccountRepository>(repository: &mut A, id: AccountId, name: String) -> (r:
    Result<Account, ManageAccountError>)
    ensures
        match r {
            Ok(account) => {
                &&& old(repository).accounts().contains_key(id)
                &&& new_account_outcome(name@, old(repository).accounts()[id].currency) matches Ok(value)
                    && account@ == AccountView::from_new(id, value)
                &&& final(repository).accounts() == old(repository).accounts().insert(id, account@)
            },
            Err(ManageAccountError::AccountNotFound(missing)) => missing == id && !old(repository).accounts().contains_key(id) && final(repository).accounts() == old(repository).accounts(),
            Err(ManageAccountError::Account(error)) => old(repository).accounts().contains_key(id)
                && new_account_outcome(name@, old(repository).accounts()[id].currency) == Err::<
                crate::domain::account::NewAccountView,
                AccountError,
            >(error) && final(repository).accounts() == old(repository).accounts(),
            Err(ManageAccountError::Repository(_)) => final(repository).accounts() == old(repository).accounts(),
            Err(_) => false,
        },
{
    let current = get_account(repository, id)?;
    let updated = match Account::new(id, name, current.currency()) {
        Ok(account) => account,
        Err(error) => return Err(ManageAccountError::Account(error)),
    };
    let copy = updated.duplicate();
    match repository.update(copy) {
        Ok(true) => Ok(updated),
        Ok(false) => Err(ManageAccountError::AccountNotFound(id)),
        Err(error) => Err(ManageAccountError::Repository(error)),
    }
}

/// Deletes a stored account that has no transactions.
pub fn delete_account<A: AccountRepository, T: TransactionRepository>(
    account_repository: &mut A,
    transaction_repository: &T,
    id: AccountId,
) -> (r: Result<(), ManageAccountError>)
    ensures
        match r {
            Ok(()) => old(account_repository).accounts().contains_key(id) && !has_transactions(
                transaction_repository.transactions(),
                id,
            ) && final(account_repository).accounts() == old(account_repository).accounts().remove(id),
            Err(error) => final(account_repository).accounts() == old(account_repository).accounts()
                && match error {
                ManageAccountError::AccountNotFound(missing) => missing == id && !old(account_repository).accounts().contains_key(id),
                ManageAccountError::HasTransactions(busy) => busy == id && old(account_repository).accounts().contains_key(id) && has_transactions(
                    transaction_repository.transactions(),
                    id,
                ),
                ManageAccountError::Repository(_) => true,
                _ => false,
            },
        },
{
    get_account(account_repository, id)?;
    let listed = match transaction_repository.find_by_account_id(id) {
        Ok(listed) => listed,
        Err(error) => return Err(ManageAccountError::Repository(error)),
    };
    if listed.len() > 0 {
        proof {
            assert(crate::domain::transaction::transactions_view(listed@)[0] == listed@[0]@);
        }
        return Err(ManageAccountError::HasTransactions(id));
    }
    match account_repository.delete(id) {
        Ok(true) => Ok(()),
        Ok(false) => Err(ManageAccountError::AccountNotFound(id)),
        Err(error) => Err(ManageAccountError::Repository(error)),
    }
}

/// Deletes a stored account that has no transactions and takes part in no transfers.
pub fn delete_account_with_transfers<A: AccountRepository, T: TransactionRepository, R: TransferRepository>(
    account_repository: &mut A,
    transaction_repository: &T,
    transfer_repository: &R,
    id: AccountId,
) -> (r: Result<(), ManageAccountError>)
    ensures
        match r {
            Ok(()) => old(account_repository).accounts().contains_key(id) && !has_transactions(
                transaction_repository.transactions(),
                id,
            ) && !has_transfers(transfer_repository.transfers(), id) && final(account_repository).accounts() == old(account_repository).accounts().remove(id),
            Err(error) => final(account_repository).accounts() == old(account_repository).accounts()
                && match error {
                ManageAccountError::AccountNotFound(missing) => missing == id && !old(account_repository).accounts().contains_key(id),
                ManageAccountError::HasTransactions(busy) => busy == id && old(account_repository).accounts().contains_key(id) && has_transactions(
                    transaction_repository.transactions(),
                    id,
                ),
                ManageAccountError::HasTransfers(busy) => busy == id && old(account_repository).accounts().contains_key(id) && !has_transactions(
                    transaction_repository.transactions(),
                    id,
                ) && has_transfers(transfer_repository.transfers(), id),
                ManageAccountError::Repository(_) => true,
                _ => false,
            },
        },
{
    get_account(account_repository, id)?;
    let listed = match transaction_repository.find_by_account_id(id) {
        Ok(listed) => listed,
        Err(error) => return Err(ManageAccountError::Repository(error)),
    };
    if listed.len() > 0 {
        proof {
            assert(crate::domain::transaction::transactions_view(listed@)[0] == listed@[0]@);
        }
        return Err(ManageAccountError::HasTransactions(id));
    }
    let moved = match transfer_repository.find_by_account_id(id) {
        Ok(moved) => moved,
        Err(error) => return Err(ManageAccountError::Repository(error)),
    };
    if moved.len() > 0 {
        proof {
            assert(crate::domain::transfer::transfers_view(moved@)[0] == moved@[0]@);
        }
        return Err(ManageAccountError::HasTransfers(id));
    }
    match account_repository.delete(id) {
        Ok(true) => Ok(()),
        Ok(false) => Err(ManageAccountError::AccountNotFound(id)),
        Err(error) => Err(ManageAccountError::Repository(error)),
    }
}

/// Deletes a stored account that has no transactions, takes part in no transfers and
/// has no budgets.
pub fn delete_account_with_dependencies<
    A: AccountRepository,
    T: TransactionRepository,
    R: TransferRepository,
    B: BudgetRepository,
>(
    account_repository: &mut A,
    transaction_repository: &T,
    transfer_repository: &R,
    budget_repository: &B,
    id: AccountId,
) -> (r: Result<(), ManageAccountError>)
    ensures
        match r {
            Ok(()) => old(account_repository).accounts().contains_key(id) && !has_transactions(
                transaction_repository.transactions(),
                id,
            ) && !has_transfers(transfer_repository.transfers(), id) && !has_budgets(
                budget_repository.budgets(),
                id,
            ) && final(account_repository).accounts() == old(account_repository).accounts().remove(id),
            Err(error) => final(account_repository).accounts() == old(account_repository).accounts()
                && match error {
                ManageAccountError::AccountNotFound(missing) => missing == id && !old(account_repository).accounts().contains_key(id),
                ManageAccountError::HasTransactions(busy) => busy == id && old(account_repository).accounts().contains_key(id) && has_transactions(
                    transaction_repository.transactions(),
                    id,
                ),
                ManageAccountError::HasTransfers(busy) => busy == id && old(account_repository).accounts().contains_key(id) && !has_transactions(
                    transaction_repository.transactions(),
                    id,
                ) && has_transfers(transfer_repository.transfers(), id),
                ManageAccountError::HasBudgets(busy) => busy == id && old(account_repository).accounts().contains_key(id) && !has_transactions(
                    transaction_repository.transactions(),
                    id,
                ) && !has_transfers(transfer_repository.transfers(), id) && has_budgets(
                    budget_repository.budgets(),
                    id,
                ),
                ManageAccountError::Repository(_) => true,
                _ => false,
            },
        },
{
    get_account(account_repository, id)?;
    let listed = match transaction_repository.find_by_account_id(id) {
        Ok(listed) => listed,
        Err(error) => return Err(ManageAccountError::Repository(error)),
    };
    if listed.len() > 0 {
        proof {
            assert(crate::domain::transaction::transactions_view(listed@)[0] == listed@[0]@);
        }
        return Err(ManageAccountError::HasTransactions(id));
    }
    let moved = match transfer_repository.find_by_account_id(id) {
        Ok(moved) => moved,
        Err(error) => return Err(ManageAccountError::Repository(error)),
    };
    if moved.len() > 0 {
        proof {
            assert(crate::domain::transfer::transfers_view(moved@)[0] == moved@[0]@);
        }
        return Err(ManageAccountError::HasTransfers(id));
    }
    let planned = match budget_repository.find_by_account_id(id) {
        Ok(planned) => planned,
        Err(error) => return Err(ManageAccountError::Repository(error)),
    };
    if planned.len() > 0 {
        proof {
            assert(crate::domain::budget::budgets_view(planned@)[0] == planned@[0]@);
        }
        return Err(ManageAccountError::HasBudgets(id));
    }
    match account_repository.delete(id) {
        Ok(true) => Ok(()),
        Ok(false) => Err(ManageAccountError::AccountNotFound(id)),
        Err(error) => Err(ManageAccountError::Repository(error)),
    }
}

} // verus!
