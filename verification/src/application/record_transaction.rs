use vstd::prelude::*;
use crate::application::repository::{AccountRepository, RepositoryError, TransactionRepository};
use crate::domain::account::AccountId;
use crate::domain::money::Currency;
use crate::domain::transaction::{NewTransaction, Transaction, TransactionView};

verus! {

/// Why a transaction could not be recorded.
#[derive(Debug, PartialEq, Eq)]
pub enum RecordTransactionError {
    AccountNotFound(AccountId),
    CurrencyMismatch { expected: Currency, found: Currency },
    Repository(RepositoryError),
}

/// Stores a new transaction for an existing account in the account's currency.
pub fn record_transaction<A: AccountRepository, T: TransactionRepository>(
    account_repository: &A,
    transaction_repository: &mut T,
    transaction: NewTransaction,
) -> (r: Result<Transaction, RecordTransactionError>)
    ensures
        match r {
            Ok(created) => {
                &&& account_repository.accounts().contains_key(transaction@.account_id)
                &&& account_repository.accounts()[transaction@.account_id].currency
                    == transaction@.amount.currency
                &&& !old(transaction_repository).transactions().contains_key(created@.id)
                &&& created@ == TransactionView::from_new(created@.id, transaction@)
                &&& final(transaction_repository).transactions() == old(transaction_repository).transactions().insert(created@.id, created@)
            },
            Err(RecordTransactionError::AccountNotFound(id)) => id == transaction@.account_id
                && !account_repository.accounts().contains_key(id)
                && final(transaction_repository).transactions() == old(transaction_repository).transactions(),
            Err(RecordTransactionError::CurrencyMismatch { expected, found }) => account_repository.accounts().contains_key(
                transaction@.account_id,
            ) && expected == account_repository.accounts()[transaction@.account_id].currency && found
                == transaction@.amount.currency && expected != found
                && final(transaction_repository).transactions() == old(transaction_repository).transactions(),
            Err(RecordTransactionError::Repository(_)) => final(transaction_repository).transactions()
                == old(transaction_repository).transactions(),
        },
{
    let account_id = transaction.account_id();
    let account = match account_repository.find_by_id(account_id) {
        Ok(Some(account)) => account,
        Ok(None) => return Err(RecordTransactionError::AccountNotFound(account_id)),
        Err(error) => return Err(RecordTransactionError::Repository(error)),
    };
    let found = transaction.amount().currency();
    if account.currency() != found {
        return Err(RecordTransactionError::CurrencyMismatch { expected: account.currency(), found });
    }
    match transaction_repository.create(transaction) {
        Ok(created) => Ok(created),
        Err(error) => Err(RecordTransactionError::Repository(error)),
    }
}

} // verus!
