use vstd::prelude::*;
use crate::application::repository::{AccountRepository, RepositoryError};
use crate::domain::account::{Account, AccountError, AccountView, NewAccount, new_account_outcome};
use crate::domain::money::Currency;

verus! {

/// Why an account could not be created.
#[derive(Debug, PartialEq, Eq)]
pub enum CreateAccountError {
    Account(AccountError),
    Repository(RepositoryError),
}

/// Validates a name and stores a new account under an identifier that the repository
/// allocates.
pub fn create_account<A: AccountRepository>(
    account_repository: &mut A,
    name: String,
    currency: Currency,
) -> (r: Result<Account, CreateAccountError>)
    ensures
        match r {
            Ok(account) => new_account_outcome(name@, currency) matches Ok(value) && account@
                == AccountView::from_new(account@.id, value) && !old(account_repository).accounts().contains_key(
                account@.id,
            ) && final(account_repository).accounts() == old(account_repository).accounts().insert(
                account@.id,
                account@,
            ),
            Err(CreateAccountError::Account(error)) => new_account_outcome(name@, currency) == Err::<
                crate::domain::account::NewAccountView,
                AccountError,
            >(error) && final(account_repository).accounts() == old(account_repository).accounts(),
            Err(CreateAccountError::Repository(_)) => new_account_outcome(name@, currency) is Ok
                && final(account_repository).accounts() == old(account_repository).accounts(),
        },
{
    let account = match NewAccount::new(name, currency) {
        Ok(account) => account,
        Err(error) => return Err(CreateAccountError::Account(error)),
    };
    match account_repository.create(account) {
        Ok(created) => Ok(created),
        Err(error) => Err(CreateAccountError::Repository(error)),
    }
}

} // verus!
