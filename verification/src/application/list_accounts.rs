use vstd::prelude::*;
use crate::application::repository::{AccountRepository, RepositoryError, accounts_view, lists_accounts};
use crate::domain::account::{Account, AccountId, AccountView};
use crate::sorting::{IdKeyed, holds_key, sorted_unique_by_id, strictly_increasing};

verus! {

/// Why accounts could not be listed.
#[derive(Debug, PartialEq, Eq)]
pub enum ListAccountsError {
    Repository(RepositoryError),
}

/// Whether a list holds exactly the stored accounts in ascending identifier order.
pub open spec fn lists_accounts_in_order(values: Seq<AccountView>, stored: Map<AccountId, AccountView>) -> bool {
    &&& lists_accounts(values, stored)
    &&& forall|i: int, j: int| 0 <= i < j < values.len() ==> (#[trigger] values[i]).id@ < (#[trigger] values[j]).id@
}

/// All stored accounts, in ascending identifier order.
pub fn list_accounts<A: AccountRepository>(account_repository: &A) -> (r: Result<
    Vec<Account>,
    ListAccountsError,
>)
    ensures
        match r {
            Ok(accounts) => lists_accounts_in_order(accounts_view(accounts@), account_repository.accounts()),
            Err(ListAccountsError::Repository(_)) => true,
        },
{
    let found = match account_repository.find_all() {
        Ok(found) => found,
        Err(error) => return Err(ListAccountsError::Repository(error)),
    };
    let ghost before = found@;
    let ghost stored = account_repository.accounts();
    let sorted = sorted_unique_by_id(found);
    proof {
        let view = accounts_view(sorted@);
        assert forall|i: int| 0 <= i < view.len() implies stored.contains_key((#[trigger] view[i]).id)
            && stored[view[i].id] == view[i] by {
            assert(sorted@.contains(sorted@[i]));
            let k = choose|k: int| 0 <= k < before.len() && before[k] == sorted@[i];
            assert(accounts_view(before)[k] == before[k]@);
        }
        assert forall|id: AccountId| #[trigger] stored.contains_key(id) implies exists|i: int|
            0 <= i < view.len() && (#[trigger] view[i]).id == id by {
            let k = choose|k: int| 0 <= k < accounts_view(before).len() && (#[trigger] accounts_view(before)[k]).id == id;
            assert(accounts_view(before)[k] == before[k]@);
            assert(holds_key(sorted@, Account::key(before[k])));
            let i = choose|i: int| 0 <= i < sorted@.len() && Account::key(#[trigger] sorted@[i]) == id@;
            AccountId::lemma_view_injective(view[i].id, id);
        }
        assert forall|i: int, j: int| 0 <= i < j < view.len() implies (#[trigger] view[i]).id@ < (
        #[trigger] view[j]).id@ by {
            assert(Account::key(sorted@[i]) < Account::key(sorted@[j]));
        }
        assert forall|i: int, j: int|
            0 <= i < view.len() && 0 <= j < view.len() && i != j implies (#[trigger] view[i]).id != (
            #[trigger] view[j]).id by {
            if i < j {
                assert(Account::key(sorted@[i]) < Account::key(sorted@[j]));
            } else {
                assert(Account::key(sorted@[j]) < Account::key(sorted@[i]));
            }
        }
    }
    Ok(sorted)
}

} // verus!
