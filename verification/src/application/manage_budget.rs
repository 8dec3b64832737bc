use vstd::prelude::*;
use crate::application::repository::{
    AccountRepository, BudgetRepository, RepositoryError, has_scope, lists_budgets_of,
};
use crate::domain::account::AccountId;
use crate::domain::budget::{
    Budget, BudgetError, BudgetId, BudgetMonth, BudgetView, NewBudget, NewBudgetView, budgets_view,
    new_budget_outcome,
};
use crate::domain::money::{Money, MoneyView};
use crate::domain::transaction::Category;
use crate::sorting::{LatestFirst, holds_rank, latest_first, ranks_before, sorted_latest_first};

verus! {

/// Why a budget could not be set, read, listed or deleted.
#[derive(Debug, PartialEq, Eq)]
pub enum ManageBudgetError {
    AccountNotFound(AccountId),
    BudgetNotFound(BudgetId),
    Budget(BudgetError),
    Repository(RepositoryError),
}

/// Whether a store holds at most one budget per account, category and month.
pub open spec fn scopes_unique(budgets: Map<BudgetId, BudgetView>) -> bool {
    forall|a: BudgetId, b: BudgetId|
        #[trigger] budgets.contains_key(a) && #[trigger] budgets.contains_key(b) && has_scope(
            budgets[a],
            budgets[b].account_id,
            budgets[b].category,
            budgets[b].month,
        ) ==> a == b
}

/// Whether setting a budget for an account, category and month stored `stored`: it
/// covers them, it replaces the budget that covered them, keeping its identifier, and
/// otherwise it is stored under a new identifier.
pub open spec fn sets_budget(
    before: Map<BudgetId, BudgetView>,
    after: Map<BudgetId, BudgetView>,
    stored: BudgetView,
    account_id: AccountId,
    category: Category,
    month: BudgetMonth,
) -> bool {
    &&& has_scope(stored, account_id, category, month)
    &&& after == before.insert(stored.id, stored)
    &&& before.contains_key(stored.id) ==> has_scope(before[stored.id], account_id, category, month)
    &&& (exists|id: BudgetId| #[trigger]
        before.contains_key(id) && has_scope(before[id], account_id, category, month))
        ==> before.contains_key(stored.id)
}

/// Setting the budget of an account, category and month again keeps its identifier and
/// replaces the limit, and a store keeps at most one budget per account, category and
/// month.
pub proof fn law_setting_again_keeps_the_id(
    start: Map<BudgetId, BudgetView>,
    middle: Map<BudgetId, BudgetView>,
    end: Map<BudgetId, BudgetView>,
    first: BudgetView,
    second: BudgetView,
    account_id: AccountId,
    category: Category,
    month: BudgetMonth,
)
    requires
        scopes_unique(start),
        sets_budget(start, middle, first, account_id, category, month),
        sets_budget(middle, end, second, account_id, category, month),
    ensures
        second.id == first.id,
        end == middle.insert(first.id, second),
        scopes_unique(middle),
        scopes_unique(end),
{
    assert(middle.contains_key(first.id) && has_scope(middle[first.id], account_id, category, month));
    assert forall|a: BudgetId, b: BudgetId|
        #[trigger] middle.contains_key(a) && #[trigger] middle.contains_key(b) && has_scope(
            middle[a],
            middle[b].account_id,
            middle[b].category,
            middle[b].month,
        ) implies a == b by {
        if a != first.id && b != first.id {
            assert(start.contains_key(a) && start.contains_key(b));
        } else if a != first.id {
            assert(start.contains_key(a) && has_scope(start[a], account_id, category, month));
            assert(start.contains_key(first.id));
        } else if b != first.id {
            assert(start.contains_key(b) && has_scope(start[b], account_id, category, month));
            assert(start.contains_key(first.id));
        }
    }
    assert(middle.contains_key(second.id));
    assert(second.id == first.id);
    assert forall|a: BudgetId, b: BudgetId|
        #[trigger] end.contains_key(a) && #[trigger] end.contains_key(b) && has_scope(
            end[a],
            end[b].account_id,
            end[b].category,
            end[b].month,
        ) implies a == b by {
        assert(middle.contains_key(a) && middle.contains_key(b));
        if a == first.id || b == first.id {
            assert(has_scope(middle[a], middle[b].account_id, middle[b].category, middle[b].month));
        }
    }
}

/// Sets the monthly limit of a category for an existing account, in the account's
/// currency; a budget of the same account, category and month keeps its identifier.
pub fn set_budget<A: AccountRepository, B: BudgetRepository>(
    accounts: &A,
    budgets: &mut B,
    account_id: AccountId,
    category: Category,
    month: BudgetMonth,
    limit_minor: i64,
) -> (r: Result<Budget, ManageBudgetError>)
    ensures
        match r {
            Ok(stored) => {
                &&& accounts.accounts().contains_key(account_id)
                &&& new_budget_outcome(
                    account_id,
                    category,
                    month,
                    MoneyView { minor: limit_minor as int, currency: accounts.accounts()[account_id].currency },
                ) matches Ok(value) && stored@ == BudgetView::from_new(stored@.id, value)
                &&& sets_budget(
                    old(budgets).budgets(),
                    final(budgets).budgets(),
                    stored@,
                    account_id,
                    category,
                    month,
                )
            },
            Err(error) => final(budgets).budgets() == old(budgets).budgets() && match error {
                ManageBudgetError::AccountNotFound(missing) => missing == account_id
                    && !accounts.accounts().contains_key(account_id),
                ManageBudgetError::Budget(problem) => accounts.accounts().contains_key(account_id)
                    && new_budget_outcome(
                    account_id,
                    category,
                    month,
                    MoneyView { minor: limit_minor as int, currency: accounts.accounts()[account_id].currency },
                ) == Err::<NewBudgetView, BudgetError>(problem),
                ManageBudgetError::Repository(_) => true,
                ManageBudgetError::BudgetNotFound(_) => false,
            },
        },
{
    let account = match accounts.find_by_id(account_id) {
        Ok(Some(account)) => account,
        Ok(None) => return Err(ManageBudgetError::AccountNotFound(account_id)),
        Err(error) => return Err(ManageBudgetError::Repository(error)),
    };
    let budget = match NewBudget::new(
        account_id,
        category,
        month,
        Money::from_minor_units(limit_minor, account.currency()),
    ) {
        Ok(budget) => budget,
        Err(error) => return Err(ManageBudgetError::Budget(error)),
    };
    match budgets.set(budget) {
        Ok(stored) => Ok(stored),
        Err(error) => Err(ManageBudgetError::Repository(error)),
    }
}

/// The stored budget with an identifier.
pub fn get_budget<B: BudgetRepository>(budgets: &B, id: BudgetId) -> (r: Result<Budget, ManageBudgetError>)
    ensures
        match r {
            Ok(budget) => budgets.budgets().contains_key(id) && budgets.budgets()[id] == budget@,
            Err(ManageBudgetError::BudgetNotFound(missing)) => missing == id
                && !budgets.budgets().contains_key(id),
            Err(ManageBudgetError::Repository(_)) => true,
            Err(_) => false,
        },
{
    match budgets.find_by_id(id) {
        Ok(Some(budget)) => Ok(budget),
        Ok(None) => Err(ManageBudgetError::BudgetNotFound(id)),
        Err(error) => Err(ManageBudgetError::Repository(error)),
    }
}

/// The stored budgets of an existing account, by month and then by the name of the
/// category; budgets that agree on both are ordered by identifier.
pub fn list_budgets<A: AccountRepository, B: BudgetRepository>(
    accounts: &A,
    budgets: &B,
    account_id: AccountId,
) -> (r: Result<Vec<Budget>, ManageBudgetError>)
    ensures
        match r {
            Ok(listed) => {
                &&& accounts.accounts().contains_key(account_id)
                &&& lists_budgets_of(budgets_view(listed@), budgets.budgets(), account_id)
                &&& latest_first(listed@)
            },
            Err(ManageBudgetError::AccountNotFound(missing)) => missing == account_id
                && !accounts.accounts().contains_key(account_id),
            Err(ManageBudgetError::Repository(_)) => true,
            Err(_) => false,
        },
{
    match accounts.find_by_id(account_id) {
        Ok(Some(_)) => {},
        Ok(None) => return Err(ManageBudgetError::AccountNotFound(account_id)),
        Err(error) => return Err(ManageBudgetError::Repository(error)),
    }
    let found = match budgets.find_by_account_id(account_id) {
        Ok(found) => found,
        Err(error) => return Err(ManageBudgetError::Repository(error)),
    };
    let ghost before = found@;
    let ghost stored = budgets.budgets();
    let sorted = sorted_latest_first(found);
    proof {
        let view = budgets_view(sorted@);
        let old_view = budgets_view(before);
        assert forall|i: int| 0 <= i < view.len() implies stored.contains_key((#[trigger] view[i]).id)
            && stored[view[i].id] == view[i] && view[i].account_id == account_id by {
            assert(sorted@.contains(sorted@[i]));
            let k = choose|k: int| 0 <= k < before.len() && before[k] == sorted@[i];
            assert(old_view[k] == before[k]@);
        }
        assert forall|id: BudgetId| #[trigger]
            stored.contains_key(id) && stored[id].account_id == account_id implies exists|i: int|
            0 <= i < view.len() && (#[trigger] view[i]).id == id by {
            let k = choose|k: int| 0 <= k < old_view.len() && (#[trigger] old_view[k]).id == id;
            assert(old_view[k] == before[k]@);
            assert(holds_rank(sorted@, Budget::rank(before[k])));
            let i = choose|i: int| 0 <= i < sorted@.len() && Budget::rank(#[trigger] sorted@[i]) == Budget::rank(before[k]);
            BudgetId::lemma_view_injective(view[i].id, id);
        }
        assert forall|i: int, j: int|
            0 <= i < view.len() && 0 <= j < view.len() && i != j implies (#[trigger] view[i]).id != (
            #[trigger] view[j]).id by {
            if i < j {
                assert(ranks_before(Budget::rank(sorted@[i]), Budget::rank(sorted@[j])));
            } else {
                assert(ranks_before(Budget::rank(sorted@[j]), Budget::rank(sorted@[i])));
            }
        }
    }
    Ok(sorted)
}

/// Deletes a stored budget.
pub fn delete_budget<B: BudgetRepository>(budgets: &mut B, id: BudgetId) -> (r: Result<(), ManageBudgetError>)
    ensures
        match r {
            Ok(()) => old(budgets).budgets().contains_key(id) && final(budgets).budgets() == old(budgets).budgets().remove(id),
            Err(ManageBudgetError::BudgetNotFound(missing)) => missing == id && !old(budgets).budgets().contains_key(id)
                && final(budgets).budgets() == old(budgets).budgets(),
            Err(ManageBudgetError::Repository(_)) => final(budgets).budgets() == old(budgets).budgets(),
            Err(_) => false,
        },
{
    match budgets.delete(id) {
        Ok(true) => Ok(()),
        Ok(false) => Err(ManageBudgetError::BudgetNotFound(id)),
        Err(error) => Err(ManageBudgetError::Repository(error)),
    }
}

} // verus!
