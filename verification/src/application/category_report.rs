use vstd::prelude::*;
use crate::application::repository::{
    AccountRepository, RepositoryError, TransactionRepository, lists_transactions_of,
};
use crate::domain::account::AccountId;
use crate::domain::category_report::{
    CategoryReportError, CategoryTotals, calculate_net_outflow_by_category, outflow_of,
};
use crate::domain::money::MoneyView;
use crate::domain::transaction::{Category, TransactionView, transactions_view};

verus! {

/// Why a category report could not be read.
#[derive(Debug, PartialEq, Eq)]
pub enum GetCategoryReportError {
    AccountNotFound(AccountId),
    Repository(RepositoryError),
    Report(CategoryReportError),
}

/// The net outflow of an account's stored transactions, by category.
pub fn get_net_outflow_by_category<
    A: crate::application::repository::AccountRepository,
    T: TransactionRepository,
>(
    account_repository: &A,
    transaction_repository: &T,
    account_id: AccountId,
) -> (r: Result<CategoryTotals, GetCategoryReportError>)
    ensures
        match r {
            Ok(totals) => account_repository.accounts().contains_key(account_id) && exists|
                listed: Seq<TransactionView>,
            |
                lists_transactions_of(listed, transaction_repository.transactions(), account_id)
                    && #[trigger] outflow_of(account_repository.accounts()[account_id], listed) == Ok::<
                    Map<Category, MoneyView>,
                    CategoryReportError,
                >(totals@),
            Err(GetCategoryReportError::AccountNotFound(id)) => id == account_id
                && !account_repository.accounts().contains_key(account_id),
            Err(GetCategoryReportError::Repository(_)) => true,
            Err(GetCategoryReportError::Report(error)) => account_repository.accounts().contains_key(
                account_id,
            ) && exists|listed: Seq<TransactionView>|
                lists_transactions_of(listed, transaction_repository.transactions(), account_id)
                    && #[trigger] outflow_of(account_repository.accounts()[account_id], listed) == Err::<
                    Map<Category, MoneyView>,
                    CategoryReportError,
                >(error),
        },
{
    let account = match account_repository.find_by_id(account_id) {
        Ok(Some(account)) => account,
        Ok(None) => return Err(GetCategoryReportError::AccountNotFound(account_id)),
        Err(error) => return Err(GetCategoryReportError::Repository(error)),
    };
    let transactions = match transaction_repository.find_by_account_id(account_id) {
        Ok(found) => found,
        Err(error) => return Err(GetCategoryReportError::Repository(error)),
    };
    let result = calculate_net_outflow_by_category(&account, transactions.as_slice());
    proof {
        assert(outflow_of(account_repository.accounts()[account_id], transactions_view(transactions@))
            == crate::domain::category_report::totals_result_view(result));
    }
    match result {
        Ok(totals) => Ok(totals),
        Err(error) => Err(GetCategoryReportError::Report(error)),
    }
}

} // verus!
