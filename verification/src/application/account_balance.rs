use vstd::prelude::*;
use crate::application::repository::{
    AccountRepository, RepositoryError, TransactionRepository, TransferRepository,
    lists_transactions_of, lists_transfers_of,
};
use crate::domain::account::{AccountId, AccountView};
use crate::domain::balance::{BalanceError, balance_error_of, balance_of, calculate_balance};
use crate::domain::money::{Money, MoneyError, MoneyView, money_difference, money_sum};
use crate::domain::transaction::{TransactionId, TransactionView, transactions_view};
use crate::domain::transfer::{Transfer, TransferId, TransferView, transfers_view};

verus! {

/// Why a balance could not be read.
#[derive(Debug, PartialEq, Eq)]
pub enum GetAccountBalanceError {
    AccountNotFound(AccountId),
    Repository(RepositoryError),
    Balance(BalanceError),
}

/// A balance after one transfer of the account: money leaves through the source amount
/// and arrives through the destination amount.
pub open spec fn apply_transfer(balance: MoneyView, transfer: TransferView, account: AccountId) -> Result<
    MoneyView,
    MoneyError,
> {
    if transfer.source_account_id == account {
        money_difference(balance, transfer.source_amount)
    } else {
        money_sum(balance, transfer.destination_amount)
    }
}

/// A balance after the transfers of an account, in order.
pub open spec fn balance_after_transfers(
    start: MoneyView,
    transfers: Seq<TransferView>,
    account: AccountId,
) -> Result<MoneyView, BalanceError>
    decreases transfers.len(),
{
    if transfers.len() == 0 {
        Ok(start)
    } else {
        match balance_after_transfers(start, transfers.drop_last(), account) {
            Err(error) => Err(error),
            Ok(balance) => match apply_transfer(balance, transfers.last(), account) {
                Err(error) => Err(balance_error_of(error)),
                Ok(next) => Ok(next),
            },
        }
    }
}

/// Whether a balance result is what the stored transactions of an account give when
/// taken in some listing order.
pub open spec fn explains_balance(
    result: Result<MoneyView, BalanceError>,
    accounts: Map<AccountId, AccountView>,
    transactions: Map<TransactionId, TransactionView>,
    account_id: AccountId,
) -> bool {
    &&& accounts.contains_key(account_id)
    &&& exists|listed: Seq<TransactionView>|
        lists_transactions_of(listed, transactions, account_id) && #[trigger] balance_of(
            accounts[account_id],
            listed,
        ) == result
}

/// The balance effect of a money result, with a money error reported as a balance error.
pub open spec fn as_balance(result: Result<MoneyView, MoneyError>) -> Result<MoneyView, BalanceError> {
    match result {
        Ok(value) => Ok(value),
        Err(error) => Err(balance_error_of(error)),
    }
}

/// A transfer affects both of its accounts: one more transfer takes its source amount from
/// the source account's balance and adds its destination amount to the destination
/// account's balance.
pub proof fn law_transfer_moves_money_between_its_accounts(
    start: MoneyView,
    transfers: Seq<TransferView>,
    transfer: TransferView,
    account: AccountId,
    before: MoneyView,
)
    requires
        transfer.source_account_id != transfer.destination_account_id,
        balance_after_transfers(start, transfers, account) == Ok::<MoneyView, BalanceError>(before),
    ensures
        account == transfer.source_account_id ==> balance_after_transfers(
            start,
            transfers.push(transfer),
            account,
        ) == as_balance(money_difference(before, transfer.source_amount)),
        account == transfer.destination_account_id ==> balance_after_transfers(
            start,
            transfers.push(transfer),
            account,
        ) == as_balance(money_sum(before, transfer.destination_amount)),
{
    assert(transfers.push(transfer).drop_last() =~= transfers);
}

proof fn lemma_transfers_error_persists(
    start: MoneyView,
    transfers: Seq<TransferView>,
    account: AccountId,
    i: int,
    error: BalanceError,
)
    requires
        0 <= i <= transfers.len(),
        balance_after_transfers(start, transfers.subrange(0, i), account) == Err::<
            MoneyView,
            BalanceError,
        >(error),
    ensures
        balance_after_transfers(start, transfers, account) == Err::<MoneyView, BalanceError>(error),
    decreases transfers.len() - i,
{
    if i < transfers.len() {
        assert(transfers.subrange(0, i + 1).drop_last() =~= transfers.subrange(0, i));
        lemma_transfers_error_persists(start, transfers, account, i + 1, error);
    } else {
        assert(transfers.subrange(0, i) =~= transfers);
    }
}

/// Applies the transfers of an account to a balance, in order.
pub fn apply_transfers(start: Money, transfers: &Vec<Transfer>, account_id: AccountId) -> (r: Result<
    Money,
    BalanceError,
>)
    ensures
        crate::domain::money::money_result_view(r) == balance_after_transfers(
            start@,
            transfers_view(transfers@),
            account_id,
        ),
{
    let ghost all = transfers_view(transfers@);
    let mut balance = start;
    let mut i: usize = 0;
    proof {
        assert(all.subrange(0, 0) =~= Seq::<TransferView>::empty());
    }
    while i < transfers.len()
        invariant
            i <= transfers@.len(),
            all == transfers_view(transfers@),
            balance_after_transfers(start@, all.subrange(0, i as int), account_id) == Ok::<
                MoneyView,
                BalanceError,
            >(balance@),
        decreases transfers@.len() - i,
    {
        let transfer = &transfers[i];
        proof {
            let prefix = all.subrange(0, i + 1);
            assert(prefix.drop_last() =~= all.subrange(0, i as int));
            assert(prefix.last() == transfer@);
        }
        let next = if transfer.source_account_id() == account_id {
            balance.sub(transfer.source_amount())
        } else {
            balance.add(transfer.destination_amount())
        };
        match next {
            Ok(value) => {
                balance = value;
            },
            Err(error) => {
                proof {
                    lemma_transfers_error_persists(start@, all, account_id, i + 1, balance_error_of(error));
                }
                return Err(BalanceError::from_money_error(error));
            },
        }
        i = i + 1;
    }
    proof {
        assert(all.subrange(0, i as int) =~= all);
    }
    Ok(balance)
}

/// The balance of an account from its stored transactions.
pub fn get_account_balance<A: AccountRepository, T: TransactionRepository>(
    account_repository: &A,
    transaction_repository: &T,
    account_id: AccountId,
) -> (r: Result<Money, GetAccountBalanceError>)
    ensures
        match r {
            Ok(balance) => explains_balance(
                Ok(balance@),
                account_repository.accounts(),
                transaction_repository.transactions(),
                account_id,
            ),
            Err(GetAccountBalanceError::AccountNotFound(id)) => id == account_id
                && !account_repository.accounts().contains_key(account_id),
            Err(GetAccountBalanceError::Repository(_)) => true,
            Err(GetAccountBalanceError::Balance(error)) => explains_balance(
                Err(error),
                account_repository.accounts(),
                transaction_repository.transactions(),
                account_id,
            ),
        },
{
    let account = match account_repository.find_by_id(account_id) {
        Ok(Some(account)) => account,
        Ok(None) => return Err(GetAccountBalanceError::AccountNotFound(account_id)),
        Err(error) => return Err(GetAccountBalanceError::Repository(error)),
    };
    let transactions = match transaction_repository.find_by_account_id(account_id) {
        Ok(found) => found,
        Err(error) => return Err(GetAccountBalanceError::Repository(error)),
    };
    let result = calculate_balance(&account, transactions.as_slice());
    proof {
        let listed = transactions_view(transactions@);
        assert(balance_of(account_repository.accounts()[account_id], listed) == crate::domain::money::money_result_view(result));
    }
    match result {
        Ok(balance) => Ok(balance),
        Err(error) => Err(GetAccountBalanceError::Balance(error)),
    }
}

/// The balance of an account from its stored transactions and transfers.
pub fn get_account_balance_with_transfers<
    A: AccountRepository,
    T: TransactionRepository,
    R: TransferRepository,
>(
    account_repository: &A,
    transaction_repository: &T,
    transfer_repository: &R,
    account_id: AccountId,
) -> (r: Result<Money, GetAccountBalanceError>)
    ensures
        match r {
            Ok(balance) => exists|start: MoneyView, transfers: Seq<TransferView>|
                explains_balance(
                    Ok(start),
                    account_repository.accounts(),
                    transaction_repository.transactions(),
                    account_id,
                ) && lists_transfers_of(transfers, transfer_repository.transfers(), account_id)
                    && #[trigger] balance_after_transfers(start, transfers, account_id) == Ok::<
                    MoneyView,
                    BalanceError,
                >(balance@),
            Err(GetAccountBalanceError::AccountNotFound(id)) => id == account_id
                && !account_repository.accounts().contains_key(account_id),
            Err(GetAccountBalanceError::Repository(_)) => true,
            Err(GetAccountBalanceError::Balance(error)) => explains_balance(
                Err(error),
                account_repository.accounts(),
                transaction_repository.transactions(),
                account_id,
            ) || exists|start: MoneyView, transfers: Seq<TransferView>|
                explains_balance(
                    Ok(start),
                    account_repository.accounts(),
                    transaction_repository.transactions(),
                    account_id,
                ) && lists_transfers_of(transfers, transfer_repository.transfers(), account_id)
                    && #[trigger] balance_after_transfers(start, transfers, account_id) == Err::<
                    MoneyView,
                    BalanceError,
                >(error),
        },
{
    let balance = get_account_balance(account_repository, transaction_repository, account_id)?;
    let transfers = match transfer_repository.find_by_account_id(account_id) {
        Ok(found) => found,
        Err(error) => return Err(GetAccountBalanceError::Repository(error)),
    };
    let ghost start = balance@;
    let result = apply_transfers(balance, &transfers, account_id);
    proof {
        assert(balance_after_transfers(start, transfers_view(transfers@), account_id)
            == crate::domain::money::money_result_view(result));
    }
    match result {
        Ok(value) => Ok(value),
        Err(error) => Err(GetAccountBalanceError::Balance(error)),
    }
}

} // verus!
