use vstd::prelude::*;
use crate::domain::account::{Account, AccountId, AccountView};
use crate::domain::money::{Currency, Money, MoneyError, MoneyView, money_difference, money_sum, money_result_view};
use crate::domain::transaction::{Transaction, TransactionKind, TransactionView, transactions_view};

verus! {

/// Why a balance could not be calculated.
#[derive(Debug, Clone, Copy, PartialEq, Eq, Structural)]
pub enum BalanceError {
    CurrencyMismatch { expected: Currency, found: Currency },
    AccountMismatch { expected: AccountId, found: AccountId },
    ArithmeticOverflow,
}

/// The balance error that reports a money error.
pub open spec fn balance_error_of(error: MoneyError) -> BalanceError {
    match error {
        MoneyError::CurrencyMismatch { expected, found } => BalanceError::CurrencyMismatch {
            expected,
            found,
        },
        MoneyError::ArithmeticOverflow => BalanceError::ArithmeticOverflow,
    }
}

impl BalanceError {
    pub fn from_money_error(error: MoneyError) -> (r: BalanceError)
        ensures
            r == balance_error_of(error),
    {
        match error {
            MoneyError::CurrencyMismatch { expected, found } => BalanceError::CurrencyMismatch {
                expected,
                found,
            },
            MoneyError::ArithmeticOverflow => BalanceError::ArithmeticOverflow,
        }
    }
}

/// A money result with its error reported as a balance error.
pub open spec fn as_balance_result(r: Result<MoneyView, MoneyError>) -> Result<MoneyView, BalanceError> {
    match r {
        Ok(value) => Ok(value),
        Err(error) => Err(balance_error_of(error)),
    }
}

/// The balance after applying one transaction: income and refunds add, expenses subtract.
pub open spec fn apply_to_balance(balance: MoneyView, transaction: TransactionView) -> Result<
    MoneyView,
    MoneyError,
> {
    match transaction.kind {
        TransactionKind::Income => money_sum(balance, transaction.amount),
        TransactionKind::Expense => money_difference(balance, transaction.amount),
        TransactionKind::ExpenseRefund => money_sum(balance, transaction.amount),
    }
}

/// What `calculate_balance` gives for an account and its transactions, in order.
pub open spec fn balance_of(account: AccountView, transactions: Seq<TransactionView>) -> Result<
    MoneyView,
    BalanceError,
>
    decreases transactions.len(),
{
    if transactions.len() == 0 {
        Ok(MoneyView { minor: 0, currency: account.currency })
    } else {
        match balance_of(account, transactions.drop_last()) {
            Err(error) => Err(error),
            Ok(balance) => {
                let last = transactions.last();
                if last.account_id != account.id {
                    Err(BalanceError::AccountMismatch { expected: account.id, found: last.account_id })
                } else {
                    as_balance_result(apply_to_balance(balance, last))
                }
            },
        }
    }
}

/// The signed effect of a transaction on its account balance.
pub open spec fn balance_effect(transaction: TransactionView) -> int {
    match transaction.kind {
        TransactionKind::Expense => -transaction.amount.minor,
        _ => transaction.amount.minor,
    }
}

/// The sum of the signed effects of transactions.
pub open spec fn signed_total(transactions: Seq<TransactionView>) -> int
    decreases transactions.len(),
{
    if transactions.len() == 0 {
        0
    } else {
        signed_total(transactions.drop_last()) + balance_effect(transactions.last())
    }
}

/// Whether every transaction belongs to the account and is in its currency.
pub open spec fn all_match_account(account: AccountView, transactions: Seq<TransactionView>) -> bool {
    forall|i: int|
        0 <= i < transactions.len() ==> (#[trigger] transactions[i]).account_id == account.id
            && transactions[i].amount.currency == account.currency
}

/// A successful balance is the signed total of the transactions, all of which belong to
/// the account and share its currency.
pub proof fn lemma_balance_is_signed_total(account: AccountView, transactions: Seq<TransactionView>)
    requires
        balance_of(account, transactions) is Ok,
    ensures
        balance_of(account, transactions)->Ok_0 == (MoneyView {
            minor: signed_total(transactions),
            currency: account.currency,
        }),
        all_match_account(account, transactions),
    decreases transactions.len(),
{
    if transactions.len() > 0 {
        let rest = transactions.drop_last();
        lemma_balance_is_signed_total(account, rest);
        assert forall|i: int| 0 <= i < transactions.len() implies (#[trigger] transactions[i]).account_id
            == account.id && transactions[i].amount.currency == account.currency by {
            if i < rest.len() {
                assert(rest[i] == transactions[i]);
            }
        }
    }
}

/// Once the balance of a prefix fails, the balance of the whole list fails the same way.
pub proof fn lemma_balance_error_persists(account: AccountView, transactions: Seq<TransactionView>, k: int)
    requires
        0 <= k <= transactions.len(),
        balance_of(account, transactions.subrange(0, k)) is Err,
    ensures
        balance_of(account, transactions) == balance_of(account, transactions.subrange(0, k)),
    decreases transactions.len(),
{
    if k == transactions.len() {
        assert(transactions.subrange(0, k) =~= transactions);
    } else {
        let rest = transactions.drop_last();
        assert(rest.subrange(0, k) =~= transactions.subrange(0, k));
        lemma_balance_error_persists(account, rest, k);
    }
}

fn apply_transaction(balance: &Money, transaction: &Transaction) -> (r: Result<Money, MoneyError>)
    ensures
        money_result_view(r) == apply_to_balance(balance@, transaction@),
{
    match transaction.kind() {
        TransactionKind::Income => balance.add(transaction.amount()),
        TransactionKind::Expense => balance.sub(transaction.amount()),
        TransactionKind::ExpenseRefund => balance.add(transaction.amount()),
    }
}

/// Calculates an account balance from its transactions, starting from zero.
pub fn calculate_balance(account: &Account, transactions: &[Transaction]) -> (r: Result<Money, BalanceError>)
    ensures
        money_result_view(r) == balance_of(account@, transactions_view(transactions@)),
{
    let mut balance = Money::from_minor_units(0, account.currency());
    let mut i: usize = 0;
    while i < transactions.len()
        invariant
            i <= transactions@.len(),
            balance_of(account@, transactions_view(transactions@.subrange(0, i as int))) == Ok::<
                MoneyView,
                BalanceError,
            >(balance@),
        decreases transactions@.len() - i,
    {
        let transaction = &transactions[i];
        let ghost prefix = transactions_view(transactions@.subrange(0, i + 1));
        assert(prefix.drop_last() =~= transactions_view(transactions@.subrange(0, i as int)));
        assert(prefix.last() == transaction@);
        if transaction.account_id() != account.id() {
            proof {
                assert(transactions_view(transactions@).subrange(0, i + 1) =~= prefix);
                lemma_balance_error_persists(account@, transactions_view(transactions@), i + 1);
            }
            return Err(BalanceError::AccountMismatch { expected: account.id(), found: transaction.account_id() });
        }
        match apply_transaction(&balance, transaction) {
            Ok(next) => {
                balance = next;
            },
            Err(error) => {
                proof {
                    assert(transactions_view(transactions@).subrange(0, i + 1) =~= prefix);
                    lemma_balance_error_persists(account@, transactions_view(transactions@), i + 1);
                }
                return Err(BalanceError::from_money_error(error));
            },
        }
        i = i + 1;
    }
    assert(transactions@.subrange(0, transactions@.len() as int) =~= transactions@);
    Ok(balance)
}

} // verus!
