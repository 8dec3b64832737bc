use vstd::prelude::*;
use crate::application::audit_log::{AuditLogEntry, AuditLogEntryView};
use crate::domain::account::{Account, AccountId, AccountView, NewAccount};
use crate::domain::budget::{Budget, BudgetId, BudgetMonth, BudgetView, NewBudget, NewBudgetView};
use crate::domain::transaction::{
    Category, NewTransaction, NewTransactionView, Transaction, TransactionId, TransactionView,
};
use crate::domain::transfer::{NewTransfer, Transfer, TransferId, TransferView};

verus! {

/// Why a repository operation failed.
#[derive(Debug, Clone, PartialEq, Eq)]
pub enum RepositoryError {
    DuplicateAccountId(AccountId),
    DuplicateTransactionId(TransactionId),
    DuplicateTransferId(TransferId),
    DuplicateBudgetId(BudgetId),
    InvalidId(u64),
    IdExhausted,
    RestoreTargetNotEmpty,
    Storage(String),
    InvalidStoredData(String),
}

/// The views of a list of accounts.
pub open spec fn accounts_view(values: Seq<Account>) -> Seq<AccountView> {
    values.map_values(|value: Account| value@)
}

/// Whether a list holds exactly the stored accounts, each once.
pub open spec fn lists_accounts(values: Seq<AccountView>, stored: Map<AccountId, AccountView>) -> bool {
    &&& forall|i: int|
        0 <= i < values.len() ==> stored.contains_key((#[trigger] values[i]).id) && stored[values[i].id]
            == values[i]
    &&& forall|id: AccountId| #[trigger]
        stored.contains_key(id) ==> exists|i: int| 0 <= i < values.len() && (#[trigger] values[i]).id == id
    &&& forall|i: int, j: int|
        0 <= i < values.len() && 0 <= j < values.len() && i != j ==> (#[trigger] values[i]).id != (
        #[trigger] values[j]).id
}

/// Whether a list holds exactly the stored transactions of an account, each once.
pub open spec fn lists_transactions_of(
    values: Seq<TransactionView>,
    stored: Map<TransactionId, TransactionView>,
    account: AccountId,
) -> bool {
    &&& forall|i: int|
        0 <= i < values.len() ==> stored.contains_key((#[trigger] values[i]).id) && stored[values[i].id]
            == values[i] && values[i].account_id == account
    &&& forall|id: TransactionId| #[trigger]
        stored.contains_key(id) && stored[id].account_id == account ==> exists|i: int|
            0 <= i < values.len() && (#[trigger] values[i]).id == id
    &&& forall|i: int, j: int|
        0 <= i < values.len() && 0 <= j < values.len() && i != j ==> (#[trigger] values[i]).id != (
        #[trigger] values[j]).id
}

/// Whether a list holds exactly the stored transfers that involve an account, each once.
pub open spec fn lists_transfers_of(
    values: Seq<TransferView>,
    stored: Map<TransferId, TransferView>,
    account: AccountId,
) -> bool {
    &&& forall|i: int|
        0 <= i < values.len() ==> stored.contains_key((#[trigger] values[i]).id) && stored[values[i].id]
            == values[i] && values[i].involves(account)
    &&& forall|id: TransferId| #[trigger]
        stored.contains_key(id) && stored[id].involves(account) ==> exists|i: int|
            0 <= i < values.len() && (#[trigger] values[i]).id == id
    &&& forall|i: int, j: int|
        0 <= i < values.len() && 0 <= j < values.len() && i != j ==> (#[trigger] values[i]).id != (
        #[trigger] values[j]).id
}

/// Whether a list holds exactly the stored budgets of an account, each once.
pub open spec fn lists_budgets_of(
    values: Seq<BudgetView>,
    stored: Map<BudgetId, BudgetView>,
    account: AccountId,
) -> bool {
    &&& forall|i: int|
        0 <= i < values.len() ==> stored.contains_key((#[trigger] values[i]).id) && stored[values[i].id]
            == values[i] && values[i].account_id == account
    &&& forall|id: BudgetId| #[trigger]
        stored.contains_key(id) && stored[id].account_id == account ==> exists|i: int|
            0 <= i < values.len() && (#[trigger] values[i]).id == id
    &&& forall|i: int, j: int|
        0 <= i < values.len() && 0 <= j < values.len() && i != j ==> (#[trigger] values[i]).id != (
        #[trigger] values[j]).id
}

/// The stored transactions after adding created ones, in order.
pub open spec fn insert_transactions(
    stored: Map<TransactionId, TransactionView>,
    created: Seq<TransactionView>,
) -> Map<TransactionId, TransactionView>
    decreases created.len(),
{
    if created.len() == 0 {
        stored
    } else {
        insert_transactions(stored, created.drop_last()).insert(created.last().id, created.last())
    }
}

/// Whether transactions were created from the given new ones, in order, under fresh and
/// distinct identifiers.
pub open spec fn created_from(
    created: Seq<TransactionView>,
    requested: Seq<NewTransactionView>,
    stored: Map<TransactionId, TransactionView>,
) -> bool {
    &&& created.len() == requested.len()
    &&& forall|i: int|
        0 <= i < created.len() ==> #[trigger] created[i] == TransactionView::from_new(
            created[i].id,
            requested[i],
        ) && !stored.contains_key(created[i].id)
    &&& forall|i: int, j: int|
        0 <= i < created.len() && 0 <= j < created.len() && i != j ==> (#[trigger] created[i]).id != (
        #[trigger] created[j]).id
}

/// Whether a budget covers an account, category and month.
pub open spec fn has_scope(budget: BudgetView, account: AccountId, category: Category, month: BudgetMonth) -> bool {
    budget.account_id == account && budget.category == category && budget.month == month
}

/// Accounts stored by identifier.
pub trait AccountRepository {
    /// The stored accounts, by identifier. Implementations outside this library that
    /// do not describe their contents keep the default, which leaves them unspecified.
    closed spec fn accounts(&self) -> Map<AccountId, AccountView> {
        arbitrary()
    }

    /// Stores a new account under an identifier that the repository allocates.
    fn create(&mut self, account: NewAccount) -> (r: Result<Account, RepositoryError>)
        ensures
            match r {
                Ok(created) => {
                    &&& !old(self).accounts().contains_key(created@.id)
                    &&& created@ == AccountView::from_new(created@.id, account@)
                    &&& final(self).accounts() == old(self).accounts().insert(created@.id, created@)
                },
                Err(_) => final(self).accounts() == old(self).accounts(),
            },
    ;

    /// Stores an account under its own identifier, which must be unused.
    fn save(&mut self, account: Account) -> (r: Result<(), RepositoryError>)
        ensures
            match r {
                Ok(()) => !old(self).accounts().contains_key(account@.id) && final(self).accounts()
                    == old(self).accounts().insert(account@.id, account@),
                Err(_) => final(self).accounts() == old(self).accounts(),
            },
    ;

    /// The account stored under an identifier.
    fn find_by_id(&self, id: AccountId) -> (r: Result<Option<Account>, RepositoryError>)
        ensures
            match r {
                Ok(Some(found)) => self.accounts().contains_key(id) && self.accounts()[id] == found@
                    && found@.id == id,
                Ok(None) => !self.accounts().contains_key(id),
                Err(_) => true,
            },
    ;

    /// All stored accounts, in no particular order.
    fn find_all(&self) -> (r: Result<Vec<Account>, RepositoryError>)
        ensures
            match r {
                Ok(found) => lists_accounts(accounts_view(found@), self.accounts()),
                Err(_) => true,
            },
    ;

    /// Replaces the stored account with the same identifier; `false` when there is none.
    fn update(&mut self, account: Account) -> (r: Result<bool, RepositoryError>)
        ensures
            match r {
                Ok(true) => old(self).accounts().contains_key(account@.id) && final(self).accounts()
                    == old(self).accounts().insert(account@.id, account@),
                Ok(false) => !old(self).accounts().contains_key(account@.id) && final(self).accounts()
                    == old(self).accounts(),
                Err(_) => final(self).accounts() == old(self).accounts(),
            },
    ;

    /// Removes the account stored under an identifier; `false` when there is none.
    fn delete(&mut self, id: AccountId) -> (r: Result<bool, RepositoryError>)
        ensures
            match r {
                Ok(removed) => removed == old(self).accounts().contains_key(id) && final(self).accounts()
                    == old(self).accounts().remove(id),
                Err(_) => final(self).accounts() == old(self).accounts(),
            },
    ;
}

/// Transactions stored by identifier.
pub trait TransactionRepository {
    /// The stored transactions, by identifier. Implementations outside this library
    /// that do not describe their contents keep the default, which leaves them
    /// unspecified.
    closed spec fn transactions(&self) -> Map<TransactionId, TransactionView> {
        arbitrary()
    }

    /// Stores a new transaction under an identifier that the repository allocates.
    fn create(&mut self, transaction: NewTransaction) -> (r: Result<Transaction, RepositoryError>)
        ensures
            match r {
                Ok(created) => {
                    &&& !old(self).transactions().contains_key(created@.id)
                    &&& created@ == TransactionView::from_new(created@.id, transaction@)
                    &&& final(self).transactions() == old(self).transactions().insert(
                        created@.id,
                        created@,
                    )
                },
                Err(_) => final(self).transactions() == old(self).transactions(),
            },
    ;

    /// Stores all new transactions or, on failure, none of them.
    fn create_many(&mut self, transactions: Vec<NewTransaction>) -> (r: Result<
        Vec<Transaction>,
        RepositoryError,
    >)
        ensures
            match r {
                Ok(created) => {
                    &&& created_from(
                        crate::domain::transaction::transactions_view(created@),
                        transactions@.map_values(|value: NewTransaction| value@),
                        old(self).transactions(),
                    )
                    &&& final(self).transactions() == insert_transactions(
                        old(self).transactions(),
                        crate::domain::transaction::transactions_view(created@),
                    )
                },
                Err(_) => final(self).transactions() == old(self).transactions(),
            },
    ;

    /// Stores a transaction under its own identifier, which must be unused.
    fn save(&mut self, transaction: Transaction) -> (r: Result<(), RepositoryError>)
        ensures
            match r {
                Ok(()) => !old(self).transactions().contains_key(transaction@.id) && final(self).transactions() == old(self).transactions().insert(transaction@.id, transaction@),
                Err(_) => final(self).transactions() == old(self).transactions(),
            },
    ;

    /// The transaction stored under an identifier.
    fn find_by_id(&self, id: TransactionId) -> (r: Result<Option<Transaction>, RepositoryError>)
        ensures
            match r {
                Ok(Some(found)) => self.transactions().contains_key(id) && self.transactions()[id]
                    == found@ && found@.id == id,
                Ok(None) => !self.transactions().contains_key(id),
                Err(_) => true,
            },
    ;

    /// The stored transactions of an account, in no particular order.
    fn find_by_account_id(&self, account_id: AccountId) -> (r: Result<Vec<Transaction>, RepositoryError>)
        ensures
            match r {
                Ok(found) => lists_transactions_of(
                    crate::domain::transaction::transactions_view(found@),
                    self.transactions(),
                    account_id,
                ),
                Err(_) => true,
            },
    ;

    /// Replaces the stored transaction with the same identifier; `false` when there is none.
    fn update(&mut self, transaction: Transaction) -> (r: Result<bool, RepositoryError>)
        ensures
            match r {
                Ok(true) => old(self).transactions().contains_key(transaction@.id) && final(self).transactions() == old(self).transactions().insert(transaction@.id, transaction@),
                Ok(false) => !old(self).transactions().contains_key(transaction@.id) && final(self).transactions() == old(self).transactions(),
                Err(_) => final(self).transactions() == old(self).transactions(),
            },
    ;

    /// Removes the transaction stored under an identifier; `false` when there is none.
    fn delete(&mut self, id: TransactionId) -> (r: Result<bool, RepositoryError>)
        ensures
            match r {
                Ok(removed) => removed == old(self).transactions().contains_key(id) && final(self).transactions() == old(self).transactions().remove(id),
                Err(_) => final(self).transactions() == old(self).transactions(),
            },
    ;
}

/// Transfers stored by identifier.
pub trait TransferRepository {
    /// The stored transfers, by identifier. Implementations outside this library that
    /// do not describe their contents keep the default, which leaves them unspecified.
    closed spec fn transfers(&self) -> Map<TransferId, TransferView> {
        arbitrary()
    }

    /// Stores a new transfer under an identifier that the repository allocates.
    fn create(&mut self, transfer: NewTransfer) -> (r: Result<Transfer, RepositoryError>)
        ensures
            match r {
                Ok(created) => {
                    &&& !old(self).transfers().contains_key(created@.id)
                    &&& created@ == TransferView::from_new(created@.id, transfer@)
                    &&& final(self).transfers() == old(self).transfers().insert(created@.id, created@)
                },
                Err(_) => final(self).transfers() == old(self).transfers(),
            },
    ;

    /// Stores a transfer under its own identifier, which must be unused.
    fn save(&mut self, transfer: Transfer) -> (r: Result<(), RepositoryError>)
        ensures
            match r {
                Ok(()) => !old(self).transfers().contains_key(transfer@.id) && final(self).transfers()
                    == old(self).transfers().insert(transfer@.id, transfer@),
                Err(_) => final(self).transfers() == old(self).transfers(),
            },
    ;

    /// The transfer stored under an identifier.
    fn find_by_id(&self, id: TransferId) -> (r: Result<Option<Transfer>, RepositoryError>)
        ensures
            match r {
                Ok(Some(found)) => self.transfers().contains_key(id) && self.transfers()[id] == found@
                    && found@.id == id,
                Ok(None) => !self.transfers().contains_key(id),
                Err(_) => true,
            },
    ;

    /// The stored transfers that move money out of or into an account.
    fn find_by_account_id(&self, id: AccountId) -> (r: Result<Vec<Transfer>, RepositoryError>)
        ensures
            match r {
                Ok(found) => lists_transfers_of(
                    crate::domain::transfer::transfers_view(found@),
                    self.transfers(),
                    id,
                ),
                Err(_) => true,
            },
    ;

    /// Replaces the stored transfer with the same identifier; `false` when there is none.
    fn update(&mut self, transfer: Transfer) -> (r: Result<bool, RepositoryError>)
        ensures
            match r {
                Ok(true) => old(self).transfers().contains_key(transfer@.id) && final(self).transfers()
                    == old(self).transfers().insert(transfer@.id, transfer@),
                Ok(false) => !old(self).transfers().contains_key(transfer@.id) && final(self).transfers() == old(self).transfers(),
                Err(_) => final(self).transfers() == old(self).transfers(),
            },
    ;

    /// Removes the transfer stored under an identifier; `false` when there is none.
    fn delete(&mut self, id: TransferId) -> (r: Result<bool, RepositoryError>)
        ensures
            match r {
                Ok(removed) => removed == old(self).transfers().contains_key(id) && final(self).transfers()
                    == old(self).transfers().remove(id),
                Err(_) => final(self).transfers() == old(self).transfers(),
            },
    ;
}

/// Monthly category budgets stored by identifier, at most one per account, category and
/// month.
pub trait BudgetRepository {
    /// The stored budgets, by identifier. Implementations outside this library that do
    /// not describe their contents keep the default, which leaves them unspecified.
    closed spec fn budgets(&self) -> Map<BudgetId, BudgetView> {
        arbitrary()
    }

    /// Stores a budget for its account, category and month, replacing the limit of the
    /// budget that already covers them and keeping its identifier.
    fn set(&mut self, budget: NewBudget) -> (r: Result<Budget, RepositoryError>)
        ensures
            match r {
                Ok(stored) => {
                    &&& stored@ == BudgetView::from_new(stored@.id, budget@)
                    &&& final(self).budgets() == old(self).budgets().insert(stored@.id, stored@)
                    &&& old(self).budgets().contains_key(stored@.id) ==> has_scope(
                        old(self).budgets()[stored@.id],
                        budget@.account_id,
                        budget@.category,
                        budget@.month,
                    )
                    &&& (exists|id: BudgetId| #[trigger]
                        old(self).budgets().contains_key(id) && has_scope(
                            old(self).budgets()[id],
                            budget@.account_id,
                            budget@.category,
                            budget@.month,
                        )) ==> old(self).budgets().contains_key(stored@.id)
                },
                Err(_) => final(self).budgets() == old(self).budgets(),
            },
    ;

    /// Stores a budget under its own identifier, which must be unused.
    fn save(&mut self, budget: Budget) -> (r: Result<(), RepositoryError>)
        ensures
            match r {
                Ok(()) => !old(self).budgets().contains_key(budget@.id) && final(self).budgets()
                    == old(self).budgets().insert(budget@.id, budget@),
                Err(_) => final(self).budgets() == old(self).budgets(),
            },
    ;

    /// The budget stored under an identifier.
    fn find_by_id(&self, id: BudgetId) -> (r: Result<Option<Budget>, RepositoryError>)
        ensures
            match r {
                Ok(Some(found)) => self.budgets().contains_key(id) && self.budgets()[id] == found@
                    && found@.id == id,
                Ok(None) => !self.budgets().contains_key(id),
                Err(_) => true,
            },
    ;

    /// The stored budgets of an account.
    fn find_by_account_id(&self, id: AccountId) -> (r: Result<Vec<Budget>, RepositoryError>)
        ensures
            match r {
                Ok(found) => lists_budgets_of(
                    crate::domain::budget::budgets_view(found@),
                    self.budgets(),
                    id,
                ),
                Err(_) => true,
            },
    ;

    /// The budget that covers an account, category and month.
    fn find_by_scope(&self, account_id: AccountId, category: Category, month: BudgetMonth) -> (r: Result<
        Option<Budget>,
        RepositoryError,
    >)
        ensures
            match r {
                Ok(Some(found)) => self.budgets().contains_key(found@.id) && self.budgets()[found@.id]
                    == found@ && has_scope(found@, account_id, category, month),
                Ok(None) => forall|id: BudgetId| #[trigger]
                    self.budgets().contains_key(id) ==> !has_scope(
                        self.budgets()[id],
                        account_id,
                        category,
                        month,
                    ),
                Err(_) => true,
            },
    ;

    /// Removes the budget stored under an identifier; `false` when there is none.
    fn delete(&mut self, id: BudgetId) -> (r: Result<bool, RepositoryError>)
        ensures
            match r {
                Ok(removed) => removed == old(self).budgets().contains_key(id) && final(self).budgets()
                    == old(self).budgets().remove(id),
                Err(_) => final(self).budgets() == old(self).budgets(),
            },
    ;
}

/// The views of a list of audit entries.
pub open spec fn audit_entries_view(values: Seq<AuditLogEntry>) -> Seq<AuditLogEntryView> {
    values.map_values(|value: AuditLogEntry| value@)
}

/// The recorded changes, read newest first.
pub trait AuditLogRepository {
    /// The entries that a listing with this limit gives. Implementations that do not
    /// describe their log keep the default, which leaves them unspecified.
    closed spec fn recent(&self, limit: usize) -> Seq<AuditLogEntryView> {
        arbitrary()
    }

    /// At most `limit` recorded changes, newest first.
    fn list_recent(&self, limit: usize) -> (r: Result<Vec<AuditLogEntry>, RepositoryError>)
        ensures
            match r {
                Ok(found) => found@.len() <= limit && audit_entries_view(found@) == self.recent(limit),
                Err(_) => true,
            },
    ;
}

} // verus!
