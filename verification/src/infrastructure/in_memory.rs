use vstd::prelude::*;
use crate::application::repository::{
    AccountRepository, RepositoryError, TransactionRepository, TransferRepository, BudgetRepository, accounts_view, has_scope, insert_transactions,
    lists_accounts,
};
use crate::domain::transaction::{NewTransaction, Transaction, TransactionId, TransactionView, transactions_view};
use crate::domain::transfer::{NewTransfer, Transfer, TransferId, TransferView, transfers_view};
use crate::domain::budget::{Budget, BudgetId, BudgetMonth, BudgetView, NewBudget, budgets_view};
use crate::domain::transaction::Category;
use crate::domain::account::{Account, AccountId, AccountView, NewAccount};
use crate::keyed::{
    keyed_map, lemma_keyed_map_contains, lemma_keyed_map_index, lemma_keyed_map_remove_step,
    lemma_keyed_map_update, lemma_unique_keys_push, unique_keys, filter_values,
    lemma_keyed_map_filter_step, lemma_listed_from_filter, is_top_number, lemma_top_number,
};

verus! {

/// The number of an account identifier.
pub open spec fn account_number() -> spec_fn(AccountId) -> u64 {
    |id: AccountId| id@
}

/// The number of a transaction identifier.
pub open spec fn transaction_number() -> spec_fn(TransactionId) -> u64 {
    |id: TransactionId| id@
}

/// The number of a transfer identifier.
pub open spec fn transfer_number() -> spec_fn(TransferId) -> u64 {
    |id: TransferId| id@
}

/// The number of a budget identifier.
pub open spec fn budget_number() -> spec_fn(BudgetId) -> u64 {
    |id: BudgetId| id@
}

/// How many identifiers past the largest stored one a batch of `n` new values needs
/// free: one per value, and one even for an empty batch.
pub open spec fn ids_needed(n: nat) -> int {
    if n == 0 {
        1
    } else {
        n as int
    }
}

pub open spec fn account_key() -> spec_fn(AccountView) -> AccountId {
    |value: AccountView| value.id
}

/// Accounts kept in memory.
pub struct InMemoryAccountRepository {
    accounts: Vec<Account>,
}

impl InMemoryAccountRepository {
    #[verifier::type_invariant]
    spec fn inv(self) -> bool {
        unique_keys(accounts_view(self.accounts@), account_key())
    }

    /// An empty repository.
    pub fn new() -> (r: Self)
        ensures
            r.accounts() == Map::<AccountId, AccountView>::empty(),
    {
        let r = InMemoryAccountRepository { accounts: Vec::new() };
        assert(accounts_view(r.accounts@) =~= Seq::<AccountView>::empty());
        r
    }

    /// The position of the account stored under an identifier.
    fn position(&self, id: AccountId) -> (r: Option<usize>)
        ensures
            match r {
                Some(i) => i < self.accounts@.len() && self.accounts@[i as int]@.id == id,
                None => forall|k: int| 0 <= k < self.accounts@.len() ==> (#[trigger] self.accounts@[k])@.id != id,
            },
    {
        let mut i: usize = 0;
        while i < self.accounts.len()
            invariant
                i <= self.accounts@.len(),
                forall|k: int| 0 <= k < i ==> (#[trigger] self.accounts@[k])@.id != id,
            decreases self.accounts@.len() - i,
        {
            if self.accounts[i].id() == id {
                return Some(i);
            }
            i = i + 1;
        }
        None
    }

    proof fn lemma_lookup(&self, id: AccountId)
        requires
            unique_keys(accounts_view(self.accounts@), account_key()),
        ensures
            forall|k: int| 0 <= k < self.accounts@.len() && (#[trigger] self.accounts@[k])@.id == id
                ==> self.accounts().contains_key(id) && self.accounts()[id] == self.accounts@[k]@,
            (forall|k: int| 0 <= k < self.accounts@.len() ==> (#[trigger] self.accounts@[k])@.id != id)
                ==> !self.accounts().contains_key(id),
    {
        let views = accounts_view(self.accounts@);
        assert forall|k: int| 0 <= k < self.accounts@.len() && (#[trigger] self.accounts@[k])@.id == id
            implies self.accounts().contains_key(id) && self.accounts()[id] == self.accounts@[k]@ by {
            assert(views[k] == self.accounts@[k]@);
            lemma_keyed_map_index(views, account_key(), k);
        }
        lemma_keyed_map_contains(views, account_key(), id);
        if (forall|k: int| 0 <= k < self.accounts@.len() ==> (#[trigger] self.accounts@[k])@.id != id) {
            assert forall|k: int| 0 <= k < views.len() implies (account_key())(#[trigger] views[k]) != id by {
                assert(views[k] == self.accounts@[k]@);
            }
        }
    }
}

impl AccountRepository for InMemoryAccountRepository {
    closed spec fn accounts(&self) -> Map<AccountId, AccountView> {
        keyed_map(accounts_view(self.accounts@), account_key())
    }

    fn create(&mut self, account: NewAccount) -> (r: Result<Account, RepositoryError>)
        ensures
            match r {
                Ok(created) => is_top_number(old(self).accounts(), account_number(), created@.id@ - 1),
                Err(error) => error == RepositoryError::IdExhausted && is_top_number(
                    old(self).accounts(),
                    account_number(),
                    u64::MAX as int,
                ),
            },
    {
        proof {
            use_type_invariant(&*self);
        }
        let mut max: u64 = 0;
        let mut i: usize = 0;
        while i < self.accounts.len()
            invariant
                i <= self.accounts@.len(),
                forall|k: int| 0 <= k < i ==> (#[trigger] self.accounts@[k])@.id@ <= max,
                max == 0 || exists|k: int| 0 <= k < i && (#[trigger] self.accounts@[k])@.id@ == max,
            decreases self.accounts@.len() - i,
        {
            let value = self.accounts[i].id().value();
            if value > max {
                max = value;
            }
            i = i + 1;
        }
        proof {
            let listed = accounts_view(self.accounts@);
            assert forall|k: int| 0 <= k < listed.len() implies (account_number())((account_key())(#[trigger] listed[k])) <= max by {
                assert(listed[k] == self.accounts@[k]@);
            }
            if max != 0 {
                let k = choose|k: int| 0 <= k < i && (#[trigger] self.accounts@[k])@.id@ == max;
                assert(listed[k] == self.accounts@[k]@);
                assert((account_number())((account_key())(listed[k])) == max);
            }
            lemma_top_number(listed, account_key(), account_number(), max as int);
        }
        let next = match max.checked_add(1) {
            Some(next) => next,
            None => {
                return Err(RepositoryError::IdExhausted);
            },
        };
        let created = Account::from_new(AccountId::new(next), account);
        let stored = created.duplicate();
        proof {
            let views = accounts_view(self.accounts@);
            lemma_keyed_map_contains(views, account_key(), created@.id);
            assert forall|k: int| 0 <= k < views.len() implies (account_key())(#[trigger] views[k])
                != created@.id by {
                assert(views[k] == self.accounts@[k]@);
            }
            lemma_unique_keys_push(views, account_key(), stored@);
            assert(accounts_view(self.accounts@.push(stored)) =~= views.push(stored@));
        }
        let mut taken = InMemoryAccountRepository::new();
        std::mem::swap(self, &mut taken);
        let mut accounts = taken.accounts;
        accounts.push(stored);
        *self = InMemoryAccountRepository { accounts };
        Ok(created)
    }

    fn save(&mut self, account: Account) -> (r: Result<(), RepositoryError>)
        ensures
            r is Err <==> old(self).accounts().contains_key(account@.id),
            r matches Err(error) ==> error == RepositoryError::DuplicateAccountId(account@.id),
    {
        proof {
            use_type_invariant(&*self);
        }
        let id = account.id();
        if let Some(index) = self.position(id) {
            proof {
                self.lemma_lookup(id);
            }
            return Err(RepositoryError::DuplicateAccountId(id));
        }
        proof {
            let views = accounts_view(self.accounts@);
            self.lemma_lookup(id);
            lemma_unique_keys_push(views, account_key(), account@);
            assert(accounts_view(self.accounts@.push(account)) =~= views.push(account@));
        }
        let mut taken = InMemoryAccountRepository::new();
        std::mem::swap(self, &mut taken);
        let mut accounts = taken.accounts;
        accounts.push(account);
        *self = InMemoryAccountRepository { accounts };
        Ok(())
    }

    fn find_by_id(&self, id: AccountId) -> (r: Result<Option<Account>, RepositoryError>)
        ensures
            r is Ok,
    {
        proof {
            use_type_invariant(self);
            self.lemma_lookup(id);
        }
        match self.position(id) {
            Some(i) => Ok(Some(self.accounts[i].duplicate())),
            None => Ok(None),
        }
    }

    fn find_all(&self) -> (r: Result<Vec<Account>, RepositoryError>)
        ensures
            r is Ok,
    {
        proof {
            use_type_invariant(self);
        }
        let mut found: Vec<Account> = Vec::new();
        let mut i: usize = 0;
        while i < self.accounts.len()
            invariant
                i <= self.accounts@.len(),
                found@.len() == i,
                forall|k: int| 0 <= k < i ==> (#[trigger] found@[k])@ == self.accounts@[k]@,
            decreases self.accounts@.len() - i,
        {
            found.push(self.accounts[i].duplicate());
            i = i + 1;
        }
        proof {
            let views = accounts_view(self.accounts@);
            let listed = accounts_view(found@);
            assert(listed =~= views);
            assert forall|k: int| 0 <= k < listed.len() implies self.accounts().contains_key(
                (#[trigger] listed[k]).id,
            ) && self.accounts()[listed[k].id] == listed[k] by {
                lemma_keyed_map_index(views, account_key(), k);
            }
            assert forall|id: AccountId| #[trigger]
                self.accounts().contains_key(id) implies exists|k: int|
                0 <= k < listed.len() && (#[trigger] listed[k]).id == id by {
                lemma_keyed_map_contains(views, account_key(), id);
            }
            assert forall|a: int, b: int|
                0 <= a < listed.len() && 0 <= b < listed.len() && a != b implies (#[trigger] listed[a]).id
                != (#[trigger] listed[b]).id by {
                assert((account_key())(views[a]) != (account_key())(views[b]));
            }
        }
        Ok(found)
    }

    fn update(&mut self, account: Account) -> (r: Result<bool, RepositoryError>)
        ensures
            r is Ok,
    {
        proof {
            use_type_invariant(&*self);
        }
        let id = account.id();
        let index = match self.position(id) {
            Some(index) => index,
            None => {
                proof {
                    self.lemma_lookup(id);
                }
                return Ok(false);
            },
        };
        proof {
            self.lemma_lookup(id);
            let views = accounts_view(self.accounts@);
            assert(views[index as int] == self.accounts@[index as int]@);
            lemma_keyed_map_update(views, account_key(), index as int, account@);
            assert(accounts_view(self.accounts@.update(index as int, account)) =~= views.update(
                index as int,
                account@,
            ));
        }
        let mut taken = InMemoryAccountRepository::new();
        std::mem::swap(self, &mut taken);
        let mut accounts = taken.accounts;
        accounts.set(index, account);
        *self = InMemoryAccountRepository { accounts };
        Ok(true)
    }

    fn delete(&mut self, id: AccountId) -> (r: Result<bool, RepositoryError>)
        ensures
            r is Ok,
    {
        proof {
            use_type_invariant(&*self);
        }
        let found = self.position(id).is_some();
        proof {
            self.lemma_lookup(id);
        }
        let mut kept: Vec<Account> = Vec::new();
        let ghost views = accounts_view(self.accounts@);
        let mut i: usize = 0;
        while i < self.accounts.len()
            invariant
                i <= self.accounts@.len(),
                views == accounts_view(self.accounts@),
                unique_keys(views, account_key()),
                keyed_map(accounts_view(kept@), account_key()) == keyed_map(
                    views.subrange(0, i as int),
                    account_key(),
                ).remove(id),
                unique_keys(accounts_view(kept@), account_key()),
                forall|m: int|
                    0 <= m < kept@.len() ==> exists|j: int|
                        0 <= j < i && (#[trigger] kept@[m])@.id == #[trigger] views[j].id,
            decreases self.accounts@.len() - i,
        {
            let value = self.accounts[i].duplicate();
            proof {
                assert(views[i as int] == self.accounts@[i as int]@);
                assert(views.subrange(0, i + 1) =~= views.subrange(0, i as int).push(value@));
                lemma_keyed_map_remove_step(
                    accounts_view(kept@),
                    views.subrange(0, i as int),
                    value@,
                    account_key(),
                    id,
                );
            }
            if value.id() != id {
                proof {
                    let before = accounts_view(kept@);
                    assert forall|m: int| 0 <= m < before.len() implies (account_key())(#[trigger] before[m])
                        != value@.id by {
                        assert(before[m] == kept@[m]@);
                        let j = choose|j: int| 0 <= j < i && kept@[m]@.id == #[trigger] views[j].id;
                        assert((account_key())(views[j]) != (account_key())(views[i as int]));
                    }
                    lemma_keyed_map_contains(before, account_key(), value@.id);
                    lemma_unique_keys_push(before, account_key(), value@);
                    assert(accounts_view(kept@.push(value)) =~= before.push(value@));
                }
                let ghost old_kept = kept@;
                kept.push(value);
                proof {
                    assert forall|m: int| 0 <= m < kept@.len() implies exists|j: int|
                        0 <= j < i + 1 && (#[trigger] kept@[m])@.id == #[trigger] views[j].id by {
                        if m < old_kept.len() {
                            assert(kept@[m] == old_kept[m]);
                        } else {
                            assert(kept@[m]@.id == views[i as int].id);
                        }
                    }
                }
            }
            i = i + 1;
        }
        proof {
            assert(views.subrange(0, views.len() as int) =~= views);
        }
        *self = InMemoryAccountRepository { accounts: kept };
        Ok(found)
    }
}

pub open spec fn transaction_key() -> spec_fn(TransactionView) -> TransactionId {
    |value: TransactionView| value.id
}

pub open spec fn transaction_of(account_id: AccountId) -> spec_fn(TransactionView) -> bool {
    |value: TransactionView| value.account_id == account_id
}

/// Transactions kept in memory.
pub struct InMemoryTransactionRepository {
    transactions: Vec<Transaction>,
}

impl InMemoryTransactionRepository {
    #[verifier::type_invariant]
    spec fn inv(self) -> bool {
        unique_keys(transactions_view(self.transactions@), transaction_key())
    }

    /// An empty repository.
    pub fn new() -> (r: Self)
        ensures
            r.transactions() == Map::<TransactionId, TransactionView>::empty(),
    {
        let r = InMemoryTransactionRepository { transactions: Vec::new() };
        assert(transactions_view(r.transactions@) =~= Seq::<TransactionView>::empty());
        r
    }

    /// The position of the transaction stored under an identifier.
    fn position(&self, id: TransactionId) -> (r: Option<usize>)
        ensures
            match r {
                Some(i) => i < self.transactions@.len() && self.transactions@[i as int]@.id == id,
                None => forall|k: int| 0 <= k < self.transactions@.len() ==> (#[trigger] self.transactions@[k])@.id != id,
            },
    {
        let mut i: usize = 0;
        while i < self.transactions.len()
            invariant
                i <= self.transactions@.len(),
                forall|k: int| 0 <= k < i ==> (#[trigger] self.transactions@[k])@.id != id,
            decreases self.transactions@.len() - i,
        {
            if self.transactions[i].id() == id {
                return Some(i);
            }
            i = i + 1;
        }
        None
    }

    proof fn lemma_lookup(&self, id: TransactionId)
        requires
            unique_keys(transactions_view(self.transactions@), transaction_key()),
        ensures
            forall|k: int| 0 <= k < self.transactions@.len() && (#[trigger] self.transactions@[k])@.id == id
                ==> self.transactions().contains_key(id) && self.transactions()[id] == self.transactions@[k]@,
            (forall|k: int| 0 <= k < self.transactions@.len() ==> (#[trigger] self.transactions@[k])@.id != id)
                ==> !self.transactions().contains_key(id),
    {
        let views = transactions_view(self.transactions@);
        assert forall|k: int| 0 <= k < self.transactions@.len() && (#[trigger] self.transactions@[k])@.id == id
            implies self.transactions().contains_key(id) && self.transactions()[id] == self.transactions@[k]@ by {
            assert(views[k] == self.transactions@[k]@);
            lemma_keyed_map_index(views, transaction_key(), k);
        }
        lemma_keyed_map_contains(views, transaction_key(), id);
        if (forall|k: int| 0 <= k < self.transactions@.len() ==> (#[trigger] self.transactions@[k])@.id != id) {
            assert forall|k: int| 0 <= k < views.len() implies (transaction_key())(#[trigger] views[k]) != id by {
                assert(views[k] == self.transactions@[k]@);
            }
        }
    }
}

impl TransactionRepository for InMemoryTransactionRepository {
    closed spec fn transactions(&self) -> Map<TransactionId, TransactionView> {
        keyed_map(transactions_view(self.transactions@), transaction_key())
    }

    fn create(&mut self, transaction: NewTransaction) -> (r: Result<Transaction, RepositoryError>)
        ensures
            match r {
                Ok(created) => is_top_number(old(self).transactions(), transaction_number(), created@.id@ - 1),
                Err(error) => error == RepositoryError::IdExhausted && is_top_number(
                    old(self).transactions(),
                    transaction_number(),
                    u64::MAX as int,
                ),
            },
    {
        proof {
            use_type_invariant(&*self);
        }
        let mut max: u64 = 0;
        let mut i: usize = 0;
        while i < self.transactions.len()
            invariant
                i <= self.transactions@.len(),
                forall|k: int| 0 <= k < i ==> (#[trigger] self.transactions@[k])@.id@ <= max,
                max == 0 || exists|k: int| 0 <= k < i && (#[trigger] self.transactions@[k])@.id@ == max,
            decreases self.transactions@.len() - i,
        {
            let value = self.transactions[i].id().value();
            if value > max {
                max = value;
            }
            i = i + 1;
        }
        proof {
            let listed = transactions_view(self.transactions@);
            assert forall|k: int| 0 <= k < listed.len() implies (transaction_number())((transaction_key())(#[trigger] listed[k])) <= max by {
                assert(listed[k] == self.transactions@[k]@);
            }
            if max != 0 {
                let k = choose|k: int| 0 <= k < i && (#[trigger] self.transactions@[k])@.id@ == max;
                assert(listed[k] == self.transactions@[k]@);
                assert((transaction_number())((transaction_key())(listed[k])) == max);
            }
            lemma_top_number(listed, transaction_key(), transaction_number(), max as int);
        }
        let next = match max.checked_add(1) {
            Some(next) => next,
            None => {
                return Err(RepositoryError::IdExhausted);
            },
        };
        let created = Transaction::from_new(TransactionId::new(next), transaction);
        let stored = created.duplicate();
        proof {
            let views = transactions_view(self.transactions@);
            lemma_keyed_map_contains(views, transaction_key(), created@.id);
            assert forall|k: int| 0 <= k < views.len() implies (transaction_key())(#[trigger] views[k])
                != created@.id by {
                assert(views[k] == self.transactions@[k]@);
            }
            lemma_unique_keys_push(views, transaction_key(), stored@);
            assert(transactions_view(self.transactions@.push(stored)) =~= views.push(stored@));
        }
        let mut taken = InMemoryTransactionRepository::new();
        std::mem::swap(self, &mut taken);
        let mut transactions = taken.transactions;
        transactions.push(stored);
        *self = InMemoryTransactionRepository { transactions };
        Ok(created)
    }

    fn save(&mut self, transaction: Transaction) -> (r: Result<(), RepositoryError>)
        ensures
            r is Err <==> old(self).transactions().contains_key(transaction@.id),
            r matches Err(error) ==> error == RepositoryError::DuplicateTransactionId(transaction@.id),
    {
        proof {
            use_type_invariant(&*self);
        }
        let id = transaction.id();
        if let Some(index) = self.position(id) {
            proof {
                self.lemma_lookup(id);
            }
            return Err(RepositoryError::DuplicateTransactionId(id));
        }
        proof {
            let views = transactions_view(self.transactions@);
            self.lemma_lookup(id);
            lemma_unique_keys_push(views, transaction_key(), transaction@);
            assert(transactions_view(self.transactions@.push(transaction)) =~= views.push(transaction@));
        }
        let mut taken = InMemoryTransactionRepository::new();
        std::mem::swap(self, &mut taken);
        let mut transactions = taken.transactions;
        transactions.push(transaction);
        *self = InMemoryTransactionRepository { transactions };
        Ok(())
    }

    fn find_by_id(&self, id: TransactionId) -> (r: Result<Option<Transaction>, RepositoryError>)
        ensures
            r is Ok,
    {
        proof {
            use_type_invariant(self);
            self.lemma_lookup(id);
        }
        match self.position(id) {
            Some(i) => Ok(Some(self.transactions[i].duplicate())),
            None => Ok(None),
        }
    }

    fn find_by_account_id(&self, account_id: AccountId) -> (r: Result<Vec<Transaction>, RepositoryError>)
        ensures
            r is Ok,
    {
        proof {
            use_type_invariant(self);
        }
        let ghost views = transactions_view(self.transactions@);
        let ghost keep = transaction_of(account_id);
        let mut found: Vec<Transaction> = Vec::new();
        let mut i: usize = 0;
        proof {
            assert(transactions_view(found@) =~= Seq::<TransactionView>::empty());
            assert(views.subrange(0, 0) =~= Seq::<TransactionView>::empty());
            assert(keyed_map(Seq::<TransactionView>::empty(), transaction_key()) =~= filter_values(
                keyed_map(Seq::<TransactionView>::empty(), transaction_key()),
                keep,
            ));
        }
        while i < self.transactions.len()
            invariant
                i <= self.transactions@.len(),
                views == transactions_view(self.transactions@),
                keep == transaction_of(account_id),
                unique_keys(views, transaction_key()),
                unique_keys(transactions_view(found@), transaction_key()),
                keyed_map(transactions_view(found@), transaction_key()) == filter_values(
                    keyed_map(views.subrange(0, i as int), transaction_key()),
                    keep,
                ),
            decreases self.transactions@.len() - i,
        {
            proof {
                assert(views[i as int] == self.transactions@[i as int]@);
                assert(views.subrange(0, i + 1) =~= views.subrange(0, i as int).push(views[i as int]));
                assert(unique_keys(views.subrange(0, i + 1), transaction_key())) by {
                    let sub = views.subrange(0, i + 1);
                    assert forall|a: int, b: int|
                        0 <= a < sub.len() && 0 <= b < sub.len() && a != b implies (transaction_key())(
                        #[trigger] sub[a],
                    ) != (transaction_key())(#[trigger] sub[b]) by {
                        assert(sub[a] == views[a]);
                        assert(sub[b] == views[b]);
                    }
                }
                lemma_keyed_map_filter_step(
                    transactions_view(found@),
                    views.subrange(0, i as int),
                    views[i as int],
                    transaction_key(),
                    keep,
                );
            }
            if self.transactions[i].account_id() == account_id {
                let value = self.transactions[i].duplicate();
                proof {
                    assert(value@ == views[i as int]);
                    assert(keep(views[i as int]));
                    assert(transactions_view(found@.push(value)) =~= transactions_view(found@).push(value@));
                }
                found.push(value);
            } else {
                assert(!keep(views[i as int]));
            }
            i = i + 1;
        }
        proof {
            assert(views.subrange(0, views.len() as int) =~= views);
            let listed = transactions_view(found@);
            lemma_listed_from_filter(listed, self.transactions(), transaction_key(), keep);
            assert forall|id: TransactionId| #[trigger]
                self.transactions().contains_key(id) && self.transactions()[id].account_id == account_id implies exists|k: int|
                0 <= k < listed.len() && (#[trigger] listed[k]).id == id by {
                assert(keep(self.transactions()[id]));
                let m = choose|m: int| 0 <= m < listed.len() && (transaction_key())(#[trigger] listed[m]) == id;
            }
            assert forall|a: int, b: int|
                0 <= a < listed.len() && 0 <= b < listed.len() && a != b implies (#[trigger] listed[a]).id
                != (#[trigger] listed[b]).id by {
                assert((transaction_key())(listed[a]) != (transaction_key())(listed[b]));
            }
        }
        Ok(found)
    }

    fn create_many(&mut self, transactions: Vec<NewTransaction>) -> (r: Result<
        Vec<Transaction>,
        RepositoryError,
    >)
        ensures
            match r {
                Ok(created) => exists|top: int|
                    #[trigger] is_top_number(old(self).transactions(), transaction_number(), top) && top + ids_needed(
                        transactions@.len(),
                    ) <= u64::MAX && forall|m: int|
                        0 <= m < created@.len() ==> (#[trigger] created@[m])@.id@ == top + 1 + m,
                Err(error) => error == RepositoryError::IdExhausted && exists|top: int|
                    #[trigger] is_top_number(old(self).transactions(), transaction_number(), top) && top + ids_needed(
                        transactions@.len(),
                    ) > u64::MAX,
            },
    {
        proof {
            use_type_invariant(&*self);
        }
        let mut max: u64 = 0;
        let mut i: usize = 0;
        while i < self.transactions.len()
            invariant
                i <= self.transactions@.len(),
                forall|k: int| 0 <= k < i ==> (#[trigger] self.transactions@[k])@.id@ <= max,
                max == 0 || exists|k: int| 0 <= k < i && (#[trigger] self.transactions@[k])@.id@ == max,
            decreases self.transactions@.len() - i,
        {
            let value = self.transactions[i].id().value();
            if value > max {
                max = value;
            }
            i = i + 1;
        }
        proof {
            let listed = transactions_view(self.transactions@);
            assert forall|k: int| 0 <= k < listed.len() implies (transaction_number())((transaction_key())(#[trigger] listed[k])) <= max by {
                assert(listed[k] == self.transactions@[k]@);
            }
            if max != 0 {
                let k = choose|k: int| 0 <= k < i && (#[trigger] self.transactions@[k])@.id@ == max;
                assert(listed[k] == self.transactions@[k]@);
                assert((transaction_number())((transaction_key())(listed[k])) == max);
            }
            lemma_top_number(listed, transaction_key(), transaction_number(), max as int);
        }
        let next = match max.checked_add(1) {
            Some(next) => next,
            None => {
                proof {
                    assert(is_top_number(self.transactions(), transaction_number(), max as int));
                }
                return Err(RepositoryError::IdExhausted);
            },
        };
        let ghost requested = transactions@.map_values(|value: NewTransaction| value@);
        let ghost stored = self.transactions();
        let ghost views = transactions_view(self.transactions@);
        let mut all: Vec<Transaction> = Vec::new();
        let mut k: usize = 0;
        while k < self.transactions.len()
            invariant
                k <= self.transactions@.len(),
                all@.len() == k,
                forall|m: int| 0 <= m < k ==> (#[trigger] all@[m])@ == self.transactions@[m]@,
            decreases self.transactions@.len() - k,
        {
            all.push(self.transactions[k].duplicate());
            k = k + 1;
        }
        proof {
            assert(transactions_view(all@) =~= views);
            assert forall|m: int| 0 <= m < all@.len() implies (#[trigger] all@[m])@.id@ < next by {
                assert(all@[m]@ == self.transactions@[m]@);
            }
            assert forall|id: TransactionId| #[trigger] stored.contains_key(id) implies id@ < next by {
                lemma_keyed_map_contains(views, transaction_key(), id);
                let j = choose|j: int| 0 <= j < views.len() && (transaction_key())(#[trigger] views[j]) == id;
                assert(views[j] == self.transactions@[j]@);
            }
            assert(insert_transactions(stored, transactions_view(Seq::<Transaction>::empty())) == stored);
            assert(transactions_view(Seq::<Transaction>::empty()) =~= Seq::<TransactionView>::empty());
        }
        let n = transactions.len();
        let mut remaining = transactions;
        let mut created: Vec<Transaction> = Vec::new();
        let mut j: usize = 0;
        while j < n
            invariant
                n == requested.len(),
                j <= n,
                remaining@.len() == n - j,
                forall|m: int| 0 <= m < remaining@.len() ==> (#[trigger] remaining@[m])@ == requested[m + j],
                created@.len() == j,
                forall|m: int|
                    0 <= m < j ==> (#[trigger] created@[m])@ == TransactionView::from_new(
                        created@[m]@.id,
                        requested[m],
                    ) && created@[m]@.id@ == next + m,
                keyed_map(transactions_view(all@), transaction_key()) == insert_transactions(
                    stored,
                    transactions_view(created@),
                ),
                unique_keys(transactions_view(all@), transaction_key()),
                forall|m: int| 0 <= m < all@.len() ==> (#[trigger] all@[m])@.id@ < next + j,
                forall|id: TransactionId| #[trigger] stored.contains_key(id) ==> id@ < next,
                stored == old(self).transactions(),
                next == max + 1,
                is_top_number(stored, transaction_number(), max as int),
                next + j <= u64::MAX + 1,
                n == transactions@.len(),
            decreases n - j,
        {
            let id_value = match next.checked_add(j as u64) {
                Some(id_value) => id_value,
                None => {
                    proof {
                        assert(is_top_number(old(self).transactions(), transaction_number(), max as int));
                    }
                    return Err(RepositoryError::IdExhausted);
                },
            };
            let value = remaining.remove(0);
            let transaction = Transaction::from_new(TransactionId::new(id_value), value);
            let copy = transaction.duplicate();
            proof {
                let before = transactions_view(all@);
                assert forall|m: int| 0 <= m < before.len() implies (transaction_key())(#[trigger] before[m])
                    != copy@.id by {
                    assert(before[m] == all@[m]@);
                }
                lemma_keyed_map_contains(before, transaction_key(), copy@.id);
                lemma_unique_keys_push(before, transaction_key(), copy@);
                assert(transactions_view(all@.push(copy)) =~= before.push(copy@));
                assert(transactions_view(created@.push(transaction)) =~= transactions_view(created@).push(
                    transaction@,
                ));
                assert(transactions_view(created@.push(transaction)).drop_last() =~= transactions_view(created@));
            }
            let ghost old_all = all@;
            let ghost old_created = created@;
            all.push(copy);
            created.push(transaction);
            proof {
                assert forall|m: int| 0 <= m < all@.len() implies (#[trigger] all@[m])@.id@ < next + j + 1 by {
                    if m < old_all.len() {
                        assert(all@[m] == old_all[m]);
                    }
                }
                assert forall|m: int|
                    0 <= m < j + 1 implies (#[trigger] created@[m])@ == TransactionView::from_new(
                    created@[m]@.id,
                    requested[m],
                ) && created@[m]@.id@ == next + m by {
                    if m < j {
                        assert(created@[m] == old_created[m]);
                    }
                }
            }
            j = j + 1;
        }
        proof {
            let listed = transactions_view(created@);
            assert(listed.len() == requested.len());
            assert forall|m: int| 0 <= m < listed.len() implies #[trigger] listed[m] == TransactionView::from_new(
                listed[m].id,
                requested[m],
            ) && !stored.contains_key(listed[m].id) by {
                assert(listed[m] == created@[m]@);
            }
            assert forall|a: int, b: int|
                0 <= a < listed.len() && 0 <= b < listed.len() && a != b implies (#[trigger] listed[a]).id
                != (#[trigger] listed[b]).id by {
                assert(listed[a] == created@[a]@);
                assert(listed[b] == created@[b]@);
            }
        }
        proof {
            assert(is_top_number(old(self).transactions(), transaction_number(), max as int));
        }
        *self = InMemoryTransactionRepository { transactions: all };
        Ok(created)
    }

    fn update(&mut self, transaction: Transaction) -> (r: Result<bool, RepositoryError>)
        ensures
            r is Ok,
    {
        proof {
            use_type_invariant(&*self);
        }
        let id = transaction.id();
        let index = match self.position(id) {
            Some(index) => index,
            None => {
                proof {
                    self.lemma_lookup(id);
                }
                return Ok(false);
            },
        };
        proof {
            self.lemma_lookup(id);
            let views = transactions_view(self.transactions@);
            assert(views[index as int] == self.transactions@[index as int]@);
            lemma_keyed_map_update(views, transaction_key(), index as int, transaction@);
            assert(transactions_view(self.transactions@.update(index as int, transaction)) =~= views.update(
                index as int,
                transaction@,
            ));
        }
        let mut taken = InMemoryTransactionRepository::new();
        std::mem::swap(self, &mut taken);
        let mut transactions = taken.transactions;
        transactions.set(index, transaction);
        *self = InMemoryTransactionRepository { transactions };
        Ok(true)
    }

    fn delete(&mut self, id: TransactionId) -> (r: Result<bool, RepositoryError>)
        ensures
            r is Ok,
    {
        proof {
            use_type_invariant(&*self);
        }
        let found = self.position(id).is_some();
        proof {
            self.lemma_lookup(id);
        }
        let mut kept: Vec<Transaction> = Vec::new();
        let ghost views = transactions_view(self.transactions@);
        let mut i: usize = 0;
        while i < self.transactions.len()
            invariant
                i <= self.transactions@.len(),
                views == transactions_view(self.transactions@),
                unique_keys(views, transaction_key()),
                keyed_map(transactions_view(kept@), transaction_key()) == keyed_map(
                    views.subrange(0, i as int),
                    transaction_key(),
                ).remove(id),
                unique_keys(transactions_view(kept@), transaction_key()),
                forall|m: int|
                    0 <= m < kept@.len() ==> exists|j: int|
                        0 <= j < i && (#[trigger] kept@[m])@.id == #[trigger] views[j].id,
            decreases self.transactions@.len() - i,
        {
            let value = self.transactions[i].duplicate();
            proof {
                assert(views[i as int] == self.transactions@[i as int]@);
                assert(views.subrange(0, i + 1) =~= views.subrange(0, i as int).push(value@));
                lemma_keyed_map_remove_step(
                    transactions_view(kept@),
                    views.subrange(0, i as int),
                    value@,
                    transaction_key(),
                    id,
                );
            }
            if value.id() != id {
                proof {
                    let before = transactions_view(kept@);
                    assert forall|m: int| 0 <= m < before.len() implies (transaction_key())(#[trigger] before[m])
                        != value@.id by {
                        assert(before[m] == kept@[m]@);
                        let j = choose|j: int| 0 <= j < i && kept@[m]@.id == #[trigger] views[j].id;
                        assert((transaction_key())(views[j]) != (transaction_key())(views[i as int]));
                    }
                    lemma_keyed_map_contains(before, transaction_key(), value@.id);
                    lemma_unique_keys_push(before, transaction_key(), value@);
                    assert(transactions_view(kept@.push(value)) =~= before.push(value@));
                }
                let ghost old_kept = kept@;
                kept.push(value);
                proof {
                    assert forall|m: int| 0 <= m < kept@.len() implies exists|j: int|
                        0 <= j < i + 1 && (#[trigger] kept@[m])@.id == #[trigger] views[j].id by {
                        if m < old_kept.len() {
                            assert(kept@[m] == old_kept[m]);
                        } else {
                            assert(kept@[m]@.id == views[i as int].id);
                        }
                    }
                }
            }
            i = i + 1;
        }
        proof {
            assert(views.subrange(0, views.len() as int) =~= views);
        }
        *self = InMemoryTransactionRepository { transactions: kept };
        Ok(found)
    }
}

pub open spec fn transfer_key() -> spec_fn(TransferView) -> TransferId {
    |value: TransferView| value.id
}

pub open spec fn transfer_involving(account_id: AccountId) -> spec_fn(TransferView) -> bool {
    |value: TransferView| value.involves(account_id)
}

/// Transfers kept in memory.
pub struct InMemoryTransferRepository {
    transfers: Vec<Transfer>,
}

impl InMemoryTransferRepository {
    #[verifier::type_invariant]
    spec fn inv(self) -> bool {
        unique_keys(transfers_view(self.transfers@), transfer_key())
    }

    /// An empty repository.
    pub fn new() -> (r: Self)
        ensures
            r.transfers() == Map::<TransferId, TransferView>::empty(),
    {
        let r = InMemoryTransferRepository { transfers: Vec::new() };
        assert(transfers_view(r.transfers@) =~= Seq::<TransferView>::empty());
        r
    }

    /// The position of the transfer stored under an identifier.
    fn position(&self, id: TransferId) -> (r: Option<usize>)
        ensures
            match r {
                Some(i) => i < self.transfers@.len() && self.transfers@[i as int]@.id == id,
                None => forall|k: int| 0 <= k < self.transfers@.len() ==> (#[trigger] self.transfers@[k])@.id != id,
            },
    {
        let mut i: usize = 0;
        while i < self.transfers.len()
            invariant
                i <= self.transfers@.len(),
                forall|k: int| 0 <= k < i ==> (#[trigger] self.transfers@[k])@.id != id,
            decreases self.transfers@.len() - i,
        {
            if self.transfers[i].id() == id {
                return Some(i);
            }
            i = i + 1;
        }
        None
    }

    proof fn lemma_lookup(&self, id: TransferId)
        requires
            unique_keys(transfers_view(self.transfers@), transfer_key()),
        ensures
            forall|k: int| 0 <= k < self.transfers@.len() && (#[trigger] self.transfers@[k])@.id == id
                ==> self.transfers().contains_key(id) && self.transfers()[id] == self.transfers@[k]@,
            (forall|k: int| 0 <= k < self.transfers@.len() ==> (#[trigger] self.transfers@[k])@.id != id)
                ==> !self.transfers().contains_key(id),
    {
        let views = transfers_view(self.transfers@);
        assert forall|k: int| 0 <= k < self.transfers@.len() && (#[trigger] self.transfers@[k])@.id == id
            implies self.transfers().contains_key(id) && self.transfers()[id] == self.transfers@[k]@ by {
            assert(views[k] == self.transfers@[k]@);
            lemma_keyed_map_index(views, transfer_key(), k);
        }
        lemma_keyed_map_contains(views, transfer_key(), id);
        if (forall|k: int| 0 <= k < self.transfers@.len() ==> (#[trigger] self.transfers@[k])@.id != id) {
            assert forall|k: int| 0 <= k < views.len() implies (transfer_key())(#[trigger] views[k]) != id by {
                assert(views[k] == self.transfers@[k]@);
            }
        }
    }
}

impl TransferRepository for InMemoryTransferRepository {
    closed spec fn transfers(&self) -> Map<TransferId, TransferView> {
        keyed_map(transfers_view(self.transfers@), transfer_key())
    }

    fn create(&mut self, transfer: NewTransfer) -> (r: Result<Transfer, RepositoryError>)
        ensures
            match r {
                Ok(created) => is_top_number(old(self).transfers(), transfer_number(), created@.id@ - 1),
                Err(error) => error == RepositoryError::IdExhausted && is_top_number(
                    old(self).transfers(),
                    transfer_number(),
                    u64::MAX as int,
                ),
            },
    {
        proof {
            use_type_invariant(&*self);
        }
        let mut max: u64 = 0;
        let mut i: usize = 0;
        while i < self.transfers.len()
            invariant
                i <= self.transfers@.len(),
                forall|k: int| 0 <= k < i ==> (#[trigger] self.transfers@[k])@.id@ <= max,
                max == 0 || exists|k: int| 0 <= k < i && (#[trigger] self.transfers@[k])@.id@ == max,
            decreases self.transfers@.len() - i,
        {
            let value = self.transfers[i].id().value();
            if value > max {
                max = value;
            }
            i = i + 1;
        }
        proof {
            let listed = transfers_view(self.transfers@);
            assert forall|k: int| 0 <= k < listed.len() implies (transfer_number())((transfer_key())(#[trigger] listed[k])) <= max by {
                assert(listed[k] == self.transfers@[k]@);
            }
            if max != 0 {
                let k = choose|k: int| 0 <= k < i && (#[trigger] self.transfers@[k])@.id@ == max;
                assert(listed[k] == self.transfers@[k]@);
                assert((transfer_number())((transfer_key())(listed[k])) == max);
            }
            lemma_top_number(listed, transfer_key(), transfer_number(), max as int);
        }
        let next = match max.checked_add(1) {
            Some(next) => next,
            None => {
                return Err(RepositoryError::IdExhausted);
            },
        };
        let created = Transfer::from_new(TransferId::new(next), transfer);
        let stored = created.duplicate();
        proof {
            let views = transfers_view(self.transfers@);
            lemma_keyed_map_contains(views, transfer_key(), created@.id);
            assert forall|k: int| 0 <= k < views.len() implies (transfer_key())(#[trigger] views[k])
                != created@.id by {
                assert(views[k] == self.transfers@[k]@);
            }
            lemma_unique_keys_push(views, transfer_key(), stored@);
            assert(transfers_view(self.transfers@.push(stored)) =~= views.push(stored@));
        }
        let mut taken = InMemoryTransferRepository::new();
        std::mem::swap(self, &mut taken);
        let mut transfers = taken.transfers;
        transfers.push(stored);
        *self = InMemoryTransferRepository { transfers };
        Ok(created)
    }

    fn save(&mut self, transfer: Transfer) -> (r: Result<(), RepositoryError>)
        ensures
            r is Err <==> old(self).transfers().contains_key(transfer@.id),
            r matches Err(error) ==> error == RepositoryError::DuplicateTransferId(transfer@.id),
    {
        proof {
            use_type_invariant(&*self);
        }
        let id = transfer.id();
        if let Some(index) = self.position(id) {
            proof {
                self.lemma_lookup(id);
            }
            return Err(RepositoryError::DuplicateTransferId(id));
        }
        proof {
            let views = transfers_view(self.transfers@);
            self.lemma_lookup(id);
            lemma_unique_keys_push(views, transfer_key(), transfer@);
            assert(transfers_view(self.transfers@.push(transfer)) =~= views.push(transfer@));
        }
        let mut taken = InMemoryTransferRepository::new();
        std::mem::swap(self, &mut taken);
        let mut transfers = taken.transfers;
        transfers.push(transfer);
        *self = InMemoryTransferRepository { transfers };
        Ok(())
    }

    fn find_by_id(&self, id: TransferId) -> (r: Result<Option<Transfer>, RepositoryError>)
        ensures
            r is Ok,
    {
        proof {
            use_type_invariant(self);
            self.lemma_lookup(id);
        }
        match self.position(id) {
            Some(i) => Ok(Some(self.transfers[i].duplicate())),
            None => Ok(None),
        }
    }

    fn find_by_account_id(&self, account_id: AccountId) -> (r: Result<Vec<Transfer>, RepositoryError>)
        ensures
            r is Ok,
    {
        proof {
            use_type_invariant(self);
        }
        let ghost views = transfers_view(self.transfers@);
        let ghost keep = transfer_involving(account_id);
        let mut found: Vec<Transfer> = Vec::new();
        let mut i: usize = 0;
        proof {
            assert(transfers_view(found@) =~= Seq::<TransferView>::empty());
            assert(views.subrange(0, 0) =~= Seq::<TransferView>::empty());
            assert(keyed_map(Seq::<TransferView>::empty(), transfer_key()) =~= filter_values(
                keyed_map(Seq::<TransferView>::empty(), transfer_key()),
                keep,
            ));
        }
        while i < self.transfers.len()
            invariant
                i <= self.transfers@.len(),
                views == transfers_view(self.transfers@),
                keep == transfer_involving(account_id),
                unique_keys(views, transfer_key()),
                unique_keys(transfers_view(found@), transfer_key()),
                keyed_map(transfers_view(found@), transfer_key()) == filter_values(
                    keyed_map(views.subrange(0, i as int), transfer_key()),
                    keep,
                ),
            decreases self.transfers@.len() - i,
        {
            proof {
                assert(views[i as int] == self.transfers@[i as int]@);
                assert(views.subrange(0, i + 1) =~= views.subrange(0, i as int).push(views[i as int]));
                assert(unique_keys(views.subrange(0, i + 1), transfer_key())) by {
                    let sub = views.subrange(0, i + 1);
                    assert forall|a: int, b: int|
                        0 <= a < sub.len() && 0 <= b < sub.len() && a != b implies (transfer_key())(
                        #[trigger] sub[a],
                    ) != (transfer_key())(#[trigger] sub[b]) by {
                        assert(sub[a] == views[a]);
                        assert(sub[b] == views[b]);
                    }
                }
                lemma_keyed_map_filter_step(
                    transfers_view(found@),
                    views.subrange(0, i as int),
                    views[i as int],
                    transfer_key(),
                    keep,
                );
            }
            if (self.transfers[i].source_account_id() == account_id || self.transfers[i].destination_account_id() == account_id) {
                let value = self.transfers[i].duplicate();
                proof {
                    assert(value@ == views[i as int]);
                    assert(keep(views[i as int]));
                    assert(transfers_view(found@.push(value)) =~= transfers_view(found@).push(value@));
                }
                found.push(value);
            } else {
                assert(!keep(views[i as int]));
            }
            i = i + 1;
        }
        proof {
            assert(views.subrange(0, views.len() as int) =~= views);
            let listed = transfers_view(found@);
            lemma_listed_from_filter(listed, self.transfers(), transfer_key(), keep);
            assert forall|id: TransferId| #[trigger]
                self.transfers().contains_key(id) && self.transfers()[id].involves(account_id) implies exists|k: int|
                0 <= k < listed.len() && (#[trigger] listed[k]).id == id by {
                assert(keep(self.transfers()[id]));
                let m = choose|m: int| 0 <= m < listed.len() && (transfer_key())(#[trigger] listed[m]) == id;
            }
            assert forall|a: int, b: int|
                0 <= a < listed.len() && 0 <= b < listed.len() && a != b implies (#[trigger] listed[a]).id
                != (#[trigger] listed[b]).id by {
                assert((transfer_key())(listed[a]) != (transfer_key())(listed[b]));
            }
        }
        Ok(found)
    }

    fn update(&mut self, transfer: Transfer) -> (r: Result<bool, RepositoryError>)
        ensures
            r is Ok,
    {
        proof {
            use_type_invariant(&*self);
        }
        let id = transfer.id();
        let index = match self.position(id) {
            Some(index) => index,
            None => {
                proof {
                    self.lemma_lookup(id);
                }
                return Ok(false);
            },
        };
        proof {
            self.lemma_lookup(id);
            let views = transfers_view(self.transfers@);
            assert(views[index as int] == self.transfers@[index as int]@);
            lemma_keyed_map_update(views, transfer_key(), index as int, transfer@);
            assert(transfers_view(self.transfers@.update(index as int, transfer)) =~= views.update(
                index as int,
                transfer@,
            ));
        }
        let mut taken = InMemoryTransferRepository::new();
        std::mem::swap(self, &mut taken);
        let mut transfers = taken.transfers;
        transfers.set(index, transfer);
        *self = InMemoryTransferRepository { transfers };
        Ok(true)
    }

    fn delete(&mut self, id: TransferId) -> (r: Result<bool, RepositoryError>)
        ensures
            r is Ok,
    {
        proof {
            use_type_invariant(&*self);
        }
        let found = self.position(id).is_some();
        proof {
            self.lemma_lookup(id);
        }
        let mut kept: Vec<Transfer> = Vec::new();
        let ghost views = transfers_view(self.transfers@);
        let mut i: usize = 0;
        while i < self.transfers.len()
            invariant
                i <= self.transfers@.len(),
                views == transfers_view(self.transfers@),
                unique_keys(views, transfer_key()),
                keyed_map(transfers_view(kept@), transfer_key()) == keyed_map(
                    views.subrange(0, i as int),
                    transfer_key(),
                ).remove(id),
                unique_keys(transfers_view(kept@), transfer_key()),
                forall|m: int|
                    0 <= m < kept@.len() ==> exists|j: int|
                        0 <= j < i && (#[trigger] kept@[m])@.id == #[trigger] views[j].id,
            decreases self.transfers@.len() - i,
        {
            let value = self.transfers[i].duplicate();
            proof {
                assert(views[i as int] == self.transfers@[i as int]@);
                assert(views.subrange(0, i + 1) =~= views.subrange(0, i as int).push(value@));
                lemma_keyed_map_remove_step(
                    transfers_view(kept@),
                    views.subrange(0, i as int),
                    value@,
                    transfer_key(),
                    id,
                );
            }
            if value.id() != id {
                proof {
                    let before = transfers_view(kept@);
                    assert forall|m: int| 0 <= m < before.len() implies (transfer_key())(#[trigger] before[m])
                        != value@.id by {
                        assert(before[m] == kept@[m]@);
                        let j = choose|j: int| 0 <= j < i && kept@[m]@.id == #[trigger] views[j].id;
                        assert((transfer_key())(views[j]) != (transfer_key())(views[i as int]));
                    }
                    lemma_keyed_map_contains(before, transfer_key(), value@.id);
                    lemma_unique_keys_push(before, transfer_key(), value@);
                    assert(transfers_view(kept@.push(value)) =~= before.push(value@));
                }
                let ghost old_kept = kept@;
                kept.push(value);
                proof {
                    assert forall|m: int| 0 <= m < kept@.len() implies exists|j: int|
                        0 <= j < i + 1 && (#[trigger] kept@[m])@.id == #[trigger] views[j].id by {
                        if m < old_kept.len() {
                            assert(kept@[m] == old_kept[m]);
                        } else {
                            assert(kept@[m]@.id == views[i as int].id);
                        }
                    }
                }
            }
            i = i + 1;
        }
        proof {
            assert(views.subrange(0, views.len() as int) =~= views);
        }
        *self = InMemoryTransferRepository { transfers: kept };
        Ok(found)
    }
}

pub open spec fn budget_key() -> spec_fn(BudgetView) -> BudgetId {
    |value: BudgetView| value.id
}

pub open spec fn budget_of(account_id: AccountId) -> spec_fn(BudgetView) -> bool {
    |value: BudgetView| value.account_id == account_id
}

/// Budgets kept in memory.
pub struct InMemoryBudgetRepository {
    budgets: Vec<Budget>,
}

impl InMemoryBudgetRepository {
    #[verifier::type_invariant]
    spec fn inv(self) -> bool {
        unique_keys(budgets_view(self.budgets@), budget_key())
    }

    /// An empty repository.
    pub fn new() -> (r: Self)
        ensures
            r.budgets() == Map::<BudgetId, BudgetView>::empty(),
    {
        let r = InMemoryBudgetRepository { budgets: Vec::new() };
        assert(budgets_view(r.budgets@) =~= Seq::<BudgetView>::empty());
        r
    }

    /// The position of the budget stored under an identifier.
    fn position(&self, id: BudgetId) -> (r: Option<usize>)
        ensures
            match r {
                Some(i) => i < self.budgets@.len() && self.budgets@[i as int]@.id == id,
                None => forall|k: int| 0 <= k < self.budgets@.len() ==> (#[trigger] self.budgets@[k])@.id != id,
            },
    {
        let mut i: usize = 0;
        while i < self.budgets.len()
            invariant
                i <= self.budgets@.len(),
                forall|k: int| 0 <= k < i ==> (#[trigger] self.budgets@[k])@.id != id,
            decreases self.budgets@.len() - i,
        {
            if self.budgets[i].id() == id {
                return Some(i);
            }
            i = i + 1;
        }
        None
    }

    /// The position of the budget that covers an account, category and month.
    fn scope_position(&self, account_id: AccountId, category: Category, month: BudgetMonth) -> (r: Option<usize>)
        ensures
            match r {
                Some(i) => i < self.budgets@.len() && has_scope(self.budgets@[i as int]@, account_id, category, month),
                None => forall|k: int|
                    0 <= k < self.budgets@.len() ==> !has_scope(#[trigger] self.budgets@[k]@, account_id, category, month),
            },
    {
        let mut i: usize = 0;
        while i < self.budgets.len()
            invariant
                i <= self.budgets@.len(),
                forall|k: int| 0 <= k < i ==> !has_scope(#[trigger] self.budgets@[k]@, account_id, category, month),
            decreases self.budgets@.len() - i,
        {
            let value = self.budgets[i];
            if value.account_id() == account_id && value.category() == category && value.month() == month {
                return Some(i);
            }
            i = i + 1;
        }
        None
    }

    proof fn lemma_lookup(&self, id: BudgetId)
        requires
            unique_keys(budgets_view(self.budgets@), budget_key()),
        ensures
            forall|k: int| 0 <= k < self.budgets@.len() && (#[trigger] self.budgets@[k])@.id == id
                ==> self.budgets().contains_key(id) && self.budgets()[id] == self.budgets@[k]@,
            (forall|k: int| 0 <= k < self.budgets@.len() ==> (#[trigger] self.budgets@[k])@.id != id)
                ==> !self.budgets().contains_key(id),
    {
        let views = budgets_view(self.budgets@);
        assert forall|k: int| 0 <= k < self.budgets@.len() && (#[trigger] self.budgets@[k])@.id == id
            implies self.budgets().contains_key(id) && self.budgets()[id] == self.budgets@[k]@ by {
            assert(views[k] == self.budgets@[k]@);
            lemma_keyed_map_index(views, budget_key(), k);
        }
        lemma_keyed_map_contains(views, budget_key(), id);
        if (forall|k: int| 0 <= k < self.budgets@.len() ==> (#[trigger] self.budgets@[k])@.id != id) {
            assert forall|k: int| 0 <= k < views.len() implies (budget_key())(#[trigger] views[k]) != id by {
                assert(views[k] == self.budgets@[k]@);
            }
        }
    }
}

impl BudgetRepository for InMemoryBudgetRepository {
    closed spec fn budgets(&self) -> Map<BudgetId, BudgetView> {
        keyed_map(budgets_view(self.budgets@), budget_key())
    }

    fn set(&mut self, budget: NewBudget) -> (r: Result<Budget, RepositoryError>)
        ensures
            match r {
                Ok(stored) => !old(self).budgets().contains_key(stored@.id) ==> is_top_number(
                    old(self).budgets(),
                    budget_number(),
                    stored@.id@ - 1,
                ),
                Err(error) => error == RepositoryError::IdExhausted && is_top_number(
                    old(self).budgets(),
                    budget_number(),
                    u64::MAX as int,
                ) && forall|id: BudgetId| #[trigger]
                    old(self).budgets().contains_key(id) ==> !has_scope(
                        old(self).budgets()[id],
                        budget@.account_id,
                        budget@.category,
                        budget@.month,
                    ),
            },
    {
        proof {
            use_type_invariant(&*self);
        }
        let ghost views = budgets_view(self.budgets@);
        match self.scope_position(budget.account_id(), budget.category(), budget.month()) {
            Some(index) => {
                let existing = self.budgets[index].id();
                let stored = Budget::from_new(existing, budget);
                proof {
                    self.lemma_lookup(existing);
                    assert(views[index as int] == self.budgets@[index as int]@);
                    lemma_keyed_map_update(views, budget_key(), index as int, stored@);
                    assert(budgets_view(self.budgets@.update(index as int, stored)) =~= views.update(
                        index as int,
                        stored@,
                    ));
                }
                let mut taken = InMemoryBudgetRepository::new();
                std::mem::swap(self, &mut taken);
                let mut budgets = taken.budgets;
                budgets.set(index, stored);
                *self = InMemoryBudgetRepository { budgets };
                Ok(stored)
            },
            None => {
                let mut max: u64 = 0;
                let mut i: usize = 0;
                while i < self.budgets.len()
                    invariant
                        i <= self.budgets@.len(),
                        forall|k: int| 0 <= k < i ==> (#[trigger] self.budgets@[k])@.id@ <= max,
                        max == 0 || exists|k: int| 0 <= k < i && (#[trigger] self.budgets@[k])@.id@ == max,
                    decreases self.budgets@.len() - i,
                {
                    let value = self.budgets[i].id().value();
                    if value > max {
                        max = value;
                    }
                    i = i + 1;
                }
                proof {
                    let listed = budgets_view(self.budgets@);
                    assert forall|k: int| 0 <= k < listed.len() implies (budget_number())((budget_key())(#[trigger] listed[k])) <= max by {
                        assert(listed[k] == self.budgets@[k]@);
                    }
                    if max != 0 {
                        let k = choose|k: int| 0 <= k < i && (#[trigger] self.budgets@[k])@.id@ == max;
                        assert(listed[k] == self.budgets@[k]@);
                        assert((budget_number())((budget_key())(listed[k])) == max);
                    }
                    lemma_top_number(listed, budget_key(), budget_number(), max as int);
                    assert forall|id: BudgetId| #[trigger] self.budgets().contains_key(id) implies !has_scope(
                        self.budgets()[id],
                        budget@.account_id,
                        budget@.category,
                        budget@.month,
                    ) by {
                        lemma_keyed_map_contains(views, budget_key(), id);
                        let j = choose|j: int| 0 <= j < views.len() && (budget_key())(#[trigger] views[j]) == id;
                        lemma_keyed_map_index(views, budget_key(), j);
                        assert(views[j] == self.budgets@[j]@);
                    }
                }
                let next = match max.checked_add(1) {
                    Some(next) => next,
                    None => {
                        return Err(RepositoryError::IdExhausted);
                    },
                };
                let stored = Budget::from_new(BudgetId::new(next), budget);
                proof {
                    lemma_keyed_map_contains(views, budget_key(), stored@.id);
                    assert forall|k: int| 0 <= k < views.len() implies (budget_key())(#[trigger] views[k])
                        != stored@.id by {
                        assert(views[k] == self.budgets@[k]@);
                    }
                    lemma_unique_keys_push(views, budget_key(), stored@);
                    assert(budgets_view(self.budgets@.push(stored)) =~= views.push(stored@));
                }
                let mut taken = InMemoryBudgetRepository::new();
                std::mem::swap(self, &mut taken);
                let mut budgets = taken.budgets;
                budgets.push(stored);
                *self = InMemoryBudgetRepository { budgets };
                Ok(stored)
            },
        }
    }

    fn find_by_scope(&self, account_id: AccountId, category: Category, month: BudgetMonth) -> (r: Result<
        Option<Budget>,
        RepositoryError,
    >)
        ensures
            r is Ok,
    {
        proof {
            use_type_invariant(self);
        }
        let ghost views = budgets_view(self.budgets@);
        match self.scope_position(account_id, category, month) {
            Some(index) => {
                let found = self.budgets[index];
                proof {
                    self.lemma_lookup(found@.id);
                }
                Ok(Some(found))
            },
            None => {
                proof {
                    assert forall|id: BudgetId| #[trigger] self.budgets().contains_key(id) implies !has_scope(
                        self.budgets()[id],
                        account_id,
                        category,
                        month,
                    ) by {
                        lemma_keyed_map_contains(views, budget_key(), id);
                        let j = choose|j: int| 0 <= j < views.len() && (budget_key())(#[trigger] views[j]) == id;
                        lemma_keyed_map_index(views, budget_key(), j);
                        assert(views[j] == self.budgets@[j]@);
                    }
                }
                Ok(None)
            },
        }
    }

    fn save(&mut self, budget: Budget) -> (r: Result<(), RepositoryError>)
        ensures
            r is Err <==> old(self).budgets().contains_key(budget@.id),
            r matches Err(error) ==> error == RepositoryError::DuplicateBudgetId(budget@.id),
    {
        proof {
            use_type_invariant(&*self);
        }
        let id = budget.id();
        if let Some(index) = self.position(id) {
            proof {
                self.lemma_lookup(id);
            }
            return Err(RepositoryError::DuplicateBudgetId(id));
        }
        proof {
            let views = budgets_view(self.budgets@);
            self.lemma_lookup(id);
            lemma_unique_keys_push(views, budget_key(), budget@);
            assert(budgets_view(self.budgets@.push(budget)) =~= views.push(budget@));
        }
        let mut taken = InMemoryBudgetRepository::new();
        std::mem::swap(self, &mut taken);
        let mut budgets = taken.budgets;
        budgets.push(budget);
        *self = InMemoryBudgetRepository { budgets };
        Ok(())
    }

    fn find_by_id(&self, id: BudgetId) -> (r: Result<Option<Budget>, RepositoryError>)
        ensures
            r is Ok,
    {
        proof {
            use_type_invariant(self);
            self.lemma_lookup(id);
        }
        match self.position(id) {
            Some(i) => Ok(Some(self.budgets[i].duplicate())),
            None => Ok(None),
        }
    }

    fn find_by_account_id(&self, account_id: AccountId) -> (r: Result<Vec<Budget>, RepositoryError>)
        ensures
            r is Ok,
    {
        proof {
            use_type_invariant(self);
        }
        let ghost views = budgets_view(self.budgets@);
        let ghost keep = budget_of(account_id);
        let mut found: Vec<Budget> = Vec::new();
        let mut i: usize = 0;
        proof {
            assert(budgets_view(found@) =~= Seq::<BudgetView>::empty());
            assert(views.subrange(0, 0) =~= Seq::<BudgetView>::empty());
            assert(keyed_map(Seq::<BudgetView>::empty(), budget_key()) =~= filter_values(
                keyed_map(Seq::<BudgetView>::empty(), budget_key()),
                keep,
            ));
        }
        while i < self.budgets.len()
            invariant
                i <= self.budgets@.len(),
                views == budgets_view(self.budgets@),
                keep == budget_of(account_id),
                unique_keys(views, budget_key()),
                unique_keys(budgets_view(found@), budget_key()),
                keyed_map(budgets_view(found@), budget_key()) == filter_values(
                    keyed_map(views.subrange(0, i as int), budget_key()),
                    keep,
                ),
            decreases self.budgets@.len() - i,
        {
            proof {
                assert(views[i as int] == self.budgets@[i as int]@);
                assert(views.subrange(0, i + 1) =~= views.subrange(0, i as int).push(views[i as int]));
                assert(unique_keys(views.subrange(0, i + 1), budget_key())) by {
                    let sub = views.subrange(0, i + 1);
                    assert forall|a: int, b: int|
                        0 <= a < sub.len() && 0 <= b < sub.len() && a != b implies (budget_key())(
                        #[trigger] sub[a],
                    ) != (budget_key())(#[trigger] sub[b]) by {
                        assert(sub[a] == views[a]);
                        assert(sub[b] == views[b]);
                    }
                }
                lemma_keyed_map_filter_step(
                    budgets_view(found@),
                    views.subrange(0, i as int),
                    views[i as int],
                    budget_key(),
                    keep,
                );
            }
            if self.budgets[i].account_id() == account_id {
                let value = self.budgets[i].duplicate();
                proof {
                    assert(value@ == views[i as int]);
                    assert(keep(views[i as int]));
                    assert(budgets_view(found@.push(value)) =~= budgets_view(found@).push(value@));
                }
                found.push(value);
            } else {
                assert(!keep(views[i as int]));
            }
            i = i + 1;
        }
        proof {
            assert(views.subrange(0, views.len() as int) =~= views);
            let listed = budgets_view(found@);
            lemma_listed_from_filter(listed, self.budgets(), budget_key(), keep);
            assert forall|id: BudgetId| #[trigger]
                self.budgets().contains_key(id) && self.budgets()[id].account_id == account_id implies exists|k: int|
                0 <= k < listed.len() && (#[trigger] listed[k]).id == id by {
                assert(keep(self.budgets()[id]));
                let m = choose|m: int| 0 <= m < listed.len() && (budget_key())(#[trigger] listed[m]) == id;
            }
            assert forall|a: int, b: int|
                0 <= a < listed.len() && 0 <= b < listed.len() && a != b implies (#[trigger] listed[a]).id
                != (#[trigger] listed[b]).id by {
                assert((budget_key())(listed[a]) != (budget_key())(listed[b]));
            }
        }
        Ok(found)
    }

    fn delete(&mut self, id: BudgetId) -> (r: Result<bool, RepositoryError>)
        ensures
            r is Ok,
    {
        proof {
            use_type_invariant(&*self);
        }
        let found = self.position(id).is_some();
        proof {
            self.lemma_lookup(id);
        }
        let mut kept: Vec<Budget> = Vec::new();
        let ghost views = budgets_view(self.budgets@);
        let mut i: usize = 0;
        while i < self.budgets.len()
            invariant
                i <= self.budgets@.len(),
                views == budgets_view(self.budgets@),
                unique_keys(views, budget_key()),
                keyed_map(budgets_view(kept@), budget_key()) == keyed_map(
                    views.subrange(0, i as int),
                    budget_key(),
                ).remove(id),
                unique_keys(budgets_view(kept@), budget_key()),
                forall|m: int|
                    0 <= m < kept@.len() ==> exists|j: int|
                        0 <= j < i && (#[trigger] kept@[m])@.id == #[trigger] views[j].id,
            decreases self.budgets@.len() - i,
        {
            let value = self.budgets[i].duplicate();
            proof {
                assert(views[i as int] == self.budgets@[i as int]@);
                assert(views.subrange(0, i + 1) =~= views.subrange(0, i as int).push(value@));
                lemma_keyed_map_remove_step(
                    budgets_view(kept@),
                    views.subrange(0, i as int),
                    value@,
                    budget_key(),
                    id,
                );
            }
            if value.id() != id {
                proof {
                    let before = budgets_view(kept@);
                    assert forall|m: int| 0 <= m < before.len() implies (budget_key())(#[trigger] before[m])
                        != value@.id by {
                        assert(before[m] == kept@[m]@);
                        let j = choose|j: int| 0 <= j < i && kept@[m]@.id == #[trigger] views[j].id;
                        assert((budget_key())(views[j]) != (budget_key())(views[i as int]));
                    }
                    lemma_keyed_map_contains(before, budget_key(), value@.id);
                    lemma_unique_keys_push(before, budget_key(), value@);
                    assert(budgets_view(kept@.push(value)) =~= before.push(value@));
                }
                let ghost old_kept = kept@;
                kept.push(value);
                proof {
                    assert forall|m: int| 0 <= m < kept@.len() implies exists|j: int|
                        0 <= j < i + 1 && (#[trigger] kept@[m])@.id == #[trigger] views[j].id by {
                        if m < old_kept.len() {
                            assert(kept@[m] == old_kept[m]);
                        } else {
                            assert(kept@[m]@.id == views[i as int].id);
                        }
                    }
                }
            }
            i = i + 1;
        }
        proof {
            assert(views.subrange(0, views.len() as int) =~= views);
        }
        *self = InMemoryBudgetRepository { budgets: kept };
        Ok(found)
    }
}

} // verus!
