use vstd::prelude::*;
use crate::domain::account::AccountId;
use crate::domain::money::{Money, MoneyView};
use crate::domain::time::{ZonedTime, ZonedTimeView};
use crate::text::{trim, trimmed};

verus! {

/// Identifies a transaction.
#[derive(Debug, Clone, Copy, PartialEq, Eq, Structural)]
pub struct TransactionId(u64);

impl View for TransactionId {
    type V = u64;

    closed spec fn view(&self) -> u64 {
        self.0
    }
}

impl TransactionId {
    /// The identifier with a given value.
    pub closed spec fn from_value(value: u64) -> TransactionId {
        TransactionId(value)
    }

    /// The identifier made from a value holds that value.
    pub broadcast proof fn lemma_from_value(value: u64)
        ensures
            #[trigger] TransactionId::from_value(value)@ == value,
    {
    }

    pub fn new(id: u64) -> (r: Self)
        ensures
            r@ == id,
            r == TransactionId::from_value(id),
    {
        TransactionId(id)
    }

    pub fn value(&self) -> (r: u64)
        ensures
            r == self@,
    {
        self.0
    }

    /// Two identifiers are equal exactly when their values are.
    pub proof fn lemma_view_injective(a: TransactionId, b: TransactionId)
        ensures
            (a@ == b@) == (a == b),
    {
    }
}

/// How a transaction moves money.
#[derive(Debug, Clone, Copy, PartialEq, Eq, Structural, Hash)]
pub enum TransactionKind {
    Income,
    Expense,
    ExpenseRefund,
}

/// The fixed purpose or source of a transaction.
#[derive(Debug, Clone, Copy, PartialEq, Eq, Structural, Hash)]
pub enum Category {
    Food,
    Transportation,
    Entertainment,
    Necessary,
    Health,
    Education,
    Shopping,
    Travel,
    Housing,
    Salary,
    Sale,
    Family,
    Investment,
    Other,
}

/// The position of a category's name in alphabetical order of the names.
pub open spec fn category_name_rank(category: Category) -> int {
    match category {
        Category::Education => 0,
        Category::Entertainment => 1,
        Category::Family => 2,
        Category::Food => 3,
        Category::Health => 4,
        Category::Housing => 5,
        Category::Investment => 6,
        Category::Necessary => 7,
        Category::Other => 8,
        Category::Salary => 9,
        Category::Sale => 10,
        Category::Shopping => 11,
        Category::Transportation => 12,
        Category::Travel => 13,
    }
}

impl Category {
    /// The position of this category's name in alphabetical order, which is the order
    /// in which reports list categories.
    pub fn name_rank(self) -> (r: u8)
        ensures
            r as int == category_name_rank(self),
    {
        match self {
            Category::Education => 0,
            Category::Entertainment => 1,
            Category::Family => 2,
            Category::Food => 3,
            Category::Health => 4,
            Category::Housing => 5,
            Category::Investment => 6,
            Category::Necessary => 7,
            Category::Other => 8,
            Category::Salary => 9,
            Category::Sale => 10,
            Category::Shopping => 11,
            Category::Transportation => 12,
            Category::Travel => 13,
        }
    }
}

/// Why a transaction was refused.
#[derive(Debug, Clone, Copy, PartialEq, Eq, Structural)]
pub enum TransactionError {
    InvalidAmount,
    EmptyDescription,
}

pub struct NewTransactionView {
    pub account_id: AccountId,
    pub kind: TransactionKind,
    pub amount: MoneyView,
    pub occurred_at: ZonedTimeView,
    pub description: Seq<char>,
    pub category: Category,
}

pub struct TransactionView {
    pub id: TransactionId,
    pub account_id: AccountId,
    pub kind: TransactionKind,
    pub amount: MoneyView,
    pub occurred_at: ZonedTimeView,
    pub description: Seq<char>,
    pub category: Category,
}

/// What `NewTransaction::new` gives: amounts must be positive and descriptions, once
/// trimmed, non-empty.
pub open spec fn new_transaction_outcome(
    account_id: AccountId,
    kind: TransactionKind,
    amount: MoneyView,
    occurred_at: ZonedTimeView,
    description: Seq<char>,
    category: Category,
) -> Result<NewTransactionView, TransactionError> {
    if amount.minor <= 0 {
        Err(TransactionError::InvalidAmount)
    } else if trimmed(description).len() == 0 {
        Err(TransactionError::EmptyDescription)
    } else {
        Ok(
            NewTransactionView {
                account_id,
                kind,
                amount,
                occurred_at,
                description: trimmed(description),
                category,
            },
        )
    }
}

impl TransactionView {
    pub open spec fn from_new(id: TransactionId, value: NewTransactionView) -> TransactionView {
        TransactionView {
            id,
            account_id: value.account_id,
            kind: value.kind,
            amount: value.amount,
            occurred_at: value.occurred_at,
            description: value.description,
            category: value.category,
        }
    }

    /// The fields other than the identifier.
    pub open spec fn contents(self) -> NewTransactionView {
        NewTransactionView {
            account_id: self.account_id,
            kind: self.kind,
            amount: self.amount,
            occurred_at: self.occurred_at,
            description: self.description,
            category: self.category,
        }
    }

    pub open spec fn valid(self) -> bool {
        self.amount.minor > 0 && self.description.len() > 0
    }
}

impl NewTransactionView {
    pub open spec fn valid(self) -> bool {
        self.amount.minor > 0 && self.description.len() > 0
    }
}

/// A validated transaction that the repository has not stored yet.
#[derive(Debug, PartialEq, Eq)]
pub struct NewTransaction {
    account_id: AccountId,
    kind: TransactionKind,
    amount: Money,
    occurred_at: ZonedTime,
    description: String,
    category: Category,
}

impl View for NewTransaction {
    type V = NewTransactionView;

    closed spec fn view(&self) -> NewTransactionView {
        NewTransactionView {
            account_id: self.account_id,
            kind: self.kind,
            amount: self.amount@,
            occurred_at: self.occurred_at@,
            description: self.description@,
            category: self.category,
        }
    }
}

pub open spec fn new_transaction_result_view(r: Result<NewTransaction, TransactionError>) -> Result<
    NewTransactionView,
    TransactionError,
> {
    match r {
        Ok(value) => Ok(value@),
        Err(error) => Err(error),
    }
}

impl NewTransaction {
    #[verifier::type_invariant]
    spec fn inv(self) -> bool {
        self@.valid()
    }

    pub fn new(
        account_id: AccountId,
        kind: TransactionKind,
        amount: Money,
        occurred_at: ZonedTime,
        description: String,
        category: Category,
    ) -> (r: Result<Self, TransactionError>)
        ensures
            new_transaction_result_view(r) == new_transaction_outcome(
                account_id,
                kind,
                amount@,
                occurred_at@,
                description@,
                category,
            ),
    {
        if amount.minor_units() <= 0 {
            return Err(TransactionError::InvalidAmount);
        }
        let description = trim(description.as_str());
        if description.as_str().is_empty() {
            return Err(TransactionError::EmptyDescription);
        }
        Ok(NewTransaction { account_id, kind, amount, occurred_at, description, category })
    }

    pub fn account_id(&self) -> (r: AccountId)
        ensures
            r == self@.account_id,
            self@.valid(),
    {
        proof {
            use_type_invariant(self);
        }
        self.account_id
    }

    pub fn amount(&self) -> (r: &Money)
        ensures
            r@ == self@.amount,
    {
        &self.amount
    }

    pub fn kind(&self) -> (r: TransactionKind)
        ensures
            r == self@.kind,
    {
        self.kind
    }

    pub fn occurred_at(&self) -> (r: &ZonedTime)
        ensures
            r@ == self@.occurred_at,
    {
        &self.occurred_at
    }

    pub fn description(&self) -> (r: &str)
        ensures
            r@ == self@.description,
    {
        self.description.as_str()
    }

    pub fn category(&self) -> (r: Category)
        ensures
            r == self@.category,
    {
        self.category
    }

    /// A copy of this transaction.
    pub fn duplicate(&self) -> (r: NewTransaction)
        ensures
            r@ == self@,
    {
        proof {
            use_type_invariant(self);
        }
        NewTransaction {
            account_id: self.account_id,
            kind: self.kind,
            amount: self.amount,
            occurred_at: self.occurred_at.duplicate(),
            description: self.description.clone(),
            category: self.category,
        }
    }
}

impl Clone for NewTransaction {
    fn clone(&self) -> (r: Self)
        ensures
            r@ == self@,
    {
        self.duplicate()
    }
}

/// A stored transaction.
#[derive(Debug, PartialEq, Eq)]
pub struct Transaction {
    id: TransactionId,
    account_id: AccountId,
    kind: TransactionKind,
    amount: Money,
    occurred_at: ZonedTime,
    description: String,
    category: Category,
}

impl View for Transaction {
    type V = TransactionView;

    closed spec fn view(&self) -> TransactionView {
        TransactionView {
            id: self.id,
            account_id: self.account_id,
            kind: self.kind,
            amount: self.amount@,
            occurred_at: self.occurred_at@,
            description: self.description@,
            category: self.category,
        }
    }
}

pub open spec fn transaction_result_view(r: Result<Transaction, TransactionError>) -> Result<
    TransactionView,
    TransactionError,
> {
    match r {
        Ok(value) => Ok(value@),
        Err(error) => Err(error),
    }
}

/// The views of a list of transactions.
pub open spec fn transactions_view(values: Seq<Transaction>) -> Seq<TransactionView> {
    values.map_values(|value: Transaction| value@)
}

impl Transaction {
    #[verifier::type_invariant]
    spec fn inv(self) -> bool {
        self@.valid()
    }

    pub fn new(
        id: TransactionId,
        account_id: AccountId,
        kind: TransactionKind,
        amount: Money,
        occurred_at: ZonedTime,
        description: String,
        category: Category,
    ) -> (r: Result<Self, TransactionError>)
        ensures
            transaction_result_view(r) == match new_transaction_outcome(
                account_id,
                kind,
                amount@,
                occurred_at@,
                description@,
                category,
            ) {
                Ok(value) => Ok(TransactionView::from_new(id, value)),
                Err(error) => Err(error),
            },
    {
        let value = NewTransaction::new(account_id, kind, amount, occurred_at, description, category)?;
        Ok(Self::from_new(id, value))
    }

    pub fn from_new(id: TransactionId, transaction: NewTransaction) -> (r: Self)
        ensures
            r@ == TransactionView::from_new(id, transaction@),
    {
        proof {
            use_type_invariant(&transaction);
        }
        Transaction {
            id,
            account_id: transaction.account_id,
            kind: transaction.kind,
            amount: transaction.amount,
            occurred_at: transaction.occurred_at,
            description: transaction.description,
            category: transaction.category,
        }
    }

    pub fn id(&self) -> (r: TransactionId)
        ensures
            r == self@.id,
            self@.valid(),
    {
        proof {
            use_type_invariant(self);
        }
        self.id
    }

    pub fn account_id(&self) -> (r: AccountId)
        ensures
            r == self@.account_id,
    {
        self.account_id
    }

    pub fn kind(&self) -> (r: TransactionKind)
        ensures
            r == self@.kind,
    {
        self.kind
    }

    pub fn amount(&self) -> (r: &Money)
        ensures
            r@ == self@.amount,
            r@.minor > 0,
    {
        proof {
            use_type_invariant(self);
        }
        &self.amount
    }

    pub fn description(&self) -> (r: &str)
        ensures
            r@ == self@.description,
    {
        self.description.as_str()
    }

    pub fn occurred_at(&self) -> (r: &ZonedTime)
        ensures
            r@ == self@.occurred_at,
    {
        &self.occurred_at
    }

    pub fn category(&self) -> (r: Category)
        ensures
            r == self@.category,
    {
        self.category
    }

    /// A copy of this transaction.
    pub fn duplicate(&self) -> (r: Transaction)
        ensures
            r@ == self@,
    {
        proof {
            use_type_invariant(self);
        }
        Transaction {
            id: self.id,
            account_id: self.account_id,
            kind: self.kind,
            amount: self.amount,
            occurred_at: self.occurred_at.duplicate(),
            description: self.description.clone(),
            category: self.category,
        }
    }
}

impl Clone for Transaction {
    fn clone(&self) -> (r: Self)
        ensures
            r@ == self@,
    {
        self.duplicate()
    }
}

/// How an `TransactionError` is written in messages, as its `Debug` form.
pub open spec fn transaction_error_text(error: TransactionError) -> Seq<char> {
    match error {
        TransactionError::InvalidAmount => "InvalidAmount"@,
        TransactionError::EmptyDescription => "EmptyDescription"@,
    }
}

impl TransactionError {
    /// This error's name, as its `Debug` form writes it.
    pub fn debug_text(&self) -> (r: &'static str)
        ensures
            r@ == transaction_error_text(*self),
    {
        match self {
            TransactionError::InvalidAmount => "InvalidAmount",
            TransactionError::EmptyDescription => "EmptyDescription",
        }
    }
}

} // verus!
