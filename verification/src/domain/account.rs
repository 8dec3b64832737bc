use vstd::prelude::*;
use crate::domain::money::{Currency, currency_code};
use crate::domain::time::{ZonedTime, ZonedTimeView};
use crate::text::{trim, trimmed};

verus! {

/// Identifies an account.
#[derive(Debug, Clone, Copy, PartialEq, Eq, Structural)]
pub struct AccountId(u64);

impl View for AccountId {
    type V = u64;

    closed spec fn view(&self) -> u64 {
        self.0
    }
}

impl AccountId {
    /// The identifier with a given value.
    pub closed spec fn from_value(value: u64) -> AccountId {
        AccountId(value)
    }

    /// The identifier made from a value holds that value.
    pub broadcast proof fn lemma_from_value(value: u64)
        ensures
            #[trigger] AccountId::from_value(value)@ == value,
    {
    }

    pub fn new(id: u64) -> (r: Self)
        ensures
            r@ == id,
            r == AccountId::from_value(id),
    {
        AccountId(id)
    }

    pub fn value(&self) -> (r: u64)
        ensures
            r == self@,
    {
        self.0
    }

    /// Two identifiers are equal exactly when their values are.
    pub proof fn lemma_view_injective(a: AccountId, b: AccountId)
        ensures
            (a@ == b@) == (a == b),
    {
    }
}

/// Why an account could not be built.
#[derive(Debug, Clone, Copy, PartialEq, Eq, Structural)]
pub enum AccountError {
    EmptyName,
    AdjustmentCurrencyMismatch,
}

/// An account that the repository has not stored yet: a name and one currency.
#[derive(Debug, PartialEq, Eq)]
pub struct NewAccount {
    name: String,
    currency: Currency,
}

pub struct NewAccountView {
    pub name: Seq<char>,
    pub currency: Currency,
}

impl View for NewAccount {
    type V = NewAccountView;

    closed spec fn view(&self) -> NewAccountView {
        NewAccountView { name: self.name@, currency: self.currency }
    }
}

/// What `NewAccount::new` gives for a raw name.
pub open spec fn new_account_outcome(name: Seq<char>, currency: Currency) -> Result<
    NewAccountView,
    AccountError,
> {
    if trimmed(name).len() == 0 {
        Err(AccountError::EmptyName)
    } else {
        Ok(NewAccountView { name: trimmed(name), currency })
    }
}

impl NewAccount {
    #[verifier::type_invariant]
    spec fn inv(self) -> bool {
        self.name@.len() > 0
    }

    pub fn new(name: String, currency: Currency) -> (r: Result<Self, AccountError>)
        ensures
            match r {
                Ok(account) => new_account_outcome(name@, currency) == Ok::<
                    NewAccountView,
                    AccountError,
                >(account@),
                Err(error) => new_account_outcome(name@, currency) == Err::<
                    NewAccountView,
                    AccountError,
                >(error),
            },
    {
        let name = trim(name.as_str());
        if name.as_str().is_empty() {
            return Err(AccountError::EmptyName);
        }
        Ok(NewAccount { name, currency })
    }

    pub fn name(&self) -> (r: &str)
        ensures
            r@ == self@.name,
            r@.len() > 0,
    {
        proof {
            use_type_invariant(self);
        }
        self.name.as_str()
    }

    pub fn currency(&self) -> (r: Currency)
        ensures
            r == self@.currency,
    {
        self.currency
    }
}

/// Whether an adjustment sets an opening balance or reconciles a later one.
#[derive(Debug, Clone, Copy, PartialEq, Eq, Structural)]
pub enum BalanceAdjustmentKind {
    Opening,
    Reconciliation,
}

/// An explicit balance correction, never a transaction or report cash flow.
#[derive(Debug, PartialEq, Eq)]
pub struct BalanceAdjustment {
    pub amount_minor: i64,
    pub currency: String,
    pub occurred_at: ZonedTime,
    pub description: String,
    pub kind: BalanceAdjustmentKind,
}

pub struct BalanceAdjustmentView {
    pub amount_minor: i64,
    pub currency: Seq<char>,
    pub occurred_at: ZonedTimeView,
    pub description: Seq<char>,
    pub kind: BalanceAdjustmentKind,
}

impl View for BalanceAdjustment {
    type V = BalanceAdjustmentView;

    open spec fn view(&self) -> BalanceAdjustmentView {
        BalanceAdjustmentView {
            amount_minor: self.amount_minor,
            currency: self.currency@,
            occurred_at: self.occurred_at@,
            description: self.description@,
            kind: self.kind,
        }
    }
}

impl Clone for BalanceAdjustment {
    fn clone(&self) -> (r: Self)
        ensures
            r@ == self@,
    {
        BalanceAdjustment {
            amount_minor: self.amount_minor,
            currency: self.currency.clone(),
            occurred_at: self.occurred_at.duplicate(),
            description: self.description.clone(),
            kind: self.kind,
        }
    }
}

pub open spec fn adjustments_view(values: Seq<BalanceAdjustment>) -> Seq<BalanceAdjustmentView> {
    values.map_values(|value: BalanceAdjustment| value@)
}

/// Whether every adjustment is recorded in the given currency.
pub open spec fn adjustments_in(values: Seq<BalanceAdjustmentView>, currency: Currency) -> bool {
    forall|i: int| 0 <= i < values.len() ==> (#[trigger] values[i]).currency == currency_code(currency)
}

/// A copy of a list of adjustments.
pub fn copy_adjustments(values: &[BalanceAdjustment]) -> (r: Vec<BalanceAdjustment>)
    ensures
        adjustments_view(r@) == adjustments_view(values@),
{
    let mut copy: Vec<BalanceAdjustment> = Vec::new();
    let mut i: usize = 0;
    while i < values.len()
        invariant
            i <= values@.len(),
            copy@.len() == i,
            adjustments_view(copy@) == adjustments_view(values@.subrange(0, i as int)),
        decreases values@.len() - i,
    {
        let value = values[i].clone();
        assert(value@ == values@[i as int]@);
        let ghost before = copy@;
        copy.push(value);
        i = i + 1;
        assert(copy@.len() == i);
        assert(adjustments_view(copy@).len() == i);
        assert(values@.subrange(0, i as int).len() == i);
        assert forall|k: int| 0 <= k < i implies #[trigger] adjustments_view(copy@)[k]
            == adjustments_view(values@.subrange(0, i as int))[k] by {
            if k < i - 1 {
                assert(adjustments_view(before)[k] == adjustments_view(
                    values@.subrange(0, i - 1),
                )[k]);
            }
        }
        assert(adjustments_view(copy@) =~= adjustments_view(values@.subrange(0, i as int)));
    }
    assert(values@.subrange(0, values@.len() as int) =~= values@);
    copy
}

/// A stored account.
#[derive(Debug, PartialEq, Eq)]
pub struct Account {
    id: AccountId,
    adjustments: Vec<BalanceAdjustment>,
    name: String,
    currency: Currency,
}

pub struct AccountView {
    pub id: AccountId,
    pub name: Seq<char>,
    pub currency: Currency,
    pub adjustments: Seq<BalanceAdjustmentView>,
}

impl View for Account {
    type V = AccountView;

    closed spec fn view(&self) -> AccountView {
        AccountView {
            id: self.id,
            name: self.name@,
            currency: self.currency,
            adjustments: adjustments_view(self.adjustments@),
        }
    }
}

impl AccountView {
    /// The account that `Account::from_new` builds.
    pub open spec fn from_new(id: AccountId, account: NewAccountView) -> AccountView {
        AccountView {
            id,
            name: account.name,
            currency: account.currency,
            adjustments: Seq::empty(),
        }
    }

    pub open spec fn valid(self) -> bool {
        &&& self.name.len() > 0
        &&& adjustments_in(self.adjustments, self.currency)
    }
}

impl Account {
    #[verifier::type_invariant]
    spec fn inv(self) -> bool {
        self@.valid()
    }

    pub fn new(id: AccountId, name: String, currency: Currency) -> (r: Result<Self, AccountError>)
        ensures
            match r {
                Ok(account) => match new_account_outcome(name@, currency) {
                    Ok(value) => account@ == AccountView::from_new(id, value),
                    Err(_) => false,
                },
                Err(error) => new_account_outcome(name@, currency) == Err::<
                    NewAccountView,
                    AccountError,
                >(error),
            },
    {
        let account = NewAccount::new(name, currency)?;
        Ok(Self::from_new(id, account))
    }

    pub fn from_new(id: AccountId, account: NewAccount) -> (r: Self)
        ensures
            r@ == AccountView::from_new(id, account@),
    {
        proof {
            use_type_invariant(&account);
        }
        let r = Account { id, adjustments: Vec::new(), name: account.name, currency: account.currency };
        assert(r@.adjustments =~= Seq::<BalanceAdjustmentView>::empty());
        r
    }

    pub fn adjustments(&self) -> (r: &[BalanceAdjustment])
        ensures
            adjustments_view(r@) == self@.adjustments,
    {
        self.adjustments.as_slice()
    }

    /// Replaces the adjustments when every one of them is in the account currency.
    pub fn with_adjustments(self, adjustments: Vec<BalanceAdjustment>) -> (r: Result<Self, AccountError>)
        ensures
            match r {
                Ok(account) => adjustments_in(adjustments_view(adjustments@), self@.currency)
                    && account@ == (AccountView {
                    adjustments: adjustments_view(adjustments@),
                    ..self@
                }),
                Err(error) => error == AccountError::AdjustmentCurrencyMismatch && !adjustments_in(
                    adjustments_view(adjustments@),
                    self@.currency,
                ),
            },
    {
        proof {
            use_type_invariant(&self);
        }
        let code = self.currency.code();
        let mut i: usize = 0;
        while i < adjustments.len()
            invariant
                i <= adjustments@.len(),
                code@ == currency_code(self.currency),
                forall|k: int| 0 <= k < i ==> (#[trigger] adjustments@[k])@.currency == code@,
            decreases adjustments@.len() - i,
        {
            if !crate::text::same_text(adjustments[i].currency.as_str(), code) {
                proof {
                    let views = adjustments_view(adjustments@);
                    assert(views[i as int].currency != currency_code(self@.currency));
                }
                return Err(AccountError::AdjustmentCurrencyMismatch);
            }
            i = i + 1;
        }
        let r = Account { id: self.id, adjustments, name: self.name, currency: self.currency };
        proof {
            let views = adjustments_view(adjustments@);
            assert forall|k: int| 0 <= k < views.len() implies (#[trigger] views[k]).currency
                == currency_code(self@.currency) by {
                assert(views[k] == adjustments@[k]@);
            }
        }
        Ok(r)
    }

    pub fn id(&self) -> (r: AccountId)
        ensures
            r == self@.id,
            self@.valid(),
    {
        proof {
            use_type_invariant(self);
        }
        self.id
    }

    pub fn name(&self) -> (r: &str)
        ensures
            r@ == self@.name,
    {
        self.name.as_str()
    }

    pub fn currency(&self) -> (r: Currency)
        ensures
            r == self@.currency,
    {
        self.currency
    }

    /// A copy of this account.
    pub fn duplicate(&self) -> (r: Account)
        ensures
            r@ == self@,
    {
        proof {
            use_type_invariant(self);
        }
        Account {
            id: self.id,
            adjustments: copy_adjustments(self.adjustments.as_slice()),
            name: self.name.clone(),
            currency: self.currency,
        }
    }
}

impl Clone for Account {
    fn clone(&self) -> (r: Self)
        ensures
            r@ == self@,
    {
        self.duplicate()
    }
}

/// How an `AccountError` is written in messages, as its `Debug` form.
pub open spec fn account_error_text(error: AccountError) -> Seq<char> {
    match error {
        AccountError::EmptyName => "EmptyName"@,
        AccountError::AdjustmentCurrencyMismatch => "AdjustmentCurrencyMismatch"@,
    }
}

impl AccountError {
    /// This error's name, as its `Debug` form writes it.
    pub fn debug_text(&self) -> (r: &'static str)
        ensures
            r@ == account_error_text(*self),
    {
        match self {
            AccountError::EmptyName => "EmptyName",
            AccountError::AdjustmentCurrencyMismatch => "AdjustmentCurrencyMismatch",
        }
    }
}

} // verus!
