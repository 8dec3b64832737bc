use vstd::prelude::*;
use crate::decimal::{decimal_text, i64_text, signed_decimal_text, u64_text};
use crate::text::text_chars;
use crate::domain::account::AccountId;
use crate::domain::money::{Money, MoneyView};
use crate::domain::transaction::Category;

verus! {

/// Identifies a budget.
#[derive(Debug, Clone, Copy, PartialEq, Eq, Structural)]
pub struct BudgetId(u64);

impl View for BudgetId {
    type V = u64;

    closed spec fn view(&self) -> u64 {
        self.0
    }
}

impl BudgetId {
    /// The identifier with a given value.
    pub closed spec fn from_value(value: u64) -> BudgetId {
        BudgetId(value)
    }

    /// The identifier made from a value holds that value.
    pub broadcast proof fn lemma_from_value(value: u64)
        ensures
            #[trigger] BudgetId::from_value(value)@ == value,
    {
    }

    pub fn new(value: u64) -> (r: Self)
        ensures
            r@ == value,
            r == BudgetId::from_value(value),
    {
        Self(value)
    }

    pub fn value(self) -> (r: u64)
        ensures
            r == self@,
    {
        self.0
    }

    /// Two identifiers are equal exactly when their values are.
    pub proof fn lemma_view_injective(a: BudgetId, b: BudgetId)
        ensures
            (a@ == b@) == (a == b),
    {
    }
}

/// Why a budget or a budget month was refused.
#[derive(Debug, Clone, Copy, PartialEq, Eq, Structural)]
pub enum BudgetError {
    InvalidMonth { year: i32, month: u8 },
    InvalidLimit,
}

pub struct BudgetMonthView {
    pub year: int,
    pub month: int,
}

/// Whether a year and month name a calendar month that budgets accept.
pub open spec fn valid_month(year: int, month: int) -> bool {
    1 <= year <= 9999 && 1 <= month <= 12
}

/// The number of months from January of year 0 to the month.
pub open spec fn month_index(month: BudgetMonthView) -> int {
    month.year * 12 + month.month - 1
}

/// A calendar month between 0001-01 and 9999-12.
#[derive(Debug, Clone, Copy, PartialEq, Eq, Structural, Hash, PartialOrd, Ord)]
pub struct BudgetMonth {
    year: i32,
    month: u8,
}

impl View for BudgetMonth {
    type V = BudgetMonthView;

    closed spec fn view(&self) -> BudgetMonthView {
        BudgetMonthView { year: self.year as int, month: self.month as int }
    }
}

impl BudgetMonth {
    #[verifier::type_invariant]
    spec fn inv(self) -> bool {
        valid_month(self.year as int, self.month as int)
    }

    /// The month with a given year and month number.
    pub closed spec fn from_parts(year: i32, month: u8) -> BudgetMonth {
        BudgetMonth { year, month }
    }

    /// The month made from a year and a month number holds them.
    pub broadcast proof fn lemma_from_parts(year: i32, month: u8)
        ensures
            #[trigger] BudgetMonth::from_parts(year, month)@ == (BudgetMonthView {
                year: year as int,
                month: month as int,
            }),
    {
    }

    pub fn new(year: i32, month: u8) -> (r: Result<Self, BudgetError>)
        ensures
            match r {
                Ok(value) => valid_month(year as int, month as int) && value@ == (BudgetMonthView {
                    year: year as int,
                    month: month as int,
                }) && value == BudgetMonth::from_parts(year, month),
                Err(error) => !valid_month(year as int, month as int) && error
                    == (BudgetError::InvalidMonth { year, month }),
            },
    {
        if !(1 <= year && year <= 9999) || !(1 <= month && month <= 12) {
            return Err(BudgetError::InvalidMonth { year, month });
        }
        Ok(Self { year, month })
    }

    pub fn year(self) -> (r: i32)
        ensures
            r as int == self@.year,
            valid_month(self@.year, self@.month),
    {
        proof {
            use_type_invariant(self);
        }
        self.year
    }

    pub fn month(self) -> (r: u8)
        ensures
            r as int == self@.month,
            valid_month(self@.year, self@.month),
    {
        proof {
            use_type_invariant(self);
        }
        self.month
    }

    /// Whether this month comes strictly after `other`.
    pub fn is_after(self, other: BudgetMonth) -> (r: bool)
        ensures
            r == (month_index(self@) > month_index(other@)),
    {
        proof {
            use_type_invariant(self);
            use_type_invariant(other);
        }
        self.year > other.year || (self.year == other.year && self.month > other.month)
    }

    /// Two months are equal exactly when their years and months are.
    pub proof fn lemma_view_injective(a: BudgetMonth, b: BudgetMonth)
        requires
            valid_month(a@.year, a@.month),
            valid_month(b@.year, b@.month),
        ensures
            (a@ == b@) == (a == b),
            (month_index(a@) == month_index(b@)) == (a == b),
    {
    }
}

pub struct NewBudgetView {
    pub account_id: AccountId,
    pub category: Category,
    pub month: BudgetMonth,
    pub limit: MoneyView,
}

pub struct BudgetView {
    pub id: BudgetId,
    pub account_id: AccountId,
    pub category: Category,
    pub month: BudgetMonth,
    pub limit: MoneyView,
}

impl BudgetView {
    pub open spec fn from_new(id: BudgetId, value: NewBudgetView) -> BudgetView {
        BudgetView {
            id,
            account_id: value.account_id,
            category: value.category,
            month: value.month,
            limit: value.limit,
        }
    }

    pub open spec fn contents(self) -> NewBudgetView {
        NewBudgetView {
            account_id: self.account_id,
            category: self.category,
            month: self.month,
            limit: self.limit,
        }
    }
}

/// What `NewBudget::new` gives: limits must be positive.
pub open spec fn new_budget_outcome(
    account_id: AccountId,
    category: Category,
    month: BudgetMonth,
    limit: MoneyView,
) -> Result<NewBudgetView, BudgetError> {
    if limit.minor <= 0 {
        Err(BudgetError::InvalidLimit)
    } else {
        Ok(NewBudgetView { account_id, category, month, limit })
    }
}

/// A monthly category budget that the repository has not stored yet.
#[derive(Debug, Clone, Copy, PartialEq, Eq)]
pub struct NewBudget {
    account_id: AccountId,
    category: Category,
    month: BudgetMonth,
    limit: Money,
}

impl View for NewBudget {
    type V = NewBudgetView;

    closed spec fn view(&self) -> NewBudgetView {
        NewBudgetView {
            account_id: self.account_id,
            category: self.category,
            month: self.month,
            limit: self.limit@,
        }
    }
}

pub open spec fn new_budget_result_view(r: Result<NewBudget, BudgetError>) -> Result<
    NewBudgetView,
    BudgetError,
> {
    match r {
        Ok(value) => Ok(value@),
        Err(error) => Err(error),
    }
}

impl NewBudget {
    #[verifier::type_invariant]
    spec fn inv(self) -> bool {
        self.limit@.minor > 0
    }

    pub fn new(account_id: AccountId, category: Category, month: BudgetMonth, limit: Money) -> (r:
        Result<Self, BudgetError>)
        ensures
            new_budget_result_view(r) == new_budget_outcome(account_id, category, month, limit@),
    {
        if limit.minor_units() <= 0 {
            return Err(BudgetError::InvalidLimit);
        }
        Ok(Self { account_id, category, month, limit })
    }

    pub fn account_id(&self) -> (r: AccountId)
        ensures
            r == self@.account_id,
            self@.limit.minor > 0,
    {
        proof {
            use_type_invariant(self);
        }
        self.account_id
    }

    pub fn category(&self) -> (r: Category)
        ensures
            r == self@.category,
    {
        self.category
    }

    pub fn month(&self) -> (r: BudgetMonth)
        ensures
            r == self@.month,
    {
        self.month
    }

    pub fn limit(&self) -> (r: &Money)
        ensures
            r@ == self@.limit,
    {
        &self.limit
    }

    /// A copy of this budget.
    pub fn duplicate(&self) -> (r: NewBudget)
        ensures
            r@ == self@,
    {
        proof {
            use_type_invariant(self);
        }
        NewBudget {
            account_id: self.account_id,
            category: self.category,
            month: self.month,
            limit: self.limit,
        }
    }
}

/// A stored monthly category budget.
#[derive(Debug, Clone, Copy, PartialEq, Eq)]
pub struct Budget {
    id: BudgetId,
    account_id: AccountId,
    category: Category,
    month: BudgetMonth,
    limit: Money,
}

impl View for Budget {
    type V = BudgetView;

    closed spec fn view(&self) -> BudgetView {
        BudgetView {
            id: self.id,
            account_id: self.account_id,
            category: self.category,
            month: self.month,
            limit: self.limit@,
        }
    }
}

pub open spec fn budget_result_view(r: Result<Budget, BudgetError>) -> Result<BudgetView, BudgetError> {
    match r {
        Ok(value) => Ok(value@),
        Err(error) => Err(error),
    }
}

/// The views of a list of budgets.
pub open spec fn budgets_view(values: Seq<Budget>) -> Seq<BudgetView> {
    values.map_values(|value: Budget| value@)
}

impl Budget {
    #[verifier::type_invariant]
    spec fn inv(self) -> bool {
        self.limit@.minor > 0
    }

    pub fn new(
        id: BudgetId,
        account_id: AccountId,
        category: Category,
        month: BudgetMonth,
        limit: Money,
    ) -> (r: Result<Self, BudgetError>)
        ensures
            budget_result_view(r) == match new_budget_outcome(account_id, category, month, limit@) {
                Ok(value) => Ok(BudgetView::from_new(id, value)),
                Err(error) => Err(error),
            },
    {
        let value = NewBudget::new(account_id, category, month, limit)?;
        Ok(Self::from_new(id, value))
    }

    pub fn from_new(id: BudgetId, budget: NewBudget) -> (r: Self)
        ensures
            r@ == BudgetView::from_new(id, budget@),
    {
        proof {
            use_type_invariant(&budget);
        }
        Self {
            id,
            account_id: budget.account_id,
            category: budget.category,
            month: budget.month,
            limit: budget.limit,
        }
    }

    pub fn id(&self) -> (r: BudgetId)
        ensures
            r == self@.id,
            self@.limit.minor > 0,
    {
        proof {
            use_type_invariant(self);
        }
        self.id
    }

    pub fn account_id(&self) -> (r: AccountId)
        ensures
            r == self@.account_id,
    {
        self.account_id
    }

    pub fn category(&self) -> (r: Category)
        ensures
            r == self@.category,
    {
        self.category
    }

    pub fn month(&self) -> (r: BudgetMonth)
        ensures
            r == self@.month,
    {
        self.month
    }

    pub fn limit(&self) -> (r: &Money)
        ensures
            r@ == self@.limit,
    {
        &self.limit
    }

    /// A copy of this budget.
    pub fn duplicate(&self) -> (r: Budget)
        ensures
            r@ == self@,
    {
        proof {
            use_type_invariant(self);
        }
        Budget {
            id: self.id,
            account_id: self.account_id,
            category: self.category,
            month: self.month,
            limit: self.limit,
        }
    }
}

/// How a `BudgetError` is written in messages, as its `Debug` form.
pub open spec fn budget_error_text(error: BudgetError) -> Seq<char> {
    match error {
        BudgetError::InvalidMonth { year, month } => "InvalidMonth { year: "@ + signed_decimal_text(
            year as int,
        ) + ", month: "@ + decimal_text(month as nat) + " }"@,
        BudgetError::InvalidLimit => "InvalidLimit"@,
    }
}

impl BudgetError {
    /// This error as its `Debug` form writes it.
    pub fn debug_text(&self) -> (r: Vec<char>)
        ensures
            r@ == budget_error_text(*self),
    {
        match self {
            BudgetError::InvalidMonth { year, month } => {
                let mut out = text_chars("InvalidMonth { year: ");
                let mut year_text = i64_text(*year as i64);
                out.append(&mut year_text);
                let mut middle = text_chars(", month: ");
                out.append(&mut middle);
                let mut month_text = u64_text(*month as u64);
                out.append(&mut month_text);
                let mut end = text_chars(" }");
                out.append(&mut end);
                out
            },
            BudgetError::InvalidLimit => text_chars("InvalidLimit"),
        }
    }
}

} // verus!
