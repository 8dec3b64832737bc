use vstd::prelude::*;
use crate::domain::account::{Account, AccountId, AccountView};
use crate::domain::balance::signed_total;
use crate::domain::money::{Currency, Money, MoneyError, MoneyView, money_difference, money_sum, money_result_view};
use crate::domain::transaction::{Category, Transaction, TransactionKind, TransactionView, transactions_view};

verus! {

/// The number of categories.
pub const CATEGORY_COUNT: usize = 14;

/// The position of a category in declaration order.
pub open spec fn category_index(category: Category) -> int {
    match category {
        Category::Food => 0,
        Category::Transportation => 1,
        Category::Entertainment => 2,
        Category::Necessary => 3,
        Category::Health => 4,
        Category::Education => 5,
        Category::Shopping => 6,
        Category::Travel => 7,
        Category::Housing => 8,
        Category::Salary => 9,
        Category::Sale => 10,
        Category::Family => 11,
        Category::Investment => 12,
        Category::Other => 13,
    }
}

/// The category at a position in declaration order.
pub open spec fn category_at(index: int) -> Category {
    if index == 0 {
        Category::Food
    } else if index == 1 {
        Category::Transportation
    } else if index == 2 {
        Category::Entertainment
    } else if index == 3 {
        Category::Necessary
    } else if index == 4 {
        Category::Health
    } else if index == 5 {
        Category::Education
    } else if index == 6 {
        Category::Shopping
    } else if index == 7 {
        Category::Travel
    } else if index == 8 {
        Category::Housing
    } else if index == 9 {
        Category::Salary
    } else if index == 10 {
        Category::Sale
    } else if index == 11 {
        Category::Family
    } else if index == 12 {
        Category::Investment
    } else {
        Category::Other
    }
}

pub proof fn lemma_category_index(category: Category)
    ensures
        0 <= category_index(category) < CATEGORY_COUNT,
        category_at(category_index(category)) == category,
{
}

pub proof fn lemma_category_at(index: int)
    requires
        0 <= index < CATEGORY_COUNT,
    ensures
        category_index(category_at(index)) == index,
{
}

pub(crate) fn index_of_category(category: Category) -> (r: usize)
    ensures
        r as int == category_index(category),
{
    match category {
        Category::Food => 0,
        Category::Transportation => 1,
        Category::Entertainment => 2,
        Category::Necessary => 3,
        Category::Health => 4,
        Category::Education => 5,
        Category::Shopping => 6,
        Category::Travel => 7,
        Category::Housing => 8,
        Category::Salary => 9,
        Category::Sale => 10,
        Category::Family => 11,
        Category::Investment => 12,
        Category::Other => 13,
    }
}

pub(crate) fn category_at_index(index: usize) -> (r: Category)
    requires
        index < CATEGORY_COUNT,
    ensures
        r == category_at(index as int),
{
    if index == 0 {
        Category::Food
    } else if index == 1 {
        Category::Transportation
    } else if index == 2 {
        Category::Entertainment
    } else if index == 3 {
        Category::Necessary
    } else if index == 4 {
        Category::Health
    } else if index == 5 {
        Category::Education
    } else if index == 6 {
        Category::Shopping
    } else if index == 7 {
        Category::Travel
    } else if index == 8 {
        Category::Housing
    } else if index == 9 {
        Category::Salary
    } else if index == 10 {
        Category::Sale
    } else if index == 11 {
        Category::Family
    } else if index == 12 {
        Category::Investment
    } else {
        Category::Other
    }
}

/// A total in minor units for some of the categories.
#[derive(Debug, PartialEq, Eq)]
pub struct CategoryTotals {
    slots: Vec<Option<Money>>,
}

impl View for CategoryTotals {
    type V = Map<Category, MoneyView>;

    closed spec fn view(&self) -> Map<Category, MoneyView> {
        Map::new(
            |category: Category| self.slots@[category_index(category)] is Some,
            |category: Category| self.slots@[category_index(category)]->Some_0@,
        )
    }
}

/// Whether a list of category totals lists exactly the entries of a map, in
/// declaration order of the categories.
pub open spec fn lists_totals(pairs: Seq<(Category, Money)>, totals: Map<Category, MoneyView>) -> bool {
    &&& forall|i: int|
        0 <= i < pairs.len() ==> totals.contains_key((#[trigger] pairs[i]).0) && totals[pairs[i].0]
            == pairs[i].1@
    &&& forall|category: Category|
        #[trigger] totals.contains_key(category) ==> exists|i: int|
            0 <= i < pairs.len() && (#[trigger] pairs[i]).0 == category
    &&& forall|i: int, j: int|
        0 <= i < j < pairs.len() ==> category_index((#[trigger] pairs[i]).0) < category_index(
            (#[trigger] pairs[j]).0,
        )
}

impl CategoryTotals {
    #[verifier::type_invariant]
    spec fn inv(self) -> bool {
        self.slots@.len() == CATEGORY_COUNT
    }

    /// Totals for no category.
    pub fn new() -> (r: Self)
        ensures
            r@ == Map::<Category, MoneyView>::empty(),
    {
        let mut slots: Vec<Option<Money>> = Vec::new();
        let mut i: usize = 0;
        while i < CATEGORY_COUNT
            invariant
                i <= CATEGORY_COUNT,
                slots@.len() == i,
                forall|k: int| 0 <= k < i ==> slots@[k] is None,
            decreases CATEGORY_COUNT - i,
        {
            slots.push(None);
            i = i + 1;
        }
        let r = CategoryTotals { slots };
        proof {
            assert forall|category: Category| !r@.contains_key(category) by {
                lemma_category_index(category);
            }
        }
        assert(r@ =~= Map::<Category, MoneyView>::empty());
        r
    }

    /// The total of a category, where it has one.
    pub fn get(&self, category: Category) -> (r: Option<Money>)
        ensures
            match r {
                Some(amount) => self@.contains_key(category) && self@[category] == amount@,
                None => !self@.contains_key(category),
            },
    {
        proof {
            use_type_invariant(self);
            lemma_category_index(category);
        }
        self.slots[index_of_category(category)]
    }

    /// Sets the total of a category.
    pub fn set(&mut self, category: Category, amount: Money)
        ensures
            final(self)@ == old(self)@.insert(category, amount@),
    {
        proof {
            use_type_invariant(&*self);
            lemma_category_index(category);
        }
        let index = index_of_category(category);
        let mut slots: Vec<Option<Money>> = Vec::new();
        let mut k: usize = 0;
        while k < CATEGORY_COUNT
            invariant
                k <= CATEGORY_COUNT,
                old(self).slots@.len() == CATEGORY_COUNT,
                index < CATEGORY_COUNT,
                slots@.len() == k,
                forall|j: int|
                    0 <= j < k ==> #[trigger] slots@[j] == if j == index {
                        Some(amount)
                    } else {
                        old(self).slots@[j]
                    },
            decreases CATEGORY_COUNT - k,
        {
            if k == index {
                slots.push(Some(amount));
            } else {
                slots.push(self.slots[k]);
            }
            k = k + 1;
        }
        *self = CategoryTotals { slots };
        proof {
            assert forall|other: Category| #[trigger] self@.contains_key(other) == old(
                self,
            )@.insert(category, amount@).contains_key(other) by {
                lemma_category_index(other);
                if other != category {
                    assert(category_index(other) != category_index(category));
                }
            }
            assert forall|other: Category| #[trigger] self@.contains_key(other) implies self@[other]
                == old(self)@.insert(category, amount@)[other] by {
                lemma_category_index(other);
                if other != category {
                    assert(category_index(other) != category_index(category));
                }
            }
        }
        assert(self@ =~= old(self)@.insert(category, amount@));
    }

    /// A copy of these totals.
    pub fn duplicate(&self) -> (r: CategoryTotals)
        ensures
            r@ == self@,
    {
        proof {
            use_type_invariant(self);
        }
        let mut slots: Vec<Option<Money>> = Vec::new();
        let mut k: usize = 0;
        while k < CATEGORY_COUNT
            invariant
                k <= CATEGORY_COUNT,
                self.slots@.len() == CATEGORY_COUNT,
                slots@.len() == k,
                forall|j: int| 0 <= j < k ==> #[trigger] slots@[j] == self.slots@[j],
            decreases CATEGORY_COUNT - k,
        {
            slots.push(self.slots[k]);
            k = k + 1;
        }
        assert(slots@ =~= self.slots@);
        CategoryTotals { slots }
    }

    /// Whether no category has a total.
    pub fn is_empty(&self) -> (r: bool)
        ensures
            r == (self@ == Map::<Category, MoneyView>::empty()),
    {
        proof {
            use_type_invariant(self);
        }
        let mut i: usize = 0;
        while i < CATEGORY_COUNT
            invariant
                i <= CATEGORY_COUNT,
                self.slots@.len() == CATEGORY_COUNT,
                forall|k: int| 0 <= k < i ==> self.slots@[k] is None,
            decreases CATEGORY_COUNT - i,
        {
            if self.slots[i].is_some() {
                proof {
                    lemma_category_at(i as int);
                    assert(self@.contains_key(category_at(i as int)));
                }
                return false;
            }
            i = i + 1;
        }
        proof {
            assert forall|category: Category| !self@.contains_key(category) by {
                lemma_category_index(category);
            }
        }
        assert(self@ =~= Map::<Category, MoneyView>::empty());
        true
    }

    /// The categories that have a total, with their totals, in declaration order.
    pub fn to_pairs(&self) -> (r: Vec<(Category, Money)>)
        ensures
            lists_totals(r@, self@),
    {
        proof {
            use_type_invariant(self);
        }
        let mut pairs: Vec<(Category, Money)> = Vec::new();
        let mut i: usize = 0;
        while i < CATEGORY_COUNT
            invariant
                i <= CATEGORY_COUNT,
                self.slots@.len() == CATEGORY_COUNT,
                forall|k: int|
                    0 <= k < pairs@.len() ==> self@.contains_key((#[trigger] pairs@[k]).0)
                        && self@[pairs@[k].0] == pairs@[k].1@ && category_index(pairs@[k].0) < i,
                forall|c: Category|
                    #[trigger] self@.contains_key(c) && category_index(c) < i ==> exists|k: int|
                        0 <= k < pairs@.len() && (#[trigger] pairs@[k]).0 == c,
                forall|a: int, b: int|
                    0 <= a < b < pairs@.len() ==> category_index((#[trigger] pairs@[a]).0)
                        < category_index((#[trigger] pairs@[b]).0),
            decreases CATEGORY_COUNT - i,
        {
            let category = category_at_index(i);
            proof {
                lemma_category_at(i as int);
            }
            match self.slots[i] {
                Some(amount) => {
                    let ghost before = pairs@;
                    pairs.push((category, amount));
                    proof {
                        assert(pairs@[pairs@.len() - 1] == (category, amount));
                        assert forall|c: Category|
                            #[trigger] self@.contains_key(c) && category_index(c) < i + 1 implies exists|
                            k: int,
                        | 0 <= k < pairs@.len() && (#[trigger] pairs@[k]).0 == c by {
                            lemma_category_index(c);
                            if category_index(c) == i {
                                assert(pairs@[pairs@.len() - 1].0 == c);
                            } else {
                                let k = choose|k: int| 0 <= k < before.len() && (#[trigger] before[k]).0 == c;
                                assert(pairs@[k] == before[k]);
                            }
                        }
                    }
                },
                None => {
                    proof {
                        assert forall|c: Category|
                            #[trigger] self@.contains_key(c) && category_index(c) < i + 1 implies exists|
                            k: int,
                        | 0 <= k < pairs@.len() && (#[trigger] pairs@[k]).0 == c by {
                            lemma_category_index(c);
                        }
                    }
                },
            }
            i = i + 1;
        }
        proof {
            assert forall|c: Category| #[trigger] self@.contains_key(c) implies exists|k: int|
                0 <= k < pairs@.len() && (#[trigger] pairs@[k]).0 == c by {
                lemma_category_index(c);
            }
        }
        pairs
    }
}

impl Clone for CategoryTotals {
    fn clone(&self) -> (r: Self)
        ensures
            r@ == self@,
    {
        self.duplicate()
    }
}

/// Why a category report could not be calculated.
#[derive(Debug, Clone, Copy, PartialEq, Eq, Structural)]
pub enum CategoryReportError {
    CurrencyMismatch { expected: Currency, found: Currency },
    AccountMismatch { expected: AccountId, found: AccountId },
    ArithmeticOverflow,
}

pub open spec fn report_error_of(error: MoneyError) -> CategoryReportError {
    match error {
        MoneyError::CurrencyMismatch { expected, found } => CategoryReportError::CurrencyMismatch {
            expected,
            found,
        },
        MoneyError::ArithmeticOverflow => CategoryReportError::ArithmeticOverflow,
    }
}

impl CategoryReportError {
    pub fn from_money_error(error: MoneyError) -> (r: CategoryReportError)
        ensures
            r == report_error_of(error),
    {
        match error {
            MoneyError::CurrencyMismatch { expected, found } => CategoryReportError::CurrencyMismatch {
                expected,
                found,
            },
            MoneyError::ArithmeticOverflow => CategoryReportError::ArithmeticOverflow,
        }
    }
}

/// The total a category has so far: zero in the account currency when it has none.
pub open spec fn current_total(totals: Map<Category, MoneyView>, category: Category, currency: Currency) -> MoneyView {
    if totals.contains_key(category) {
        totals[category]
    } else {
        MoneyView { minor: 0, currency }
    }
}

/// The category total after one transaction: expenses add, refunds and income subtract.
pub open spec fn apply_to_outflow(total: MoneyView, transaction: TransactionView) -> Result<MoneyView, MoneyError> {
    match transaction.kind {
        TransactionKind::Expense => money_sum(total, transaction.amount),
        TransactionKind::ExpenseRefund => money_difference(total, transaction.amount),
        TransactionKind::Income => money_difference(total, transaction.amount),
    }
}

/// What `calculate_net_outflow_by_category` gives for an account and its transactions.
pub open spec fn outflow_of(account: AccountView, transactions: Seq<TransactionView>) -> Result<
    Map<Category, MoneyView>,
    CategoryReportError,
>
    decreases transactions.len(),
{
    if transactions.len() == 0 {
        Ok(Map::empty())
    } else {
        match outflow_of(account, transactions.drop_last()) {
            Err(error) => Err(error),
            Ok(totals) => {
                let last = transactions.last();
                if last.account_id != account.id {
                    Err(
                        CategoryReportError::AccountMismatch {
                            expected: account.id,
                            found: last.account_id,
                        },
                    )
                } else {
                    match apply_to_outflow(
                        current_total(totals, last.category, account.currency),
                        last,
                    ) {
                        Ok(total) => Ok(totals.insert(last.category, total)),
                        Err(error) => Err(report_error_of(error)),
                    }
                }
            },
        }
    }
}

/// The transactions of a category, in their order.
pub open spec fn of_category(transactions: Seq<TransactionView>, category: Category) -> Seq<TransactionView>
    decreases transactions.len(),
{
    if transactions.len() == 0 {
        Seq::empty()
    } else {
        let rest = of_category(transactions.drop_last(), category);
        if transactions.last().category == category {
            rest.push(transactions.last())
        } else {
            rest
        }
    }
}

/// When a category report succeeds, a category has a total exactly when some
/// transaction is in it, and its total is, in the account currency, its expenses less
/// its refunds and its income.
pub proof fn law_category_outflow_closed_form(account: AccountView, transactions: Seq<TransactionView>)
    requires
        outflow_of(account, transactions) is Ok,
    ensures
        forall|category: Category|
            #![trigger outflow_of(account, transactions)->Ok_0.contains_key(category)]
            #![trigger of_category(transactions, category)]
            (outflow_of(account, transactions)->Ok_0.contains_key(category) <==> of_category(
                transactions,
                category,
            ).len() > 0) && (outflow_of(account, transactions)->Ok_0.contains_key(category)
                ==> outflow_of(account, transactions)->Ok_0[category] == (MoneyView {
                minor: -signed_total(of_category(transactions, category)),
                currency: account.currency,
            })),
    decreases transactions.len(),
{
    if transactions.len() > 0 {
        let rest = transactions.drop_last();
        let last = transactions.last();
        if outflow_of(account, rest) is Err {
            assert(outflow_of(account, transactions) is Err);
        }
        law_category_outflow_closed_form(account, rest);
        let before = outflow_of(account, rest)->Ok_0;
        let after = outflow_of(account, transactions)->Ok_0;
        assert forall|category: Category|
            (after.contains_key(category) <==> of_category(transactions, category).len() > 0) && (
            after.contains_key(category) ==> after[category] == (MoneyView {
                minor: -signed_total(of_category(transactions, category)),
                currency: account.currency,
            })) by {
            assert(before.contains_key(category) <==> of_category(rest, category).len() > 0);
            if category == last.category {
                let listed = of_category(transactions, category);
                assert(listed == of_category(rest, category).push(last));
                assert(listed.drop_last() =~= of_category(rest, category));
                assert(signed_total(listed) == signed_total(of_category(rest, category)) + crate::domain::balance::balance_effect(last));
                if !before.contains_key(category) {
                    assert(of_category(rest, category).len() == 0);
                    assert(signed_total(of_category(rest, category)) == 0);
                }
            }
        }
    }
}

pub open spec fn totals_result_view(r: Result<CategoryTotals, CategoryReportError>) -> Result<
    Map<Category, MoneyView>,
    CategoryReportError,
> {
    match r {
        Ok(totals) => Ok(totals@),
        Err(error) => Err(error),
    }
}

pub proof fn lemma_outflow_error_persists(account: AccountView, transactions: Seq<TransactionView>, k: int)
    requires
        0 <= k <= transactions.len(),
        outflow_of(account, transactions.subrange(0, k)) is Err,
    ensures
        outflow_of(account, transactions) == outflow_of(account, transactions.subrange(0, k)),
    decreases transactions.len(),
{
    if k == transactions.len() {
        assert(transactions.subrange(0, k) =~= transactions);
    } else {
        let rest = transactions.drop_last();
        assert(rest.subrange(0, k) =~= transactions.subrange(0, k));
        lemma_outflow_error_persists(account, rest, k);
    }
}

/// A successful report only covers transactions of the account.
pub proof fn lemma_outflow_accounts_match(account: AccountView, transactions: Seq<TransactionView>)
    requires
        outflow_of(account, transactions) is Ok,
    ensures
        forall|i: int| 0 <= i < transactions.len() ==> (#[trigger] transactions[i]).account_id == account.id,
    decreases transactions.len(),
{
    if transactions.len() > 0 {
        let rest = transactions.drop_last();
        lemma_outflow_accounts_match(account, rest);
        assert forall|i: int| 0 <= i < transactions.len() implies (#[trigger] transactions[i]).account_id
            == account.id by {
            if i < rest.len() {
                assert(rest[i] == transactions[i]);
            }
        }
    }
}

/// Calculates the signed net outflow of each category that has transactions.
pub fn calculate_net_outflow_by_category(account: &Account, transactions: &[Transaction]) -> (r: Result<
    CategoryTotals,
    CategoryReportError,
>)
    ensures
        totals_result_view(r) == outflow_of(account@, transactions_view(transactions@)),
{
    let mut totals = CategoryTotals::new();
    let mut i: usize = 0;
    while i < transactions.len()
        invariant
            i <= transactions@.len(),
            outflow_of(account@, transactions_view(transactions@.subrange(0, i as int))) == Ok::<
                Map<Category, MoneyView>,
                CategoryReportError,
            >(totals@),
        decreases transactions@.len() - i,
    {
        let transaction = &transactions[i];
        let ghost prefix = transactions_view(transactions@.subrange(0, i + 1));
        assert(prefix.drop_last() =~= transactions_view(transactions@.subrange(0, i as int)));
        assert(prefix.last() == transaction@);
        if transaction.account_id() != account.id() {
            proof {
                assert(transactions_view(transactions@).subrange(0, i + 1) =~= prefix);
                lemma_outflow_error_persists(account@, transactions_view(transactions@), i + 1);
            }
            return Err(
                CategoryReportError::AccountMismatch {
                    expected: account.id(),
                    found: transaction.account_id(),
                },
            );
        }
        let category = transaction.category();
        let current = match totals.get(category) {
            Some(total) => total,
            None => Money::from_minor_units(0, account.currency()),
        };
        let next = match transaction.kind() {
            TransactionKind::Expense => current.add(transaction.amount()),
            TransactionKind::ExpenseRefund => current.sub(transaction.amount()),
            TransactionKind::Income => current.sub(transaction.amount()),
        };
        match next {
            Ok(total) => {
                totals.set(category, total);
            },
            Err(error) => {
                proof {
                    assert(transactions_view(transactions@).subrange(0, i + 1) =~= prefix);
                    lemma_outflow_error_persists(account@, transactions_view(transactions@), i + 1);
                }
                return Err(CategoryReportError::from_money_error(error));
            },
        }
        i = i + 1;
    }
    assert(transactions@.subrange(0, transactions@.len() as int) =~= transactions@);
    Ok(totals)
}

/// The minor units a category holds in a map of totals, zero when it has none.
pub open spec fn category_value(totals: Map<Category, MoneyView>, category: Category) -> int {
    if totals.contains_key(category) {
        totals[category].minor
    } else {
        0
    }
}

/// The sum of the totals of the first `count` categories in declaration order.
pub open spec fn partial_category_sum(totals: Map<Category, MoneyView>, count: int) -> int
    decreases count,
{
    if count <= 0 {
        0
    } else {
        partial_category_sum(totals, count - 1) + category_value(totals, category_at(count - 1))
    }
}

/// The sum of the totals of all categories.
pub open spec fn category_sum(totals: Map<Category, MoneyView>) -> int {
    partial_category_sum(totals, CATEGORY_COUNT as int)
}

proof fn lemma_partial_sum_insert(totals: Map<Category, MoneyView>, category: Category, value: MoneyView, count: int)
    requires
        0 <= count <= CATEGORY_COUNT,
    ensures
        partial_category_sum(totals.insert(category, value), count) == partial_category_sum(totals, count)
            + if category_index(category) < count {
            value.minor - category_value(totals, category)
        } else {
            0
        },
    decreases count,
{
    if count > 0 {
        lemma_partial_sum_insert(totals, category, value, count - 1);
        lemma_category_at(count - 1);
        lemma_category_index(category);
    }
}

/// Setting one category's total changes the sum of all totals by the difference.
pub proof fn lemma_category_sum_insert(totals: Map<Category, MoneyView>, category: Category, value: MoneyView)
    ensures
        category_sum(totals.insert(category, value)) == category_sum(totals) + value.minor
            - category_value(totals, category),
{
    lemma_category_index(category);
    lemma_partial_sum_insert(totals, category, value, CATEGORY_COUNT as int);
}

/// The category net outflows of a successful report add up to the negated signed
/// total of the transactions: money spent minus money received.
pub proof fn lemma_outflow_sum_is_negated_signed_total(account: AccountView, transactions: Seq<TransactionView>)
    requires
        outflow_of(account, transactions) is Ok,
    ensures
        category_sum(outflow_of(account, transactions)->Ok_0) == -signed_total(transactions),
    decreases transactions.len(),
{
    if transactions.len() == 0 {
        let empty = Map::<Category, MoneyView>::empty();
        assert forall|count: int| 0 <= count <= CATEGORY_COUNT implies partial_category_sum(empty, count) == 0 by {
            lemma_partial_zero(empty, count);
        }
    } else {
        let rest = transactions.drop_last();
        lemma_outflow_sum_is_negated_signed_total(account, rest);
        let totals = outflow_of(account, rest)->Ok_0;
        let last = transactions.last();
        let current = current_total(totals, last.category, account.currency);
        let next = apply_to_outflow(current, last)->Ok_0;
        lemma_category_sum_insert(totals, last.category, next);
    }
}

proof fn lemma_partial_zero(totals: Map<Category, MoneyView>, count: int)
    requires
        totals == Map::<Category, MoneyView>::empty(),
        0 <= count <= CATEGORY_COUNT,
    ensures
        partial_category_sum(totals, count) == 0,
    decreases count,
{
    if count > 0 {
        lemma_partial_zero(totals, count - 1);
    }
}

} // verus!
