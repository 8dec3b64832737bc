use vstd::prelude::*;
use crate::domain::account::{Account, AccountId, AccountView};
use crate::domain::balance::{balance_effect, balance_of, lemma_balance_is_signed_total, signed_total};
use crate::domain::category_report::{
    CategoryReportError, CategoryTotals, calculate_net_outflow_by_category, category_sum,
    lemma_outflow_accounts_match, lemma_outflow_sum_is_negated_signed_total, outflow_of,
};
use crate::domain::money::{Currency, Money, MoneyError, MoneyView, money_difference, money_sum, money_result_view};
use crate::domain::transaction::{Category, Transaction, TransactionKind, TransactionView, transactions_view};

verus! {

/// Total income, net expenses after refunds, and their difference.
#[derive(Debug, Clone, Copy, PartialEq, Eq)]
pub struct CashFlowSummary {
    income_total: Money,
    net_expense_total: Money,
    net_change: Money,
}

pub struct CashFlowView {
    pub income_total: MoneyView,
    pub net_expense_total: MoneyView,
    pub net_change: MoneyView,
}

impl View for CashFlowSummary {
    type V = CashFlowView;

    closed spec fn view(&self) -> CashFlowView {
        CashFlowView {
            income_total: self.income_total@,
            net_expense_total: self.net_expense_total@,
            net_change: self.net_change@,
        }
    }
}

/// Why a summary could not be calculated.
#[derive(Debug, Clone, Copy, PartialEq, Eq, Structural)]
pub enum SummaryError {
    AccountMismatch { expected: AccountId, found: AccountId },
    CurrencyMismatch { expected: Currency, found: Currency },
    ArithmeticOverflow,
}

pub open spec fn summary_error_of_money(error: MoneyError) -> SummaryError {
    match error {
        MoneyError::CurrencyMismatch { expected, found } => SummaryError::CurrencyMismatch {
            expected,
            found,
        },
        MoneyError::ArithmeticOverflow => SummaryError::ArithmeticOverflow,
    }
}

pub open spec fn summary_error_of_report(error: CategoryReportError) -> SummaryError {
    match error {
        CategoryReportError::CurrencyMismatch { expected, found } => SummaryError::CurrencyMismatch {
            expected,
            found,
        },
        CategoryReportError::AccountMismatch { expected, found } => SummaryError::AccountMismatch {
            expected,
            found,
        },
        CategoryReportError::ArithmeticOverflow => SummaryError::ArithmeticOverflow,
    }
}

impl SummaryError {
    pub fn from_money_error(error: MoneyError) -> (r: SummaryError)
        ensures
            r == summary_error_of_money(error),
    {
        match error {
            MoneyError::CurrencyMismatch { expected, found } => SummaryError::CurrencyMismatch {
                expected,
                found,
            },
            MoneyError::ArithmeticOverflow => SummaryError::ArithmeticOverflow,
        }
    }

    pub fn from_report_error(error: CategoryReportError) -> (r: SummaryError)
        ensures
            r == summary_error_of_report(error),
    {
        match error {
            CategoryReportError::CurrencyMismatch { expected, found } => SummaryError::CurrencyMismatch {
                expected,
                found,
            },
            CategoryReportError::AccountMismatch { expected, found } => SummaryError::AccountMismatch {
                expected,
                found,
            },
            CategoryReportError::ArithmeticOverflow => SummaryError::ArithmeticOverflow,
        }
    }
}

/// What `CashFlowSummary::new` gives: the net change is income minus net expenses.
pub open spec fn cash_flow_outcome(income_total: MoneyView, net_expense_total: MoneyView) -> Result<
    CashFlowView,
    SummaryError,
> {
    match money_difference(income_total, net_expense_total) {
        Ok(net_change) => Ok(CashFlowView { income_total, net_expense_total, net_change }),
        Err(error) => Err(summary_error_of_money(error)),
    }
}

impl CashFlowSummary {
    pub fn new(income_total: Money, net_expense_total: Money) -> (r: Result<Self, SummaryError>)
        ensures
            match r {
                Ok(summary) => cash_flow_outcome(income_total@, net_expense_total@) == Ok::<
                    CashFlowView,
                    SummaryError,
                >(summary@),
                Err(error) => cash_flow_outcome(income_total@, net_expense_total@) == Err::<
                    CashFlowView,
                    SummaryError,
                >(error),
            },
    {
        match income_total.sub(&net_expense_total) {
            Ok(net_change) => Ok(Self { income_total, net_expense_total, net_change }),
            Err(error) => Err(SummaryError::from_money_error(error)),
        }
    }
}

/// Cash-flow totals together with the signed net outflow of each category.
#[derive(Debug, Clone, PartialEq, Eq)]
pub struct SummaryReport {
    summary: CashFlowSummary,
    net_outflow_by_category: CategoryTotals,
}

pub struct SummaryReportView {
    pub income_total: MoneyView,
    pub net_expense_total: MoneyView,
    pub net_change: MoneyView,
    pub net_outflow_by_category: Map<Category, MoneyView>,
}

impl View for SummaryReport {
    type V = SummaryReportView;

    closed spec fn view(&self) -> SummaryReportView {
        SummaryReportView {
            income_total: self.summary.income_total@,
            net_expense_total: self.summary.net_expense_total@,
            net_change: self.summary.net_change@,
            net_outflow_by_category: self.net_outflow_by_category@,
        }
    }
}

impl SummaryReport {
    pub fn new(summary: CashFlowSummary, net_outflow_by_category: CategoryTotals) -> (r: Self)
        ensures
            r@ == (SummaryReportView {
                income_total: summary@.income_total,
                net_expense_total: summary@.net_expense_total,
                net_change: summary@.net_change,
                net_outflow_by_category: net_outflow_by_category@,
            }),
    {
        Self { summary, net_outflow_by_category }
    }

    pub fn income_total(&self) -> (r: &Money)
        ensures
            r@ == self@.income_total,
    {
        &self.summary.income_total
    }

    pub fn net_expense_total(&self) -> (r: &Money)
        ensures
            r@ == self@.net_expense_total,
    {
        &self.summary.net_expense_total
    }

    pub fn net_change(&self) -> (r: &Money)
        ensures
            r@ == self@.net_change,
    {
        &self.summary.net_change
    }

    pub fn net_outflow_by_category(&self) -> (r: &CategoryTotals)
        ensures
            r@ == self@.net_outflow_by_category,
    {
        &self.net_outflow_by_category
    }

    /// A copy of this report.
    pub fn duplicate(&self) -> (r: SummaryReport)
        ensures
            r@ == self@,
    {
        SummaryReport {
            summary: self.summary,
            net_outflow_by_category: self.net_outflow_by_category.duplicate(),
        }
    }
}

/// Income and net expense totals after one more transaction.
pub open spec fn apply_to_totals(totals: (MoneyView, MoneyView), transaction: TransactionView) -> Result<
    (MoneyView, MoneyView),
    MoneyError,
> {
    match transaction.kind {
        TransactionKind::Income => match money_sum(totals.0, transaction.amount) {
            Ok(income) => Ok((income, totals.1)),
            Err(error) => Err(error),
        },
        TransactionKind::Expense => match money_sum(totals.1, transaction.amount) {
            Ok(expense) => Ok((totals.0, expense)),
            Err(error) => Err(error),
        },
        TransactionKind::ExpenseRefund => match money_difference(totals.1, transaction.amount) {
            Ok(expense) => Ok((totals.0, expense)),
            Err(error) => Err(error),
        },
    }
}

/// The income and net expense totals of the transactions, in order.
pub open spec fn cash_totals_of(account: AccountView, transactions: Seq<TransactionView>) -> Result<
    (MoneyView, MoneyView),
    SummaryError,
>
    decreases transactions.len(),
{
    if transactions.len() == 0 {
        Ok(
            (
                MoneyView { minor: 0, currency: account.currency },
                MoneyView { minor: 0, currency: account.currency },
            ),
        )
    } else {
        match cash_totals_of(account, transactions.drop_last()) {
            Err(error) => Err(error),
            Ok(totals) => {
                let last = transactions.last();
                if last.account_id != account.id {
                    Err(SummaryError::AccountMismatch { expected: account.id, found: last.account_id })
                } else if last.amount.currency != account.currency {
                    Err(
                        SummaryError::CurrencyMismatch {
                            expected: account.currency,
                            found: last.amount.currency,
                        },
                    )
                } else {
                    match apply_to_totals(totals, last) {
                        Ok(next) => Ok(next),
                        Err(error) => Err(summary_error_of_money(error)),
                    }
                }
            },
        }
    }
}

/// What `calculate_summary` gives for an account and its transactions.
pub open spec fn summary_of(account: AccountView, transactions: Seq<TransactionView>) -> Result<
    SummaryReportView,
    SummaryError,
> {
    match outflow_of(account, transactions) {
        Err(error) => Err(summary_error_of_report(error)),
        Ok(categories) => match cash_totals_of(account, transactions) {
            Err(error) => Err(error),
            Ok(totals) => match cash_flow_outcome(totals.0, totals.1) {
                Err(error) => Err(error),
                Ok(flow) => Ok(
                    SummaryReportView {
                        income_total: flow.income_total,
                        net_expense_total: flow.net_expense_total,
                        net_change: flow.net_change,
                        net_outflow_by_category: categories,
                    },
                ),
            },
        },
    }
}

pub open spec fn summary_result_view(r: Result<SummaryReport, SummaryError>) -> Result<
    SummaryReportView,
    SummaryError,
> {
    match r {
        Ok(report) => Ok(report@),
        Err(error) => Err(error),
    }
}

pub proof fn lemma_cash_totals_error_persists(account: AccountView, transactions: Seq<TransactionView>, k: int)
    requires
        0 <= k <= transactions.len(),
        cash_totals_of(account, transactions.subrange(0, k)) is Err,
    ensures
        cash_totals_of(account, transactions) == cash_totals_of(account, transactions.subrange(0, k)),
    decreases transactions.len(),
{
    if k == transactions.len() {
        assert(transactions.subrange(0, k) =~= transactions);
    } else {
        let rest = transactions.drop_last();
        assert(rest.subrange(0, k) =~= transactions.subrange(0, k));
        lemma_cash_totals_error_persists(account, rest, k);
    }
}

fn apply_totals(income: &Money, expense: &Money, transaction: &Transaction) -> (r: Result<
    (Money, Money),
    MoneyError,
>)
    ensures
        match r {
            Ok(next) => apply_to_totals((income@, expense@), transaction@) == Ok::<
                (MoneyView, MoneyView),
                MoneyError,
            >((next.0@, next.1@)),
            Err(error) => apply_to_totals((income@, expense@), transaction@) == Err::<
                (MoneyView, MoneyView),
                MoneyError,
            >(error),
        },
{
    match transaction.kind() {
        TransactionKind::Income => match income.add(transaction.amount()) {
            Ok(next) => Ok((next, *expense)),
            Err(error) => Err(error),
        },
        TransactionKind::Expense => match expense.add(transaction.amount()) {
            Ok(next) => Ok((*income, next)),
            Err(error) => Err(error),
        },
        TransactionKind::ExpenseRefund => match expense.sub(transaction.amount()) {
            Ok(next) => Ok((*income, next)),
            Err(error) => Err(error),
        },
    }
}

/// Calculates income, net expense, net change and category net outflow of the
/// transactions of one account.
pub fn calculate_summary(account: &Account, transactions: &[Transaction]) -> (r: Result<
    SummaryReport,
    SummaryError,
>)
    ensures
        summary_result_view(r) == summary_of(account@, transactions_view(transactions@)),
{
    let categories = match calculate_net_outflow_by_category(account, transactions) {
        Ok(categories) => categories,
        Err(error) => {
            return Err(SummaryError::from_report_error(error));
        },
    };
    let mut income = Money::from_minor_units(0, account.currency());
    let mut expense = Money::from_minor_units(0, account.currency());
    proof {
        lemma_outflow_accounts_match(account@, transactions_view(transactions@));
    }
    let mut i: usize = 0;
    while i < transactions.len()
        invariant
            i <= transactions@.len(),
            outflow_of(account@, transactions_view(transactions@)) == Ok::<
                Map<Category, MoneyView>,
                CategoryReportError,
            >(categories@),
            forall|k: int|
                0 <= k < transactions@.len() ==> (#[trigger] transactions_view(transactions@)[k]).account_id
                    == account@.id,
            cash_totals_of(account@, transactions_view(transactions@.subrange(0, i as int))) == Ok::<
                (MoneyView, MoneyView),
                SummaryError,
            >((income@, expense@)),
        decreases transactions@.len() - i,
    {
        let transaction = &transactions[i];
        let ghost prefix = transactions_view(transactions@.subrange(0, i + 1));
        assert(prefix.drop_last() =~= transactions_view(transactions@.subrange(0, i as int)));
        assert(prefix.last() == transaction@);
        if transaction.account_id() != account.id() {
            proof {
                assert(transactions_view(transactions@)[i as int] == transaction@);
            }
            return Err(
                SummaryError::AccountMismatch { expected: account.id(), found: transaction.account_id() },
            );
        }
        if transaction.amount().currency() != account.currency() {
            proof {
                assert(transactions_view(transactions@).subrange(0, i + 1) =~= prefix);
                lemma_cash_totals_error_persists(account@, transactions_view(transactions@), i + 1);
            }
            return Err(
                SummaryError::CurrencyMismatch {
                    expected: account.currency(),
                    found: transaction.amount().currency(),
                },
            );
        }
        match apply_totals(&income, &expense, transaction) {
            Ok(next) => {
                income = next.0;
                expense = next.1;
            },
            Err(error) => {
                proof {
                    assert(transactions_view(transactions@).subrange(0, i + 1) =~= prefix);
                    lemma_cash_totals_error_persists(account@, transactions_view(transactions@), i + 1);
                }
                return Err(SummaryError::from_money_error(error));
            },
        }
        i = i + 1;
    }
    assert(transactions@.subrange(0, transactions@.len() as int) =~= transactions@);
    let summary = CashFlowSummary::new(income, expense)?;
    Ok(SummaryReport::new(summary, categories))
}

/// The income total counts income amounts; the net expense total counts expenses minus
/// refunds.
pub open spec fn income_sum(transactions: Seq<TransactionView>) -> int
    decreases transactions.len(),
{
    if transactions.len() == 0 {
        0
    } else {
        income_sum(transactions.drop_last()) + match transactions.last().kind {
            TransactionKind::Income => transactions.last().amount.minor,
            _ => 0,
        }
    }
}

pub open spec fn net_expense_sum(transactions: Seq<TransactionView>) -> int
    decreases transactions.len(),
{
    if transactions.len() == 0 {
        0
    } else {
        net_expense_sum(transactions.drop_last()) + match transactions.last().kind {
            TransactionKind::Expense => transactions.last().amount.minor,
            TransactionKind::ExpenseRefund => -transactions.last().amount.minor,
            TransactionKind::Income => 0,
        }
    }
}

proof fn lemma_cash_totals_are_sums(account: AccountView, transactions: Seq<TransactionView>)
    requires
        cash_totals_of(account, transactions) is Ok,
    ensures
        cash_totals_of(account, transactions)->Ok_0.0.minor == income_sum(transactions),
        cash_totals_of(account, transactions)->Ok_0.1.minor == net_expense_sum(transactions),
        signed_total(transactions) == income_sum(transactions) - net_expense_sum(transactions),
    decreases transactions.len(),
{
    if transactions.len() > 0 {
        lemma_cash_totals_are_sums(account, transactions.drop_last());
    }
}

/// Law: the net change of a summary equals the balance calculated from the same
/// transactions, whenever both calculations succeed.
pub proof fn law_net_change_equals_balance(account: AccountView, transactions: Seq<TransactionView>)
    requires
        summary_of(account, transactions) is Ok,
        balance_of(account, transactions) is Ok,
    ensures
        summary_of(account, transactions)->Ok_0.net_change == balance_of(account, transactions)->Ok_0,
{
    lemma_cash_totals_are_sums(account, transactions);
    lemma_balance_is_signed_total(account, transactions);
}

/// Law: in a successful summary, the category net outflows add up to the net expense
/// total minus the income total, so that every transaction is counted in exactly one
/// category.
pub proof fn law_category_outflows_add_up(account: AccountView, transactions: Seq<TransactionView>)
    requires
        summary_of(account, transactions) is Ok,
    ensures
        category_sum(summary_of(account, transactions)->Ok_0.net_outflow_by_category) == summary_of(
            account,
            transactions,
        )->Ok_0.net_expense_total.minor - summary_of(account, transactions)->Ok_0.income_total.minor,
{
    lemma_cash_totals_are_sums(account, transactions);
    lemma_outflow_sum_is_negated_signed_total(account, transactions);
}

} // verus!
