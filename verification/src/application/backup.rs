use vstd::prelude::*;
use crate::application::repository::{
    AccountRepository, BudgetRepository, RepositoryError, TransactionRepository, TransferRepository,
    accounts_view, lists_accounts, lists_budgets_of, lists_transactions_of, lists_transfers_of,
};
use crate::codes::{category_code, category_code_text, kind_code, kind_code_text};
use crate::domain::money::currency_code;
use crate::sorting::{IdKeyed, holds_key, sorted_unique_by_id, strictly_increasing};
use crate::codes::{category_from_code, category_named, currency_from_code, currency_named, kind_from_code, kind_named};
use crate::domain::account::{
    Account, AccountError, AccountId, AccountView, account_error_text, new_account_outcome,
};
use crate::domain::budget::{
    Budget, BudgetError, BudgetId, BudgetMonth, BudgetView, budget_error_text, new_budget_outcome,
    budgets_view, valid_month,
};
use crate::domain::money::{Currency, Money, MoneyView};
use crate::domain::time::{TimeReading, ZonedTime, ZonedTimeView, reading_of_text};
use crate::domain::transaction::{
    Category, Transaction, TransactionError, TransactionId, TransactionView, new_transaction_outcome,
    transaction_error_text, transactions_view,
};
use crate::domain::transfer::{
    Transfer, TransferError, TransferId, TransferView, new_transfer_outcome, transfer_error_text,
    transfers_view,
};
use crate::text::string_from_chars;

verus! {

broadcast use {
    AccountId::lemma_from_value,
    TransactionId::lemma_from_value,
    TransferId::lemma_from_value,
    BudgetId::lemma_from_value,
    BudgetMonth::lemma_from_parts,
};

/// The version of the backup format that this library writes and reads.
pub const BACKUP_FORMAT_VERSION: u32 = 1;

/// Why a backup could not be written or read.
#[derive(Debug, PartialEq, Eq)]
pub enum BackupError {
    InvalidJson(String),
    Serialization(String),
    UnknownVersion(u32),
    InvalidId { entity: &'static str, id: u64 },
    DuplicateId { entity: &'static str, id: u64 },
    MissingAccountReference { entity: &'static str, id: u64, account_id: u64 },
    CurrencyMismatch { entity: &'static str, id: u64 },
    DuplicateBudgetScope { account_id: u64, category: Category, month: BudgetMonth },
    InvalidEntity { entity: &'static str, id: u64, message: String },
    Repository(RepositoryError),
}

/// A backup error with its texts read as character sequences.
pub enum BackupErrorView {
    InvalidJson(Seq<char>),
    Serialization(Seq<char>),
    UnknownVersion(u32),
    InvalidId { entity: Seq<char>, id: u64 },
    DuplicateId { entity: Seq<char>, id: u64 },
    MissingAccountReference { entity: Seq<char>, id: u64, account_id: u64 },
    CurrencyMismatch { entity: Seq<char>, id: u64 },
    DuplicateBudgetScope { account_id: u64, category: Category, month: BudgetMonth },
    InvalidEntity { entity: Seq<char>, id: u64, message: Seq<char> },
    Repository(RepositoryError),
}

impl View for BackupError {
    type V = BackupErrorView;

    open spec fn view(&self) -> BackupErrorView {
        match self {
            BackupError::InvalidJson(message) => BackupErrorView::InvalidJson(message@),
            BackupError::Serialization(message) => BackupErrorView::Serialization(message@),
            BackupError::UnknownVersion(version) => BackupErrorView::UnknownVersion(*version),
            BackupError::InvalidId { entity, id } => BackupErrorView::InvalidId {
                entity: entity@,
                id: *id,
            },
            BackupError::DuplicateId { entity, id } => BackupErrorView::DuplicateId {
                entity: entity@,
                id: *id,
            },
            BackupError::MissingAccountReference { entity, id, account_id } =>
                BackupErrorView::MissingAccountReference {
                entity: entity@,
                id: *id,
                account_id: *account_id,
            },
            BackupError::CurrencyMismatch { entity, id } => BackupErrorView::CurrencyMismatch {
                entity: entity@,
                id: *id,
            },
            BackupError::DuplicateBudgetScope { account_id, category, month } =>
                BackupErrorView::DuplicateBudgetScope {
                account_id: *account_id,
                category: *category,
                month: *month,
            },
            BackupError::InvalidEntity { entity, id, message } => BackupErrorView::InvalidEntity {
                entity: entity@,
                id: *id,
                message: message@,
            },
            BackupError::Repository(error) => BackupErrorView::Repository(*error),
        }
    }
}

/// An account as a backup document holds it.
pub struct BackupAccount {
    pub id: u64,
    pub name: String,
    pub currency: String,
}

pub struct BackupAccountView {
    pub id: u64,
    pub name: Seq<char>,
    pub currency: Seq<char>,
}

impl View for BackupAccount {
    type V = BackupAccountView;

    open spec fn view(&self) -> BackupAccountView {
        BackupAccountView { id: self.id, name: self.name@, currency: self.currency@ }
    }
}

/// A transaction as a backup document holds it.
pub struct BackupTransaction {
    pub id: u64,
    pub account_id: u64,
    pub kind: String,
    pub amount_minor: i64,
    pub currency: String,
    pub occurred_at: String,
    pub description: String,
    pub category: String,
}

pub struct BackupTransactionView {
    pub id: u64,
    pub account_id: u64,
    pub kind: Seq<char>,
    pub amount_minor: i64,
    pub currency: Seq<char>,
    pub occurred_at: Seq<char>,
    pub description: Seq<char>,
    pub category: Seq<char>,
}

impl View for BackupTransaction {
    type V = BackupTransactionView;

    open spec fn view(&self) -> BackupTransactionView {
        BackupTransactionView {
            id: self.id,
            account_id: self.account_id,
            kind: self.kind@,
            amount_minor: self.amount_minor,
            currency: self.currency@,
            occurred_at: self.occurred_at@,
            description: self.description@,
            category: self.category@,
        }
    }
}

/// A transfer as a backup document holds it.
pub struct BackupTransfer {
    pub id: u64,
    pub source_account_id: u64,
    pub destination_account_id: u64,
    pub source_amount_minor: i64,
    pub source_currency: String,
    pub destination_amount_minor: i64,
    pub destination_currency: String,
    pub occurred_at: String,
    pub description: String,
}

pub struct BackupTransferView {
    pub id: u64,
    pub source_account_id: u64,
    pub destination_account_id: u64,
    pub source_amount_minor: i64,
    pub source_currency: Seq<char>,
    pub destination_amount_minor: i64,
    pub destination_currency: Seq<char>,
    pub occurred_at: Seq<char>,
    pub description: Seq<char>,
}

impl View for BackupTransfer {
    type V = BackupTransferView;

    open spec fn view(&self) -> BackupTransferView {
        BackupTransferView {
            id: self.id,
            source_account_id: self.source_account_id,
            destination_account_id: self.destination_account_id,
            source_amount_minor: self.source_amount_minor,
            source_currency: self.source_currency@,
            destination_amount_minor: self.destination_amount_minor,
            destination_currency: self.destination_currency@,
            occurred_at: self.occurred_at@,
            description: self.description@,
        }
    }
}

/// A budget as a backup document holds it.
pub struct BackupBudget {
    pub id: u64,
    pub account_id: u64,
    pub category: String,
    pub year: i32,
    pub month: u8,
    pub limit_minor: i64,
    pub currency: String,
}

pub struct BackupBudgetView {
    pub id: u64,
    pub account_id: u64,
    pub category: Seq<char>,
    pub year: i32,
    pub month: u8,
    pub limit_minor: i64,
    pub currency: Seq<char>,
}

impl View for BackupBudget {
    type V = BackupBudgetView;

    open spec fn view(&self) -> BackupBudgetView {
        BackupBudgetView {
            id: self.id,
            account_id: self.account_id,
            category: self.category@,
            year: self.year,
            month: self.month,
            limit_minor: self.limit_minor,
            currency: self.currency@,
        }
    }
}

/// The whole content of a backup, as its document holds it.
pub struct BackupDocument {
    pub format_version: u32,
    pub accounts: Vec<BackupAccount>,
    pub transactions: Vec<BackupTransaction>,
    pub transfers: Vec<BackupTransfer>,
    pub budgets: Vec<BackupBudget>,
}

pub struct BackupDocumentView {
    pub format_version: u32,
    pub accounts: Seq<BackupAccountView>,
    pub transactions: Seq<BackupTransactionView>,
    pub transfers: Seq<BackupTransferView>,
    pub budgets: Seq<BackupBudgetView>,
}

impl View for BackupDocument {
    type V = BackupDocumentView;

    open spec fn view(&self) -> BackupDocumentView {
        BackupDocumentView {
            format_version: self.format_version,
            accounts: self.accounts@.map_values(|value: BackupAccount| value@),
            transactions: self.transactions@.map_values(|value: BackupTransaction| value@),
            transfers: self.transfers@.map_values(|value: BackupTransfer| value@),
            budgets: self.budgets@.map_values(|value: BackupBudget| value@),
        }
    }
}

/// The aggregates of a backup that passed every check, in document order.
#[derive(Debug, PartialEq, Eq)]
pub struct ValidatedBackup {
    accounts: Vec<Account>,
    transactions: Vec<Transaction>,
    transfers: Vec<Transfer>,
    budgets: Vec<Budget>,
}

pub struct ValidatedBackupView {
    pub accounts: Seq<AccountView>,
    pub transactions: Seq<TransactionView>,
    pub transfers: Seq<TransferView>,
    pub budgets: Seq<BudgetView>,
}

impl View for ValidatedBackup {
    type V = ValidatedBackupView;

    closed spec fn view(&self) -> ValidatedBackupView {
        ValidatedBackupView {
            accounts: accounts_view(self.accounts@),
            transactions: transactions_view(self.transactions@),
            transfers: transfers_view(self.transfers@),
            budgets: budgets_view(self.budgets@),
        }
    }
}

impl ValidatedBackup {
    pub fn accounts(&self) -> (r: &[Account])
        ensures
            accounts_view(r@) == self@.accounts,
    {
        self.accounts.as_slice()
    }

    pub fn transactions(&self) -> (r: &[Transaction])
        ensures
            transactions_view(r@) == self@.transactions,
    {
        self.transactions.as_slice()
    }

    pub fn transfers(&self) -> (r: &[Transfer])
        ensures
            transfers_view(r@) == self@.transfers,
    {
        self.transfers.as_slice()
    }

    pub fn budgets(&self) -> (r: &[Budget])
        ensures
            budgets_view(r@) == self@.budgets,
    {
        self.budgets.as_slice()
    }
}

/// The views of a list of timestamp readings.
pub open spec fn readings_view(values: Seq<Result<ZonedTime, String>>) -> Seq<TimeReading> {
    values.map_values(
        |value: Result<ZonedTime, String>|
            match value {
                Ok(time) => Ok(time@),
                Err(message) => Err(message@),
            },
    )
}

/// Whether an identifier can be stored: positive and within `i64`.
pub open spec fn storable_id(id: u64) -> bool {
    0 < id <= i64::MAX
}

/// The currency of the last account in the list with the given identifier.
pub open spec fn account_currency(accounts: Seq<AccountView>, id: u64) -> Option<Currency>
    decreases accounts.len(),
{
    if accounts.len() == 0 {
        None
    } else if accounts.last().id@ == id {
        Some(accounts.last().currency)
    } else {
        account_currency(accounts.drop_last(), id)
    }
}

/// What checking one account entry gives, after the accounts already accepted.
pub open spec fn account_entry(value: BackupAccountView, accepted: Seq<AccountView>) -> Result<
    AccountView,
    BackupErrorView,
> {
    let entity = "account"@;
    if !storable_id(value.id) {
        Err(BackupErrorView::InvalidId { entity, id: value.id })
    } else if account_currency(accepted, value.id) is Some {
        Err(BackupErrorView::DuplicateId { entity, id: value.id })
    } else {
        match currency_named(value.currency) {
            None => Err(
                BackupErrorView::InvalidEntity {
                    entity,
                    id: value.id,
                    message: "unsupported currency"@,
                },
            ),
            Some(currency) => match new_account_outcome(value.name, currency) {
                Err(error) => Err(
                    BackupErrorView::InvalidEntity {
                        entity,
                        id: value.id,
                        message: account_error_text(error),
                    },
                ),
                Ok(account) => Ok(AccountView::from_new(AccountId::from_value(value.id), account)),
            },
        }
    }
}

/// What checking the account entries in order gives.
pub open spec fn accounts_outcome(values: Seq<BackupAccountView>) -> Result<
    Seq<AccountView>,
    BackupErrorView,
>
    decreases values.len(),
{
    if values.len() == 0 {
        Ok(Seq::empty())
    } else {
        match accounts_outcome(values.drop_last()) {
            Err(error) => Err(error),
            Ok(accepted) => match account_entry(values.last(), accepted) {
                Err(error) => Err(error),
                Ok(account) => Ok(accepted.push(account)),
            },
        }
    }
}

/// What checking one transaction entry gives.
pub open spec fn transaction_entry(
    value: BackupTransactionView,
    time: TimeReading,
    accounts: Seq<AccountView>,
    accepted: Seq<TransactionView>,
) -> Result<TransactionView, BackupErrorView> {
    let entity = "transaction"@;
    let id = value.id;
    if !storable_id(id) {
        Err(BackupErrorView::InvalidId { entity, id })
    } else if exists|j: int| 0 <= j < accepted.len() && (#[trigger] accepted[j]).id@ == id {
        Err(BackupErrorView::DuplicateId { entity, id })
    } else {
        match account_currency(accounts, value.account_id) {
            None => Err(
                BackupErrorView::MissingAccountReference { entity, id, account_id: value.account_id },
            ),
            Some(account_currency) => match currency_named(value.currency) {
                None => Err(
                    BackupErrorView::InvalidEntity { entity, id, message: "unsupported currency"@ },
                ),
                Some(currency) => if currency != account_currency {
                    Err(BackupErrorView::CurrencyMismatch { entity, id })
                } else {
                    match time {
                        Err(message) => Err(BackupErrorView::InvalidEntity { entity, id, message }),
                        Ok(occurred_at) => match kind_named(value.kind) {
                            None => Err(
                                BackupErrorView::InvalidEntity {
                                    entity,
                                    id,
                                    message: "unsupported kind"@,
                                },
                            ),
                            Some(kind) => match category_named(value.category) {
                                None => Err(
                                    BackupErrorView::InvalidEntity {
                                        entity,
                                        id,
                                        message: "unsupported category"@,
                                    },
                                ),
                                Some(category) => match new_transaction_outcome(
                                    AccountId::from_value(value.account_id),
                                    kind,
                                    MoneyView { minor: value.amount_minor as int, currency },
                                    occurred_at,
                                    value.description,
                                    category,
                                ) {
                                    Err(error) => Err(
                                        BackupErrorView::InvalidEntity {
                                            entity,
                                            id,
                                            message: transaction_error_text(error),
                                        },
                                    ),
                                    Ok(transaction) => Ok(
                                        TransactionView::from_new(
                                            TransactionId::from_value(id),
                                            transaction,
                                        ),
                                    ),
                                },
                            },
                        },
                    }
                },
            },
        }
    }
}

/// What checking the transaction entries in order gives; entry `i` was read with
/// timestamp reading `times[i]`.
pub open spec fn transactions_outcome(
    values: Seq<BackupTransactionView>,
    times: Seq<TimeReading>,
    accounts: Seq<AccountView>,
) -> Result<Seq<TransactionView>, BackupErrorView>
    decreases values.len(),
{
    if values.len() == 0 {
        Ok(Seq::empty())
    } else {
        match transactions_outcome(values.drop_last(), times, accounts) {
            Err(error) => Err(error),
            Ok(accepted) => match transaction_entry(
                values.last(),
                times[values.len() - 1],
                accounts,
                accepted,
            ) {
                Err(error) => Err(error),
                Ok(transaction) => Ok(accepted.push(transaction)),
            },
        }
    }
}

/// What checking one transfer entry gives.
pub open spec fn transfer_entry(
    value: BackupTransferView,
    time: TimeReading,
    accounts: Seq<AccountView>,
    accepted: Seq<TransferView>,
) -> Result<TransferView, BackupErrorView> {
    let entity = "transfer"@;
    let id = value.id;
    if !storable_id(id) {
        Err(BackupErrorView::InvalidId { entity, id })
    } else if exists|j: int| 0 <= j < accepted.len() && (#[trigger] accepted[j]).id@ == id {
        Err(BackupErrorView::DuplicateId { entity, id })
    } else if account_currency(accounts, value.source_account_id) is None {
        Err(
            BackupErrorView::MissingAccountReference {
                entity: "transfer source"@,
                id,
                account_id: value.source_account_id,
            },
        )
    } else if account_currency(accounts, value.destination_account_id) is None {
        Err(
            BackupErrorView::MissingAccountReference {
                entity: "transfer destination"@,
                id,
                account_id: value.destination_account_id,
            },
        )
    } else {
        match currency_named(value.source_currency) {
            None => Err(
                BackupErrorView::InvalidEntity {
                    entity,
                    id,
                    message: "unsupported source currency"@,
                },
            ),
            Some(source_currency) => match currency_named(value.destination_currency) {
                None => Err(
                    BackupErrorView::InvalidEntity {
                        entity,
                        id,
                        message: "unsupported destination currency"@,
                    },
                ),
                Some(destination_currency) => if Some(source_currency) != account_currency(
                    accounts,
                    value.source_account_id,
                ) || Some(destination_currency) != account_currency(
                    accounts,
                    value.destination_account_id,
                ) {
                    Err(BackupErrorView::CurrencyMismatch { entity, id })
                } else {
                    match time {
                        Err(message) => Err(BackupErrorView::InvalidEntity { entity, id, message }),
                        Ok(occurred_at) => match new_transfer_outcome(
                            AccountId::from_value(value.source_account_id),
                            AccountId::from_value(value.destination_account_id),
                            MoneyView {
                                minor: value.source_amount_minor as int,
                                currency: source_currency,
                            },
                            MoneyView {
                                minor: value.destination_amount_minor as int,
                                currency: destination_currency,
                            },
                            occurred_at,
                            value.description,
                        ) {
                            Err(error) => Err(
                                BackupErrorView::InvalidEntity {
                                    entity,
                                    id,
                                    message: transfer_error_text(error),
                                },
                            ),
                            Ok(transfer) => Ok(
                                TransferView::from_new(TransferId::from_value(id), transfer),
                            ),
                        },
                    }
                },
            },
        }
    }
}

/// What checking the transfer entries in order gives; entry `i` was read with
/// timestamp reading `times[i]`.
pub open spec fn transfers_outcome(
    values: Seq<BackupTransferView>,
    times: Seq<TimeReading>,
    accounts: Seq<AccountView>,
) -> Result<Seq<TransferView>, BackupErrorView>
    decreases values.len(),
{
    if values.len() == 0 {
        Ok(Seq::empty())
    } else {
        match transfers_outcome(values.drop_last(), times, accounts) {
            Err(error) => Err(error),
            Ok(accepted) => match transfer_entry(
                values.last(),
                times[values.len() - 1],
                accounts,
                accepted,
            ) {
                Err(error) => Err(error),
                Ok(transfer) => Ok(accepted.push(transfer)),
            },
        }
    }
}

/// What checking one budget entry gives.
pub open spec fn budget_entry(
    value: BackupBudgetView,
    accounts: Seq<AccountView>,
    accepted: Seq<BudgetView>,
) -> Result<BudgetView, BackupErrorView> {
    let entity = "budget"@;
    let id = value.id;
    if !storable_id(id) {
        Err(BackupErrorView::InvalidId { entity, id })
    } else if exists|j: int| 0 <= j < accepted.len() && (#[trigger] accepted[j]).id@ == id {
        Err(BackupErrorView::DuplicateId { entity, id })
    } else {
        match account_currency(accounts, value.account_id) {
            None => Err(
                BackupErrorView::MissingAccountReference { entity, id, account_id: value.account_id },
            ),
            Some(account_currency) => match currency_named(value.currency) {
                None => Err(
                    BackupErrorView::InvalidEntity { entity, id, message: "unsupported currency"@ },
                ),
                Some(currency) => if currency != account_currency {
                    Err(BackupErrorView::CurrencyMismatch { entity, id })
                } else {
                    match category_named(value.category) {
                        None => Err(
                            BackupErrorView::InvalidEntity {
                                entity,
                                id,
                                message: "unsupported category"@,
                            },
                        ),
                        Some(category) => if !valid_month(value.year as int, value.month as int) {
                            Err(
                                BackupErrorView::InvalidEntity {
                                    entity,
                                    id,
                                    message: budget_error_text(
                                        BudgetError::InvalidMonth {
                                            year: value.year,
                                            month: value.month,
                                        },
                                    ),
                                },
                            )
                        } else {
                            let month = BudgetMonth::from_parts(value.year, value.month);
                            if exists|j: int|
                                0 <= j < accepted.len() && (#[trigger] accepted[j]).account_id@
                                    == value.account_id && accepted[j].category == category
                                    && accepted[j].month == month {
                                Err(
                                    BackupErrorView::DuplicateBudgetScope {
                                        account_id: value.account_id,
                                        category,
                                        month,
                                    },
                                )
                            } else {
                                match new_budget_outcome(
                                    AccountId::from_value(value.account_id),
                                    category,
                                    month,
                                    MoneyView { minor: value.limit_minor as int, currency },
                                ) {
                                    Err(error) => Err(
                                        BackupErrorView::InvalidEntity {
                                            entity,
                                            id,
                                            message: budget_error_text(error),
                                        },
                                    ),
                                    Ok(budget) => Ok(
                                        BudgetView::from_new(BudgetId::from_value(id), budget),
                                    ),
                                }
                            }
                        },
                    }
                },
            },
        }
    }
}

/// What checking the budget entries in order gives.
pub open spec fn budgets_outcome(values: Seq<BackupBudgetView>, accounts: Seq<AccountView>) -> Result<
    Seq<BudgetView>,
    BackupErrorView,
>
    decreases values.len(),
{
    if values.len() == 0 {
        Ok(Seq::empty())
    } else {
        match budgets_outcome(values.drop_last(), accounts) {
            Err(error) => Err(error),
            Ok(accepted) => match budget_entry(values.last(), accounts, accepted) {
                Err(error) => Err(error),
                Ok(budget) => Ok(accepted.push(budget)),
            },
        }
    }
}

/// What checking a whole document gives: the version first, then the accounts, the
/// transactions, the transfers and the budgets, each in document order, stopping at the
/// first problem.
pub open spec fn backup_outcome(
    document: BackupDocumentView,
    transaction_times: Seq<TimeReading>,
    transfer_times: Seq<TimeReading>,
) -> Result<ValidatedBackupView, BackupErrorView> {
    if document.format_version != BACKUP_FORMAT_VERSION {
        Err(BackupErrorView::UnknownVersion(document.format_version))
    } else {
        match accounts_outcome(document.accounts) {
            Err(error) => Err(error),
            Ok(accounts) => match transactions_outcome(
                document.transactions,
                transaction_times,
                accounts,
            ) {
                Err(error) => Err(error),
                Ok(transactions) => match transfers_outcome(
                    document.transfers,
                    transfer_times,
                    accounts,
                ) {
                    Err(error) => Err(error),
                    Ok(transfers) => match budgets_outcome(document.budgets, accounts) {
                        Err(error) => Err(error),
                        Ok(budgets) => Ok(
                            ValidatedBackupView { accounts, transactions, transfers, budgets },
                        ),
                    },
                },
            },
        }
    }
}

pub open spec fn validated_result_view(r: Result<ValidatedBackup, BackupError>) -> Result<
    ValidatedBackupView,
    BackupErrorView,
> {
    match r {
        Ok(backup) => Ok(backup@),
        Err(error) => Err(error@),
    }
}


proof fn lemma_accounts_error_persists(values: Seq<BackupAccountView>, i: int, error: BackupErrorView)
    requires
        0 <= i <= values.len(),
        accounts_outcome(values.subrange(0, i)) == Err::<Seq<AccountView>, BackupErrorView>(error),
    ensures
        accounts_outcome(values) == Err::<Seq<AccountView>, BackupErrorView>(error),
    decreases values.len() - i,
{
    if i < values.len() {
        assert(values.subrange(0, i + 1).drop_last() =~= values.subrange(0, i));
        lemma_accounts_error_persists(values, i + 1, error);
    } else {
        assert(values.subrange(0, i) =~= values);
    }
}

proof fn lemma_transactions_error_persists(
    values: Seq<BackupTransactionView>,
    times: Seq<TimeReading>,
    accounts: Seq<AccountView>,
    i: int,
    error: BackupErrorView,
)
    requires
        0 <= i <= values.len(),
        transactions_outcome(values.subrange(0, i), times, accounts) == Err::<
            Seq<TransactionView>,
            BackupErrorView,
        >(error),
    ensures
        transactions_outcome(values, times, accounts) == Err::<Seq<TransactionView>, BackupErrorView>(
            error,
        ),
    decreases values.len() - i,
{
    if i < values.len() {
        assert(values.subrange(0, i + 1).drop_last() =~= values.subrange(0, i));
        lemma_transactions_error_persists(values, times, accounts, i + 1, error);
    } else {
        assert(values.subrange(0, i) =~= values);
    }
}

proof fn lemma_transfers_error_persists(
    values: Seq<BackupTransferView>,
    times: Seq<TimeReading>,
    accounts: Seq<AccountView>,
    i: int,
    error: BackupErrorView,
)
    requires
        0 <= i <= values.len(),
        transfers_outcome(values.subrange(0, i), times, accounts) == Err::<
            Seq<TransferView>,
            BackupErrorView,
        >(error),
    ensures
        transfers_outcome(values, times, accounts) == Err::<Seq<TransferView>, BackupErrorView>(error),
    decreases values.len() - i,
{
    if i < values.len() {
        assert(values.subrange(0, i + 1).drop_last() =~= values.subrange(0, i));
        lemma_transfers_error_persists(values, times, accounts, i + 1, error);
    } else {
        assert(values.subrange(0, i) =~= values);
    }
}

proof fn lemma_budgets_error_persists(
    values: Seq<BackupBudgetView>,
    accounts: Seq<AccountView>,
    i: int,
    error: BackupErrorView,
)
    requires
        0 <= i <= values.len(),
        budgets_outcome(values.subrange(0, i), accounts) == Err::<Seq<BudgetView>, BackupErrorView>(
            error,
        ),
    ensures
        budgets_outcome(values, accounts) == Err::<Seq<BudgetView>, BackupErrorView>(error),
    decreases values.len() - i,
{
    if i < values.len() {
        assert(values.subrange(0, i + 1).drop_last() =~= values.subrange(0, i));
        lemma_budgets_error_persists(values, accounts, i + 1, error);
    } else {
        assert(values.subrange(0, i) =~= values);
    }
}

fn find_account_currency(accounts: &Vec<Account>, id: u64) -> (r: Option<Currency>)
    ensures
        r == account_currency(accounts_view(accounts@), id),
{
    let ghost all = accounts_view(accounts@);
    let mut j: usize = accounts.len();
    assert(all.subrange(0, j as int) =~= all);
    while j > 0
        invariant
            j <= accounts@.len(),
            all == accounts_view(accounts@),
            account_currency(all, id) == account_currency(all.subrange(0, j as int), id),
        decreases j,
    {
        let ghost prefix = all.subrange(0, j as int);
        proof {
            assert(prefix.drop_last() =~= all.subrange(0, j - 1));
            assert(prefix.last() == accounts@[j - 1]@);
        }
        if accounts[j - 1].id().value() == id {
            return Some(accounts[j - 1].currency());
        }
        j = j - 1;
    }
    None
}

fn invalid_entity(entity: &'static str, id: u64, message: &str) -> (r: BackupError)
    ensures
        r@ == (BackupErrorView::InvalidEntity { entity: entity@, id, message: message@ }),
{
    BackupError::InvalidEntity { entity, id, message: String::from_str(message) }
}

fn validate_accounts(values: &Vec<BackupAccount>) -> (r: Result<Vec<Account>, BackupError>)
    ensures
        match r {
            Ok(accounts) => accounts_outcome(values@.map_values(|value: BackupAccount| value@)) == Ok::<
                Seq<AccountView>,
                BackupErrorView,
            >(accounts_view(accounts@)),
            Err(error) => accounts_outcome(values@.map_values(|value: BackupAccount| value@))
                == Err::<Seq<AccountView>, BackupErrorView>(error@),
        },
{
    let ghost all = values@.map_values(|value: BackupAccount| value@);
    let mut accounts: Vec<Account> = Vec::new();
    let mut i: usize = 0;
    assert(all.subrange(0, 0) =~= Seq::<BackupAccountView>::empty());
    assert(accounts_view(accounts@) =~= Seq::<AccountView>::empty());
    while i < values.len()
        invariant
            i <= values@.len(),
            all == values@.map_values(|value: BackupAccount| value@),
            accounts_outcome(all.subrange(0, i as int)) == Ok::<Seq<AccountView>, BackupErrorView>(
                accounts_view(accounts@),
            ),
        decreases values@.len() - i,
    {
        let value = &values[i];
        let ghost accepted = accounts_view(accounts@);
        let ghost prefix = all.subrange(0, i + 1);
        proof {
            assert(prefix.drop_last() =~= all.subrange(0, i as int));
            assert(prefix.last() == value@);
            reveal_strlit("account");
            reveal_strlit("unsupported currency");
        }
        let outcome: Result<Account, BackupError> = if !(value.id > 0 && value.id <= 9223372036854775807u64) {
            Err(BackupError::InvalidId { entity: "account", id: value.id })
        } else if find_account_currency(&accounts, value.id).is_some() {
            Err(BackupError::DuplicateId { entity: "account", id: value.id })
        } else {
            match currency_from_code(value.currency.as_str()) {
                None => Err(invalid_entity("account", value.id, "unsupported currency")),
                Some(currency) => match Account::new(AccountId::new(value.id), value.name.clone(), currency) {
                    Err(error) => Err(invalid_entity("account", value.id, error.debug_text())),
                    Ok(account) => Ok(account),
                },
            }
        };
        match outcome {
            Err(error) => {
                proof {
                    assert(account_entry(value@, accepted) == Err::<AccountView, BackupErrorView>(error@));
                    lemma_accounts_error_persists(all, i + 1, error@);
                }
                return Err(error);
            },
            Ok(account) => {
                proof {
                    assert(account_entry(value@, accepted) == Ok::<AccountView, BackupErrorView>(account@));
                }
                accounts.push(account);
                proof {
                    assert(accounts_view(accounts@) =~= accepted.push(account@));
                }
            },
        }
        i = i + 1;
    }
    proof {
        assert(all.subrange(0, i as int) =~= all);
    }
    Ok(accounts)
}


fn has_transaction_id(accepted: &Vec<Transaction>, id: u64) -> (r: bool)
    ensures
        r == exists|j: int|
            0 <= j < accepted@.len() && (#[trigger] transactions_view(accepted@)[j]).id@ == id,
{
    let ghost all = transactions_view(accepted@);
    let mut j: usize = 0;
    while j < accepted.len()
        invariant
            j <= accepted@.len(),
            all == transactions_view(accepted@),
            forall|k: int| 0 <= k < j ==> (#[trigger] all[k]).id@ != id,
        decreases accepted@.len() - j,
    {
        if accepted[j].id().value() == id {
            assert(all[j as int].id@ == id);
            return true;
        }
        j = j + 1;
    }
    false
}

fn has_transfer_id(accepted: &Vec<Transfer>, id: u64) -> (r: bool)
    ensures
        r == exists|j: int|
            0 <= j < accepted@.len() && (#[trigger] transfers_view(accepted@)[j]).id@ == id,
{
    let ghost all = transfers_view(accepted@);
    let mut j: usize = 0;
    while j < accepted.len()
        invariant
            j <= accepted@.len(),
            all == transfers_view(accepted@),
            forall|k: int| 0 <= k < j ==> (#[trigger] all[k]).id@ != id,
        decreases accepted@.len() - j,
    {
        if accepted[j].id().value() == id {
            assert(all[j as int].id@ == id);
            return true;
        }
        j = j + 1;
    }
    false
}

fn has_budget_id(accepted: &Vec<Budget>, id: u64) -> (r: bool)
    ensures
        r == exists|j: int|
            0 <= j < accepted@.len() && (#[trigger] budgets_view(accepted@)[j]).id@ == id,
{
    let ghost all = budgets_view(accepted@);
    let mut j: usize = 0;
    while j < accepted.len()
        invariant
            j <= accepted@.len(),
            all == budgets_view(accepted@),
            forall|k: int| 0 <= k < j ==> (#[trigger] all[k]).id@ != id,
        decreases accepted@.len() - j,
    {
        if accepted[j].id().value() == id {
            assert(all[j as int].id@ == id);
            return true;
        }
        j = j + 1;
    }
    false
}

fn has_budget_scope(accepted: &Vec<Budget>, account_id: u64, category: Category, month: BudgetMonth) -> (r: bool)
    ensures
        r == exists|j: int|
            0 <= j < accepted@.len() && (#[trigger] budgets_view(accepted@)[j]).account_id@ == account_id
                && budgets_view(accepted@)[j].category == category && budgets_view(accepted@)[j].month
                == month,
{
    let ghost all = budgets_view(accepted@);
    let mut j: usize = 0;
    while j < accepted.len()
        invariant
            j <= accepted@.len(),
            all == budgets_view(accepted@),
            forall|k: int|
                0 <= k < j ==> !((#[trigger] all[k]).account_id@ == account_id && all[k].category
                    == category && all[k].month == month),
        decreases accepted@.len() - j,
    {
        let budget = &accepted[j];
        if budget.account_id().value() == account_id && budget.category() == category
            && budget.month() == month {
            assert(all[j as int].account_id@ == account_id);
            return true;
        }
        j = j + 1;
    }
    false
}

fn reading_copy(reading: &Result<ZonedTime, String>) -> (r: Result<ZonedTime, String>)
    ensures
        match (r, *reading) {
            (Ok(a), Ok(b)) => a@ == b@,
            (Err(a), Err(b)) => a@ == b@,
            _ => false,
        },
{
    match reading {
        Ok(time) => Ok(time.duplicate()),
        Err(message) => Err(message.clone()),
    }
}

fn validate_transactions(
    values: &Vec<BackupTransaction>,
    times: &Vec<Result<ZonedTime, String>>,
    accounts: &Vec<Account>,
) -> (r: Result<Vec<Transaction>, BackupError>)
    requires
        times@.len() == values@.len(),
    ensures
        ({
            let outcome = transactions_outcome(
                values@.map_values(|value: BackupTransaction| value@),
                readings_view(times@),
                accounts_view(accounts@),
            );
            match r {
                Ok(accepted) => outcome == Ok::<Seq<TransactionView>, BackupErrorView>(
                    transactions_view(accepted@),
                ),
                Err(error) => outcome == Err::<Seq<TransactionView>, BackupErrorView>(error@),
            }
        }),
{
    let ghost all = values@.map_values(|value: BackupTransaction| value@);
    let ghost readings = readings_view(times@);
    let ghost known = accounts_view(accounts@);
    let mut accepted: Vec<Transaction> = Vec::new();
    let mut i: usize = 0;
    assert(all.subrange(0, 0) =~= Seq::<BackupTransactionView>::empty());
    assert(transactions_view(accepted@) =~= Seq::<TransactionView>::empty());
    while i < values.len()
        invariant
            i <= values@.len(),
            times@.len() == values@.len(),
            all == values@.map_values(|value: BackupTransaction| value@),
            readings == readings_view(times@),
            known == accounts_view(accounts@),
            transactions_outcome(all.subrange(0, i as int), readings, known) == Ok::<
                Seq<TransactionView>,
                BackupErrorView,
            >(transactions_view(accepted@)),
        decreases values@.len() - i,
    {
        let value = &values[i];
        let id = value.id;
        let ghost before = transactions_view(accepted@);
        let ghost prefix = all.subrange(0, i + 1);
        proof {
            assert(prefix.drop_last() =~= all.subrange(0, i as int));
            assert(prefix.last() == value@);
            reveal_strlit("transaction");
            reveal_strlit("unsupported currency");
            reveal_strlit("unsupported kind");
            reveal_strlit("unsupported category");
        }
        let outcome: Result<Transaction, BackupError> = if !(id > 0 && id <= 9223372036854775807u64) {
            Err(BackupError::InvalidId { entity: "transaction", id })
        } else if has_transaction_id(&accepted, id) {
            Err(BackupError::DuplicateId { entity: "transaction", id })
        } else {
            match find_account_currency(accounts, value.account_id) {
                None => Err(
                    BackupError::MissingAccountReference {
                        entity: "transaction",
                        id,
                        account_id: value.account_id,
                    },
                ),
                Some(account_currency) => match currency_from_code(value.currency.as_str()) {
                    None => Err(invalid_entity("transaction", id, "unsupported currency")),
                    Some(currency) => if currency != account_currency {
                        Err(BackupError::CurrencyMismatch { entity: "transaction", id })
                    } else {
                        match reading_copy(&times[i]) {
                            Err(message) => Err(
                                BackupError::InvalidEntity { entity: "transaction", id, message },
                            ),
                            Ok(occurred_at) => match kind_from_code(value.kind.as_str()) {
                                None => Err(invalid_entity("transaction", id, "unsupported kind")),
                                Some(kind) => match category_from_code(value.category.as_str()) {
                                    None => Err(
                                        invalid_entity("transaction", id, "unsupported category"),
                                    ),
                                    Some(category) => match Transaction::new(
                                        TransactionId::new(id),
                                        AccountId::new(value.account_id),
                                        kind,
                                        Money::from_minor_units(value.amount_minor, currency),
                                        occurred_at,
                                        value.description.clone(),
                                        category,
                                    ) {
                                        Err(error) => Err(
                                            invalid_entity("transaction", id, error.debug_text()),
                                        ),
                                        Ok(transaction) => Ok(transaction),
                                    },
                                },
                            },
                        }
                    },
                },
            }
        };
        match outcome {
            Err(error) => {
                proof {
                    assert(transaction_entry(value@, readings[i as int], known, before) == Err::<
                        TransactionView,
                        BackupErrorView,
                    >(error@));
                    lemma_transactions_error_persists(all, readings, known, i + 1, error@);
                }
                return Err(error);
            },
            Ok(transaction) => {
                proof {
                    assert(transaction_entry(value@, readings[i as int], known, before) == Ok::<
                        TransactionView,
                        BackupErrorView,
                    >(transaction@));
                }
                accepted.push(transaction);
                proof {
                    assert(transactions_view(accepted@) =~= before.push(
                        transaction@,
                    ));
                }
            },
        }
        i = i + 1;
    }
    proof {
        assert(all.subrange(0, i as int) =~= all);
    }
    Ok(accepted)
}


fn validate_transfers(
    values: &Vec<BackupTransfer>,
    times: &Vec<Result<ZonedTime, String>>,
    accounts: &Vec<Account>,
) -> (r: Result<Vec<Transfer>, BackupError>)
    requires
        times@.len() == values@.len(),
    ensures
        ({
            let outcome = transfers_outcome(
                values@.map_values(|value: BackupTransfer| value@),
                readings_view(times@),
                accounts_view(accounts@),
            );
            match r {
                Ok(accepted) => outcome == Ok::<Seq<TransferView>, BackupErrorView>(
                    transfers_view(accepted@),
                ),
                Err(error) => outcome == Err::<Seq<TransferView>, BackupErrorView>(error@),
            }
        }),
{
    let ghost all = values@.map_values(|value: BackupTransfer| value@);
    let ghost readings = readings_view(times@);
    let ghost known = accounts_view(accounts@);
    let mut accepted: Vec<Transfer> = Vec::new();
    let mut i: usize = 0;
    assert(all.subrange(0, 0) =~= Seq::<BackupTransferView>::empty());
    assert(transfers_view(accepted@) =~= Seq::<TransferView>::empty());
    while i < values.len()
        invariant
            i <= values@.len(),
            times@.len() == values@.len(),
            all == values@.map_values(|value: BackupTransfer| value@),
            readings == readings_view(times@),
            known == accounts_view(accounts@),
            transfers_outcome(all.subrange(0, i as int), readings, known) == Ok::<
                Seq<TransferView>,
                BackupErrorView,
            >(transfers_view(accepted@)),
        decreases values@.len() - i,
    {
        let value = &values[i];
        let id = value.id;
        let ghost before = transfers_view(accepted@);
        let ghost prefix = all.subrange(0, i + 1);
        proof {
            assert(prefix.drop_last() =~= all.subrange(0, i as int));
            assert(prefix.last() == value@);
            reveal_strlit("transfer");
            reveal_strlit("transfer source");
            reveal_strlit("transfer destination");
            reveal_strlit("unsupported source currency");
            reveal_strlit("unsupported destination currency");
        }
        let source_known = find_account_currency(accounts, value.source_account_id);
        let destination_known = find_account_currency(accounts, value.destination_account_id);
        let outcome: Result<Transfer, BackupError> = if !(id > 0 && id <= 9223372036854775807u64) {
            Err(BackupError::InvalidId { entity: "transfer", id })
        } else if has_transfer_id(&accepted, id) {
            Err(BackupError::DuplicateId { entity: "transfer", id })
        } else if source_known.is_none() {
            Err(
                BackupError::MissingAccountReference {
                    entity: "transfer source",
                    id,
                    account_id: value.source_account_id,
                },
            )
        } else if destination_known.is_none() {
            Err(
                BackupError::MissingAccountReference {
                    entity: "transfer destination",
                    id,
                    account_id: value.destination_account_id,
                },
            )
        } else {
            match currency_from_code(value.source_currency.as_str()) {
                None => Err(invalid_entity("transfer", id, "unsupported source currency")),
                Some(source_currency) => match currency_from_code(value.destination_currency.as_str()) {
                    None => Err(invalid_entity("transfer", id, "unsupported destination currency")),
                    Some(destination_currency) => if Some(source_currency) != source_known || Some(
                        destination_currency,
                    ) != destination_known {
                        Err(BackupError::CurrencyMismatch { entity: "transfer", id })
                    } else {
                        match reading_copy(&times[i]) {
                            Err(message) => Err(
                                BackupError::InvalidEntity { entity: "transfer", id, message },
                            ),
                            Ok(occurred_at) => match Transfer::new(
                                TransferId::new(id),
                                AccountId::new(value.source_account_id),
                                AccountId::new(value.destination_account_id),
                                Money::from_minor_units(value.source_amount_minor, source_currency),
                                Money::from_minor_units(
                                    value.destination_amount_minor,
                                    destination_currency,
                                ),
                                occurred_at,
                                value.description.clone(),
                            ) {
                                Err(error) => Err(invalid_entity("transfer", id, error.debug_text())),
                                Ok(transfer) => Ok(transfer),
                            },
                        }
                    },
                },
            }
        };
        match outcome {
            Err(error) => {
                proof {
                    assert(transfer_entry(value@, readings[i as int], known, before) == Err::<
                        TransferView,
                        BackupErrorView,
                    >(error@));
                    lemma_transfers_error_persists(all, readings, known, i + 1, error@);
                }
                return Err(error);
            },
            Ok(transfer) => {
                proof {
                    assert(transfer_entry(value@, readings[i as int], known, before) == Ok::<
                        TransferView,
                        BackupErrorView,
                    >(transfer@));
                }
                accepted.push(transfer);
                proof {
                    assert(transfers_view(accepted@) =~= before.push(transfer@));
                }
            },
        }
        i = i + 1;
    }
    proof {
        assert(all.subrange(0, i as int) =~= all);
    }
    Ok(accepted)
}

fn validate_budgets(values: &Vec<BackupBudget>, accounts: &Vec<Account>) -> (r: Result<
    Vec<Budget>,
    BackupError,
>)
    ensures
        ({
            let outcome = budgets_outcome(
                values@.map_values(|value: BackupBudget| value@),
                accounts_view(accounts@),
            );
            match r {
                Ok(accepted) => outcome == Ok::<Seq<BudgetView>, BackupErrorView>(
                    budgets_view(accepted@),
                ),
                Err(error) => outcome == Err::<Seq<BudgetView>, BackupErrorView>(error@),
            }
        }),
{
    let ghost all = values@.map_values(|value: BackupBudget| value@);
    let ghost known = accounts_view(accounts@);
    let mut accepted: Vec<Budget> = Vec::new();
    let mut i: usize = 0;
    assert(all.subrange(0, 0) =~= Seq::<BackupBudgetView>::empty());
    assert(budgets_view(accepted@) =~= Seq::<BudgetView>::empty());
    while i < values.len()
        invariant
            i <= values@.len(),
            all == values@.map_values(|value: BackupBudget| value@),
            known == accounts_view(accounts@),
            budgets_outcome(all.subrange(0, i as int), known) == Ok::<Seq<BudgetView>, BackupErrorView>(
                budgets_view(accepted@),
            ),
        decreases values@.len() - i,
    {
        let value = &values[i];
        let id = value.id;
        let ghost before = budgets_view(accepted@);
        let ghost prefix = all.subrange(0, i + 1);
        proof {
            assert(prefix.drop_last() =~= all.subrange(0, i as int));
            assert(prefix.last() == value@);
            reveal_strlit("budget");
            reveal_strlit("unsupported currency");
            reveal_strlit("unsupported category");
        }
        let outcome: Result<Budget, BackupError> = if !(id > 0 && id <= 9223372036854775807u64) {
            Err(BackupError::InvalidId { entity: "budget", id })
        } else if has_budget_id(&accepted, id) {
            Err(BackupError::DuplicateId { entity: "budget", id })
        } else {
            match find_account_currency(accounts, value.account_id) {
                None => Err(
                    BackupError::MissingAccountReference {
                        entity: "budget",
                        id,
                        account_id: value.account_id,
                    },
                ),
                Some(account_currency) => match currency_from_code(value.currency.as_str()) {
                    None => Err(invalid_entity("budget", id, "unsupported currency")),
                    Some(currency) => if currency != account_currency {
                        Err(BackupError::CurrencyMismatch { entity: "budget", id })
                    } else {
                        match category_from_code(value.category.as_str()) {
                            None => Err(invalid_entity("budget", id, "unsupported category")),
                            Some(category) => match BudgetMonth::new(value.year, value.month) {
                                Err(error) => {
                                    let text = string_from_chars(&error.debug_text());
                                    Err(BackupError::InvalidEntity { entity: "budget", id, message: text })
                                },
                                Ok(month) => if has_budget_scope(
                                    &accepted,
                                    value.account_id,
                                    category,
                                    month,
                                ) {
                                    Err(
                                        BackupError::DuplicateBudgetScope {
                                            account_id: value.account_id,
                                            category,
                                            month,
                                        },
                                    )
                                } else {
                                    match Budget::new(
                                        BudgetId::new(id),
                                        AccountId::new(value.account_id),
                                        category,
                                        month,
                                        Money::from_minor_units(value.limit_minor, currency),
                                    ) {
                                        Err(error) => {
                                            let text = string_from_chars(&error.debug_text());
                                            Err(
                                                BackupError::InvalidEntity {
                                                    entity: "budget",
                                                    id,
                                                    message: text,
                                                },
                                            )
                                        },
                                        Ok(budget) => Ok(budget),
                                    }
                                },
                            },
                        }
                    },
                },
            }
        };
        match outcome {
            Err(error) => {
                proof {
                    assert(budget_entry(value@, known, before) == Err::<BudgetView, BackupErrorView>(
                        error@,
                    ));
                    lemma_budgets_error_persists(all, known, i + 1, error@);
                }
                return Err(error);
            },
            Ok(budget) => {
                proof {
                    assert(budget_entry(value@, known, before) == Ok::<BudgetView, BackupErrorView>(
                        budget@,
                    ));
                }
                accepted.push(budget);
                proof {
                    assert(budgets_view(accepted@) =~= before.push(budget@));
                }
            },
        }
        i = i + 1;
    }
    proof {
        assert(all.subrange(0, i as int) =~= all);
    }
    Ok(accepted)
}

/// Checks a backup document whose timestamps were already read: `transaction_times[i]`
/// and `transfer_times[i]` are what reading the `i`-th transaction's and transfer's
/// `occurred_at` gave.
pub fn validate_backup_entries(
    document: &BackupDocument,
    transaction_times: &Vec<Result<ZonedTime, String>>,
    transfer_times: &Vec<Result<ZonedTime, String>>,
) -> (r: Result<ValidatedBackup, BackupError>)
    requires
        transaction_times@.len() == document.transactions@.len(),
        transfer_times@.len() == document.transfers@.len(),
    ensures
        validated_result_view(r) == backup_outcome(
            document@,
            readings_view(transaction_times@),
            readings_view(transfer_times@),
        ),
{
    if document.format_version != BACKUP_FORMAT_VERSION {
        return Err(BackupError::UnknownVersion(document.format_version));
    }
    let accounts = validate_accounts(&document.accounts)?;
    let transactions = validate_transactions(&document.transactions, transaction_times, &accounts)?;
    let transfers = validate_transfers(&document.transfers, transfer_times, &accounts)?;
    let budgets = validate_budgets(&document.budgets, &accounts)?;
    Ok(ValidatedBackup { accounts, transactions, transfers, budgets })
}

/// Whether timestamp readings can be what parsing the texts gave, one by one: a text
/// without a bracketed time zone reads as an error, and a time that was read is what its
/// text writes.
pub open spec fn readings_fit_texts(texts: Seq<Seq<char>>, readings: Seq<TimeReading>) -> bool {
    &&& readings.len() == texts.len()
    &&& forall|k: int| 0 <= k < texts.len() ==> reading_of_text(#[trigger] texts[k], readings[k])
}

/// The `occurred_at` texts of the transactions of a backup document.
pub open spec fn transaction_time_texts(document: BackupDocumentView) -> Seq<Seq<char>> {
    document.transactions.map_values(|entry: BackupTransactionView| entry.occurred_at)
}

/// The `occurred_at` texts of the transfers of a backup document.
pub open spec fn transfer_time_texts(document: BackupDocumentView) -> Seq<Seq<char>> {
    document.transfers.map_values(|entry: BackupTransferView| entry.occurred_at)
}

/// Reads every timestamp of a list of texts with `ZonedTime::parse`.
fn read_times(texts: &Vec<String>) -> (r: Vec<Result<ZonedTime, String>>)
    ensures
        readings_fit_texts(texts@.map_values(|text: String| text@), readings_view(r@)),
{
    let ghost views = texts@.map_values(|text: String| text@);
    let mut out: Vec<Result<ZonedTime, String>> = Vec::new();
    let mut i: usize = 0;
    while i < texts.len()
        invariant
            i <= texts@.len(),
            views == texts@.map_values(|text: String| text@),
            out@.len() == i,
            forall|k: int| 0 <= k < i ==> reading_of_text(#[trigger] views[k], readings_view(out@)[k]),
        decreases texts@.len() - i,
    {
        let reading = ZonedTime::parse(texts[i].as_str());
        let ghost old_out = out@;
        proof {
            assert(views[i as int] == texts@[i as int]@);
        }
        out.push(reading);
        proof {
            assert forall|k: int| 0 <= k < i + 1 implies reading_of_text(
                #[trigger] views[k],
                readings_view(out@)[k],
            ) by {
                if k < i {
                    assert(out@[k] == old_out[k]);
                    assert(readings_view(out@)[k] == readings_view(old_out)[k]);
                } else {
                    assert(out@[k] == reading);
                }
            }
        }
        i = i + 1;
    }
    out
}

/// Checks a backup document: the format version, then every account, transaction,
/// transfer and budget in document order, stopping at the first problem. Whether a
/// timestamp is accepted depends on the time-zone database, so the result is the
/// outcome for some reading of each timestamp.
pub fn validate_backup_document(document: &BackupDocument) -> (r: Result<ValidatedBackup, BackupError>)
    ensures
        exists|transaction_times: Seq<TimeReading>, transfer_times: Seq<TimeReading>|
            readings_fit_texts(transaction_time_texts(document@), transaction_times)
                && readings_fit_texts(transfer_time_texts(document@), transfer_times)
                && validated_result_view(r) == backup_outcome(
                document@,
                transaction_times,
                transfer_times,
            ),
{
    let mut transaction_texts: Vec<String> = Vec::new();
    let mut i: usize = 0;
    while i < document.transactions.len()
        invariant
            i <= document.transactions@.len(),
            transaction_texts@.len() == i,
            forall|k: int| 0 <= k < i ==> (#[trigger] transaction_texts@[k])@ == document@.transactions[k].occurred_at,
        decreases document.transactions@.len() - i,
    {
        transaction_texts.push(document.transactions[i].occurred_at.clone());
        i = i + 1;
    }
    let mut transfer_texts: Vec<String> = Vec::new();
    let mut j: usize = 0;
    while j < document.transfers.len()
        invariant
            j <= document.transfers@.len(),
            transfer_texts@.len() == j,
            forall|k: int| 0 <= k < j ==> (#[trigger] transfer_texts@[k])@ == document@.transfers[k].occurred_at,
        decreases document.transfers@.len() - j,
    {
        transfer_texts.push(document.transfers[j].occurred_at.clone());
        j = j + 1;
    }
    let transaction_times = read_times(&transaction_texts);
    let transfer_times = read_times(&transfer_texts);
    let r = validate_backup_entries(document, &transaction_times, &transfer_times);
    proof {
        assert(transaction_texts@.map_values(|text: String| text@) =~= transaction_time_texts(document@));
        assert(transfer_texts@.map_values(|text: String| text@) =~= transfer_time_texts(document@));
    }
    r
}


/// How a backup document holds an account.
pub open spec fn backup_account_of(account: AccountView) -> BackupAccountView {
    BackupAccountView { id: account.id@, name: account.name, currency: currency_code(account.currency) }
}

/// How a backup document holds a transaction.
pub open spec fn backup_transaction_of(transaction: TransactionView) -> BackupTransactionView {
    BackupTransactionView {
        id: transaction.id@,
        account_id: transaction.account_id@,
        kind: kind_code(transaction.kind),
        amount_minor: transaction.amount.minor as i64,
        currency: currency_code(transaction.amount.currency),
        occurred_at: transaction.occurred_at.text,
        description: transaction.description,
        category: category_code(transaction.category),
    }
}

/// How a backup document holds a transfer.
pub open spec fn backup_transfer_of(transfer: TransferView) -> BackupTransferView {
    BackupTransferView {
        id: transfer.id@,
        source_account_id: transfer.source_account_id@,
        destination_account_id: transfer.destination_account_id@,
        source_amount_minor: transfer.source_amount.minor as i64,
        source_currency: currency_code(transfer.source_amount.currency),
        destination_amount_minor: transfer.destination_amount.minor as i64,
        destination_currency: currency_code(transfer.destination_amount.currency),
        occurred_at: transfer.occurred_at.text,
        description: transfer.description,
    }
}

/// How a backup document holds a budget.
pub open spec fn backup_budget_of(budget: BudgetView) -> BackupBudgetView {
    BackupBudgetView {
        id: budget.id@,
        account_id: budget.account_id@,
        category: category_code(budget.category),
        year: budget.month@.year as i32,
        month: budget.month@.month as u8,
        limit_minor: budget.limit.minor as i64,
        currency: currency_code(budget.limit.currency),
    }
}

/// Whether the entries are the stored accounts, in ascending identifier order.
pub open spec fn backs_up_accounts(entries: Seq<BackupAccountView>, stored: Map<AccountId, AccountView>) -> bool {
    &&& forall|i: int, j: int| 0 <= i < j < entries.len() ==> (#[trigger] entries[i]).id < (#[trigger] entries[j]).id
    &&& forall|i: int|
        0 <= i < entries.len() ==> stored.contains_key(AccountId::from_value((#[trigger] entries[i]).id))
            && entries[i] == backup_account_of(stored[AccountId::from_value(entries[i].id)])
    &&& forall|id: AccountId| #[trigger]
        stored.contains_key(id) ==> exists|i: int| 0 <= i < entries.len() && (#[trigger] entries[i]).id == id@
}

/// Whether the entries are the stored transactions of stored accounts, in ascending
/// identifier order.
pub open spec fn backs_up_transactions(
    entries: Seq<BackupTransactionView>,
    stored: Map<TransactionId, TransactionView>,
    accounts: Map<AccountId, AccountView>,
) -> bool {
    &&& forall|i: int, j: int| 0 <= i < j < entries.len() ==> (#[trigger] entries[i]).id < (#[trigger] entries[j]).id
    &&& forall|i: int|
        0 <= i < entries.len() ==> stored.contains_key(TransactionId::from_value((#[trigger] entries[i]).id))
            && entries[i] == backup_transaction_of(stored[TransactionId::from_value(entries[i].id)])
            && accounts.contains_key(stored[TransactionId::from_value(entries[i].id)].account_id)
    &&& forall|id: TransactionId| #[trigger]
        stored.contains_key(id) && accounts.contains_key(stored[id].account_id) ==> exists|i: int|
            0 <= i < entries.len() && (#[trigger] entries[i]).id == id@
}

/// Whether the entries are the stored transfers that involve a stored account, in
/// ascending identifier order.
pub open spec fn backs_up_transfers(
    entries: Seq<BackupTransferView>,
    stored: Map<TransferId, TransferView>,
    accounts: Map<AccountId, AccountView>,
) -> bool {
    &&& forall|i: int, j: int| 0 <= i < j < entries.len() ==> (#[trigger] entries[i]).id < (#[trigger] entries[j]).id
    &&& forall|i: int|
        0 <= i < entries.len() ==> stored.contains_key(TransferId::from_value((#[trigger] entries[i]).id))
            && entries[i] == backup_transfer_of(stored[TransferId::from_value(entries[i].id)])
            && (accounts.contains_key(stored[TransferId::from_value(entries[i].id)].source_account_id)
            || accounts.contains_key(
            stored[TransferId::from_value(entries[i].id)].destination_account_id,
        ))
    &&& forall|id: TransferId| #[trigger]
        stored.contains_key(id) && (accounts.contains_key(stored[id].source_account_id)
            || accounts.contains_key(stored[id].destination_account_id)) ==> exists|i: int|
            0 <= i < entries.len() && (#[trigger] entries[i]).id == id@
}

/// Whether the entries are the stored budgets of stored accounts, in ascending
/// identifier order.
pub open spec fn backs_up_budgets(
    entries: Seq<BackupBudgetView>,
    stored: Map<BudgetId, BudgetView>,
    accounts: Map<AccountId, AccountView>,
) -> bool {
    &&& forall|i: int, j: int| 0 <= i < j < entries.len() ==> (#[trigger] entries[i]).id < (#[trigger] entries[j]).id
    &&& forall|i: int|
        0 <= i < entries.len() ==> stored.contains_key(BudgetId::from_value((#[trigger] entries[i]).id))
            && entries[i] == backup_budget_of(stored[BudgetId::from_value(entries[i].id)])
            && accounts.contains_key(stored[BudgetId::from_value(entries[i].id)].account_id)
    &&& forall|id: BudgetId| #[trigger]
        stored.contains_key(id) && accounts.contains_key(stored[id].account_id) ==> exists|i: int|
            0 <= i < entries.len() && (#[trigger] entries[i]).id == id@
}


/// Whether one of the accounts has the identifier.
pub open spec fn lists_account(accounts: Seq<Account>, id: AccountId) -> bool {
    exists|j: int| 0 <= j < accounts.len() && (#[trigger] accounts[j])@.id == id
}

fn collect_transactions<R: TransactionRepository>(repository: &R, accounts: &Vec<Account>) -> (r: Result<
    Vec<Transaction>,
    RepositoryError,
>)
    ensures
        match r {
            Ok(found) => {
                &&& forall|x: Transaction| #[trigger]
                    found@.contains(x) ==> repository.transactions().contains_key(x@.id)
                        && repository.transactions()[x@.id] == x@ && lists_account(accounts@, x@.account_id)
                &&& forall|id: TransactionId| #[trigger]
                    repository.transactions().contains_key(id) && lists_account(
                        accounts@,
                        repository.transactions()[id].account_id,
                    ) ==> holds_key(found@, id@)
            },
            Err(_) => accounts@.len() > 0,
        },
{
    let ghost stored = repository.transactions();
    let mut found: Vec<Transaction> = Vec::new();
    let mut i: usize = 0;
    while i < accounts.len()
        invariant
            i <= accounts@.len(),
            stored == repository.transactions(),
            forall|x: Transaction| #[trigger]
                found@.contains(x) ==> stored.contains_key(x@.id) && stored[x@.id] == x@ && lists_account(
                    accounts@.subrange(0, i as int),
                    x@.account_id,
                ),
            forall|id: TransactionId| #[trigger]
                stored.contains_key(id) && lists_account(
                    accounts@.subrange(0, i as int),
                    stored[id].account_id,
                ) ==> holds_key(found@, id@),
        decreases accounts@.len() - i,
    {
        let account_id = accounts[i].id();
        let mut listed = repository.find_by_account_id(account_id)?;
        let ghost before = found@;
        let ghost added = listed@;
        proof {
            assert(lists_transactions_of(transactions_view(added), stored, account_id));
        }
        found.append(&mut listed);
        proof {
            let next = accounts@.subrange(0, i + 1);
            assert forall|j: int| 0 <= j < i implies next[j] == accounts@.subrange(0, i as int)[j] by {}
            assert(next[i as int] == accounts@[i as int]);
            assert forall|x: Transaction| #[trigger] found@.contains(x) implies stored.contains_key(x@.id)
                && stored[x@.id] == x@ && lists_account(next, x@.account_id) by {
                let k = choose|k: int| 0 <= k < found@.len() && found@[k] == x;
                if k < before.len() {
                    assert(before[k] == x);
                    assert(before.contains(x));
                    let j = choose|j: int|
                        0 <= j < i && (#[trigger] accounts@.subrange(0, i as int)[j])@.id == x@.account_id;
                    assert(next[j] == accounts@.subrange(0, i as int)[j]);
                } else {
                    assert(added[k - before.len()] == x);
                    assert(transactions_view(added)[k - before.len()] == x@);
                    assert(next[i as int]@.id == x@.account_id);
                }
            }
            assert forall|id: TransactionId| #[trigger]
                stored.contains_key(id) && lists_account(next, stored[id].account_id) implies holds_key(
                found@,
                id@,
            ) by {
                let j = choose|j: int| 0 <= j < next.len() && (#[trigger] next[j])@.id == stored[id].account_id;
                if j < i {
                    assert(accounts@.subrange(0, i as int)[j] == next[j]);
                    assert(lists_account(accounts@.subrange(0, i as int), stored[id].account_id));
                    assert(holds_key(before, id@));
                    let k = choose|k: int| 0 <= k < before.len() && Transaction::key(#[trigger] before[k]) == id@;
                    assert(found@[k] == before[k]);
                } else {
                    assert(stored[id].account_id == account_id);
                    let k = choose|k: int| 0 <= k < added.len() && (#[trigger] transactions_view(added)[k]).id == id;
                    assert(found@[before.len() + k] == added[k]);
                    assert(Transaction::key(found@[before.len() + k]) == id@);
                }
            }
        }
        i = i + 1;
    }
    proof {
        assert(accounts@.subrange(0, i as int) =~= accounts@);
    }
    Ok(found)
}

fn collect_transfers<R: TransferRepository>(repository: &R, accounts: &Vec<Account>) -> (r: Result<
    Vec<Transfer>,
    RepositoryError,
>)
    ensures
        match r {
            Ok(found) => {
                &&& forall|x: Transfer| #[trigger]
                    found@.contains(x) ==> repository.transfers().contains_key(x@.id)
                        && repository.transfers()[x@.id] == x@ && (lists_account(accounts@, x@.source_account_id) || lists_account(
                            accounts@,
                            x@.destination_account_id,
                        ))
                &&& forall|id: TransferId| #[trigger]
                    repository.transfers().contains_key(id) && (lists_account(accounts@, repository.transfers()[id].source_account_id)
                        || lists_account(accounts@, repository.transfers()[id].destination_account_id)) ==> holds_key(found@, id@)
            },
            Err(_) => accounts@.len() > 0,
        },
{
    let ghost stored = repository.transfers();
    let mut found: Vec<Transfer> = Vec::new();
    let mut i: usize = 0;
    while i < accounts.len()
        invariant
            i <= accounts@.len(),
            stored == repository.transfers(),
            forall|x: Transfer| #[trigger]
                found@.contains(x) ==> stored.contains_key(x@.id) && stored[x@.id] == x@ && (lists_account(accounts@.subrange(0, i as int), x@.source_account_id)
                    || lists_account(accounts@.subrange(0, i as int), x@.destination_account_id)),
            forall|id: TransferId| #[trigger]
                stored.contains_key(id) && (lists_account(accounts@.subrange(0, i as int), stored[id].source_account_id)
                    || lists_account(accounts@.subrange(0, i as int), stored[id].destination_account_id)) ==> holds_key(found@, id@),
        decreases accounts@.len() - i,
    {
        let account_id = accounts[i].id();
        let mut listed = repository.find_by_account_id(account_id)?;
        let ghost before = found@;
        let ghost added = listed@;
        proof {
            assert(lists_transfers_of(transfers_view(added), stored, account_id));
        }
        found.append(&mut listed);
        proof {
            let next = accounts@.subrange(0, i + 1);
            assert forall|j: int| 0 <= j < i implies next[j] == accounts@.subrange(0, i as int)[j] by {}
            assert(next[i as int] == accounts@[i as int]);
            assert forall|x: Transfer| #[trigger] found@.contains(x) implies stored.contains_key(x@.id)
                && stored[x@.id] == x@ && (lists_account(next, x@.source_account_id) || lists_account(
                next,
                x@.destination_account_id,
            )) by {
                let k = choose|k: int| 0 <= k < found@.len() && found@[k] == x;
                let old_prefix = accounts@.subrange(0, i as int);
                if k < before.len() {
                    assert(before[k] == x);
                    assert(before.contains(x));
                    if lists_account(old_prefix, x@.source_account_id) {
                        let j = choose|j: int|
                            0 <= j < i && (#[trigger] old_prefix[j])@.id == x@.source_account_id;
                        assert(next[j] == old_prefix[j]);
                    } else {
                        let j = choose|j: int|
                            0 <= j < i && (#[trigger] old_prefix[j])@.id == x@.destination_account_id;
                        assert(next[j] == old_prefix[j]);
                    }
                } else {
                    assert(added[k - before.len()] == x);
                    assert(transfers_view(added)[k - before.len()] == x@);
                    assert(x@.involves(account_id));
                    assert(next[i as int]@.id == account_id);
                }
            }
            assert forall|id: TransferId| #[trigger]
                stored.contains_key(id) && (lists_account(next, stored[id].source_account_id)
                    || lists_account(next, stored[id].destination_account_id)) implies holds_key(
                found@,
                id@,
            ) by {
                let j = choose|j: int|
                    0 <= j < next.len() && ((#[trigger] next[j])@.id == stored[id].source_account_id
                        || next[j]@.id == stored[id].destination_account_id);
                if j < i {
                    assert(accounts@.subrange(0, i as int)[j] == next[j]);
                    assert(lists_account(accounts@.subrange(0, i as int), stored[id].source_account_id)
                        || lists_account(accounts@.subrange(0, i as int), stored[id].destination_account_id));
                    assert(holds_key(before, id@));
                    let k = choose|k: int| 0 <= k < before.len() && Transfer::key(#[trigger] before[k]) == id@;
                    assert(found@[k] == before[k]);
                } else {
                    assert(stored[id].involves(account_id));
                    let k = choose|k: int| 0 <= k < added.len() && (#[trigger] transfers_view(added)[k]).id == id;
                    assert(found@[before.len() + k] == added[k]);
                    assert(Transfer::key(found@[before.len() + k]) == id@);
                }
            }
        }
        i = i + 1;
    }
    proof {
        assert(accounts@.subrange(0, i as int) =~= accounts@);
    }
    Ok(found)
}

fn collect_budgets<R: BudgetRepository>(repository: &R, accounts: &Vec<Account>) -> (r: Result<
    Vec<Budget>,
    RepositoryError,
>)
    ensures
        match r {
            Ok(found) => {
                &&& forall|x: Budget| #[trigger]
                    found@.contains(x) ==> repository.budgets().contains_key(x@.id)
                        && repository.budgets()[x@.id] == x@ && lists_account(accounts@, x@.account_id)
                &&& forall|id: BudgetId| #[trigger]
                    repository.budgets().contains_key(id) && lists_account(
                        accounts@,
                        repository.budgets()[id].account_id,
                    ) ==> holds_key(found@, id@)
            },
            Err(_) => accounts@.len() > 0,
        },
{
    let ghost stored = repository.budgets();
    let mut found: Vec<Budget> = Vec::new();
    let mut i: usize = 0;
    while i < accounts.len()
        invariant
            i <= accounts@.len(),
            stored == repository.budgets(),
            forall|x: Budget| #[trigger]
                found@.contains(x) ==> stored.contains_key(x@.id) && stored[x@.id] == x@ && lists_account(
                    accounts@.subrange(0, i as int),
                    x@.account_id,
                ),
            forall|id: BudgetId| #[trigger]
                stored.contains_key(id) && lists_account(
                    accounts@.subrange(0, i as int),
                    stored[id].account_id,
                ) ==> holds_key(found@, id@),
        decreases accounts@.len() - i,
    {
        let account_id = accounts[i].id();
        let mut listed = repository.find_by_account_id(account_id)?;
        let ghost before = found@;
        let ghost added = listed@;
        proof {
            assert(lists_budgets_of(budgets_view(added), stored, account_id));
        }
        found.append(&mut listed);
        proof {
            let next = accounts@.subrange(0, i + 1);
            assert forall|j: int| 0 <= j < i implies next[j] == accounts@.subrange(0, i as int)[j] by {}
            assert(next[i as int] == accounts@[i as int]);
            assert forall|x: Budget| #[trigger] found@.contains(x) implies stored.contains_key(x@.id)
                && stored[x@.id] == x@ && lists_account(next, x@.account_id) by {
                let k = choose|k: int| 0 <= k < found@.len() && found@[k] == x;
                if k < before.len() {
                    assert(before[k] == x);
                    assert(before.contains(x));
                    let j = choose|j: int|
                        0 <= j < i && (#[trigger] accounts@.subrange(0, i as int)[j])@.id == x@.account_id;
                    assert(next[j] == accounts@.subrange(0, i as int)[j]);
                } else {
                    assert(added[k - before.len()] == x);
                    assert(budgets_view(added)[k - before.len()] == x@);
                    assert(next[i as int]@.id == x@.account_id);
                }
            }
            assert forall|id: BudgetId| #[trigger]
                stored.contains_key(id) && lists_account(next, stored[id].account_id) implies holds_key(
                found@,
                id@,
            ) by {
                let j = choose|j: int| 0 <= j < next.len() && (#[trigger] next[j])@.id == stored[id].account_id;
                if j < i {
                    assert(accounts@.subrange(0, i as int)[j] == next[j]);
                    assert(lists_account(accounts@.subrange(0, i as int), stored[id].account_id));
                    assert(holds_key(before, id@));
                    let k = choose|k: int| 0 <= k < before.len() && Budget::key(#[trigger] before[k]) == id@;
                    assert(found@[k] == before[k]);
                } else {
                    assert(stored[id].account_id == account_id);
                    let k = choose|k: int| 0 <= k < added.len() && (#[trigger] budgets_view(added)[k]).id == id;
                    assert(found@[before.len() + k] == added[k]);
                    assert(Budget::key(found@[before.len() + k]) == id@);
                }
            }
        }
        i = i + 1;
    }
    proof {
        assert(accounts@.subrange(0, i as int) =~= accounts@);
    }
    Ok(found)
}


fn backup_accounts_of(values: &Vec<Account>) -> (r: Vec<BackupAccount>)
    ensures
        r@.len() == values@.len(),
        forall|i: int| 0 <= i < values@.len() ==> (#[trigger] r@[i])@ == backup_account_of(values@[i]@),
{
    let mut out: Vec<BackupAccount> = Vec::new();
    let mut i: usize = 0;
    while i < values.len()
        invariant
            i <= values@.len(),
            out@.len() == i,
            forall|k: int| 0 <= k < i ==> (#[trigger] out@[k])@ == backup_account_of(values@[k]@),
        decreases values@.len() - i,
    {
        let value = &values[i];
        out.push(
            BackupAccount {
                id: value.id().value(),
                name: String::from_str(value.name()),
                currency: String::from_str(value.currency().code()),
            },
        );
        i = i + 1;
    }
    out
}

fn backup_transactions_of(values: &Vec<Transaction>) -> (r: Vec<BackupTransaction>)
    ensures
        r@.len() == values@.len(),
        forall|i: int| 0 <= i < values@.len() ==> (#[trigger] r@[i])@ == backup_transaction_of(values@[i]@),
{
    let mut out: Vec<BackupTransaction> = Vec::new();
    let mut i: usize = 0;
    while i < values.len()
        invariant
            i <= values@.len(),
            out@.len() == i,
            forall|k: int| 0 <= k < i ==> (#[trigger] out@[k])@ == backup_transaction_of(values@[k]@),
        decreases values@.len() - i,
    {
        let value = &values[i];
        out.push(
            BackupTransaction {
                id: value.id().value(),
                account_id: value.account_id().value(),
                kind: String::from_str(kind_code_text(value.kind())),
                amount_minor: value.amount().minor_units(),
                currency: String::from_str(value.amount().currency().code()),
                occurred_at: String::from_str(value.occurred_at().as_str()),
                description: String::from_str(value.description()),
                category: String::from_str(category_code_text(value.category())),
            },
        );
        i = i + 1;
    }
    out
}

fn backup_transfers_of(values: &Vec<Transfer>) -> (r: Vec<BackupTransfer>)
    ensures
        r@.len() == values@.len(),
        forall|i: int| 0 <= i < values@.len() ==> (#[trigger] r@[i])@ == backup_transfer_of(values@[i]@),
{
    let mut out: Vec<BackupTransfer> = Vec::new();
    let mut i: usize = 0;
    while i < values.len()
        invariant
            i <= values@.len(),
            out@.len() == i,
            forall|k: int| 0 <= k < i ==> (#[trigger] out@[k])@ == backup_transfer_of(values@[k]@),
        decreases values@.len() - i,
    {
        let value = &values[i];
        out.push(
            BackupTransfer {
                id: value.id().value(),
                source_account_id: value.source_account_id().value(),
                destination_account_id: value.destination_account_id().value(),
                source_amount_minor: value.source_amount().minor_units(),
                source_currency: String::from_str(value.source_amount().currency().code()),
                destination_amount_minor: value.destination_amount().minor_units(),
                destination_currency: String::from_str(value.destination_amount().currency().code()),
                occurred_at: String::from_str(value.occurred_at().as_str()),
                description: String::from_str(value.description()),
            },
        );
        i = i + 1;
    }
    out
}

fn backup_budgets_of(values: &Vec<Budget>) -> (r: Vec<BackupBudget>)
    ensures
        r@.len() == values@.len(),
        forall|i: int| 0 <= i < values@.len() ==> (#[trigger] r@[i])@ == backup_budget_of(values@[i]@),
{
    let mut out: Vec<BackupBudget> = Vec::new();
    let mut i: usize = 0;
    while i < values.len()
        invariant
            i <= values@.len(),
            out@.len() == i,
            forall|k: int| 0 <= k < i ==> (#[trigger] out@[k])@ == backup_budget_of(values@[k]@),
        decreases values@.len() - i,
    {
        let value = &values[i];
        let month = value.month();
        out.push(
            BackupBudget {
                id: value.id().value(),
                account_id: value.account_id().value(),
                category: String::from_str(category_code_text(value.category())),
                year: month.year(),
                month: month.month(),
                limit_minor: value.limit().minor_units(),
                currency: String::from_str(value.limit().currency().code()),
            },
        );
        i = i + 1;
    }
    out
}


proof fn lemma_backs_up_transactions(
    entries: Seq<BackupTransactionView>,
    sorted: Seq<Transaction>,
    found: Seq<Transaction>,
    stored: Map<TransactionId, TransactionView>,
    listed: Seq<Account>,
    accounts: Map<AccountId, AccountView>,
)
    requires
        entries.len() == sorted.len(),
        forall|i: int| 0 <= i < sorted.len() ==> #[trigger] entries[i] == backup_transaction_of(sorted[i]@),
        strictly_increasing(sorted),
        forall|x: Transaction| #[trigger] sorted.contains(x) ==> found.contains(x),
        forall|k: int| 0 <= k < found.len() ==> holds_key(sorted, Transaction::key(#[trigger] found[k])),
        forall|x: Transaction| #[trigger]
            found.contains(x) ==> stored.contains_key(x@.id) && stored[x@.id] == x@ && lists_account(
                listed,
                x@.account_id,
            ),
        forall|id: TransactionId| #[trigger]
            stored.contains_key(id) && lists_account(listed, stored[id].account_id) ==> holds_key(found, id@),
        forall|id: AccountId| #[trigger] accounts.contains_key(id) == lists_account(listed, id),
    ensures
        backs_up_transactions(entries, stored, accounts),
{
    assert forall|i: int, j: int| 0 <= i < j < entries.len() implies (#[trigger] entries[i]).id < (
    #[trigger] entries[j]).id by {
        assert(Transaction::key(sorted[i]) < Transaction::key(sorted[j]));
    }
    assert forall|i: int| 0 <= i < entries.len() implies stored.contains_key(
        TransactionId::from_value((#[trigger] entries[i]).id),
    ) && entries[i] == backup_transaction_of(stored[TransactionId::from_value(entries[i].id)])
        && accounts.contains_key(stored[TransactionId::from_value(entries[i].id)].account_id) by {
        let x = sorted[i];
        assert(sorted.contains(x));
        assert(found.contains(x));
        TransactionId::lemma_view_injective(TransactionId::from_value(x@.id@), x@.id);
    }
    assert forall|id: TransactionId| #[trigger]
        stored.contains_key(id) && accounts.contains_key(stored[id].account_id) implies exists|i: int|
        0 <= i < entries.len() && (#[trigger] entries[i]).id == id@ by {
        assert(holds_key(found, id@));
        let k = choose|k: int| 0 <= k < found.len() && Transaction::key(#[trigger] found[k]) == id@;
        assert(holds_key(sorted, Transaction::key(found[k])));
        let i = choose|i: int| 0 <= i < sorted.len() && Transaction::key(#[trigger] sorted[i]) == id@;
        assert(entries[i].id == id@);
    }
}

proof fn lemma_backs_up_transfers(
    entries: Seq<BackupTransferView>,
    sorted: Seq<Transfer>,
    found: Seq<Transfer>,
    stored: Map<TransferId, TransferView>,
    listed: Seq<Account>,
    accounts: Map<AccountId, AccountView>,
)
    requires
        entries.len() == sorted.len(),
        forall|i: int| 0 <= i < sorted.len() ==> #[trigger] entries[i] == backup_transfer_of(sorted[i]@),
        strictly_increasing(sorted),
        forall|x: Transfer| #[trigger] sorted.contains(x) ==> found.contains(x),
        forall|k: int| 0 <= k < found.len() ==> holds_key(sorted, Transfer::key(#[trigger] found[k])),
        forall|x: Transfer| #[trigger]
            found.contains(x) ==> stored.contains_key(x@.id) && stored[x@.id] == x@ && (lists_account(
                listed,
                x@.source_account_id,
            ) || lists_account(listed, x@.destination_account_id)),
        forall|id: TransferId| #[trigger]
            stored.contains_key(id) && (lists_account(listed, stored[id].source_account_id) || lists_account(
                listed,
                stored[id].destination_account_id,
            )) ==> holds_key(found, id@),
        forall|id: AccountId| #[trigger] accounts.contains_key(id) == lists_account(listed, id),
    ensures
        backs_up_transfers(entries, stored, accounts),
{
    assert forall|i: int, j: int| 0 <= i < j < entries.len() implies (#[trigger] entries[i]).id < (
    #[trigger] entries[j]).id by {
        assert(Transfer::key(sorted[i]) < Transfer::key(sorted[j]));
    }
    assert forall|i: int| 0 <= i < entries.len() implies stored.contains_key(
        TransferId::from_value((#[trigger] entries[i]).id),
    ) && entries[i] == backup_transfer_of(stored[TransferId::from_value(entries[i].id)]) && (
    accounts.contains_key(stored[TransferId::from_value(entries[i].id)].source_account_id)
        || accounts.contains_key(stored[TransferId::from_value(entries[i].id)].destination_account_id)) by {
        let x = sorted[i];
        assert(sorted.contains(x));
        assert(found.contains(x));
        TransferId::lemma_view_injective(TransferId::from_value(x@.id@), x@.id);
    }
    assert forall|id: TransferId| #[trigger]
        stored.contains_key(id) && (accounts.contains_key(stored[id].source_account_id)
            || accounts.contains_key(stored[id].destination_account_id)) implies exists|i: int|
        0 <= i < entries.len() && (#[trigger] entries[i]).id == id@ by {
        assert(holds_key(found, id@));
        let k = choose|k: int| 0 <= k < found.len() && Transfer::key(#[trigger] found[k]) == id@;
        assert(holds_key(sorted, Transfer::key(found[k])));
        let i = choose|i: int| 0 <= i < sorted.len() && Transfer::key(#[trigger] sorted[i]) == id@;
        assert(entries[i].id == id@);
    }
}

proof fn lemma_backs_up_budgets(
    entries: Seq<BackupBudgetView>,
    sorted: Seq<Budget>,
    found: Seq<Budget>,
    stored: Map<BudgetId, BudgetView>,
    listed: Seq<Account>,
    accounts: Map<AccountId, AccountView>,
)
    requires
        entries.len() == sorted.len(),
        forall|i: int| 0 <= i < sorted.len() ==> #[trigger] entries[i] == backup_budget_of(sorted[i]@),
        strictly_increasing(sorted),
        forall|x: Budget| #[trigger] sorted.contains(x) ==> found.contains(x),
        forall|k: int| 0 <= k < found.len() ==> holds_key(sorted, Budget::key(#[trigger] found[k])),
        forall|x: Budget| #[trigger]
            found.contains(x) ==> stored.contains_key(x@.id) && stored[x@.id] == x@ && lists_account(
                listed,
                x@.account_id,
            ),
        forall|id: BudgetId| #[trigger]
            stored.contains_key(id) && lists_account(listed, stored[id].account_id) ==> holds_key(found, id@),
        forall|id: AccountId| #[trigger] accounts.contains_key(id) == lists_account(listed, id),
    ensures
        backs_up_budgets(entries, stored, accounts),
{
    assert forall|i: int, j: int| 0 <= i < j < entries.len() implies (#[trigger] entries[i]).id < (
    #[trigger] entries[j]).id by {
        assert(Budget::key(sorted[i]) < Budget::key(sorted[j]));
    }
    assert forall|i: int| 0 <= i < entries.len() implies stored.contains_key(
        BudgetId::from_value((#[trigger] entries[i]).id),
    ) && entries[i] == backup_budget_of(stored[BudgetId::from_value(entries[i].id)])
        && accounts.contains_key(stored[BudgetId::from_value(entries[i].id)].account_id) by {
        let x = sorted[i];
        assert(sorted.contains(x));
        assert(found.contains(x));
        BudgetId::lemma_view_injective(BudgetId::from_value(x@.id@), x@.id);
    }
    assert forall|id: BudgetId| #[trigger]
        stored.contains_key(id) && accounts.contains_key(stored[id].account_id) implies exists|i: int|
        0 <= i < entries.len() && (#[trigger] entries[i]).id == id@ by {
        assert(holds_key(found, id@));
        let k = choose|k: int| 0 <= k < found.len() && Budget::key(#[trigger] found[k]) == id@;
        assert(holds_key(sorted, Budget::key(found[k])));
        let i = choose|i: int| 0 <= i < sorted.len() && Budget::key(#[trigger] sorted[i]) == id@;
        assert(entries[i].id == id@);
    }
}

proof fn lemma_backs_up_accounts(
    entries: Seq<BackupAccountView>,
    sorted: Seq<Account>,
    found: Seq<Account>,
    stored: Map<AccountId, AccountView>,
)
    requires
        entries.len() == sorted.len(),
        forall|i: int| 0 <= i < sorted.len() ==> #[trigger] entries[i] == backup_account_of(sorted[i]@),
        strictly_increasing(sorted),
        forall|x: Account| #[trigger] sorted.contains(x) ==> found.contains(x),
        forall|k: int| 0 <= k < found.len() ==> holds_key(sorted, Account::key(#[trigger] found[k])),
        lists_accounts(accounts_view(found), stored),
    ensures
        backs_up_accounts(entries, stored),
        forall|id: AccountId| #[trigger] stored.contains_key(id) == lists_account(sorted, id),
{
    assert forall|i: int, j: int| 0 <= i < j < entries.len() implies (#[trigger] entries[i]).id < (
    #[trigger] entries[j]).id by {
        assert(Account::key(sorted[i]) < Account::key(sorted[j]));
    }
    assert forall|x: Account| #[trigger] sorted.contains(x) implies stored.contains_key(x@.id)
        && stored[x@.id] == x@ by {
        assert(found.contains(x));
        let k = choose|k: int| 0 <= k < found.len() && found[k] == x;
        assert(accounts_view(found)[k] == x@);
    }
    assert forall|i: int| 0 <= i < entries.len() implies stored.contains_key(
        AccountId::from_value((#[trigger] entries[i]).id),
    ) && entries[i] == backup_account_of(stored[AccountId::from_value(entries[i].id)]) by {
        let x = sorted[i];
        assert(sorted.contains(x));
        AccountId::lemma_view_injective(AccountId::from_value(x@.id@), x@.id);
    }
    assert forall|id: AccountId| #[trigger] stored.contains_key(id) implies exists|i: int|
        0 <= i < sorted.len() && (#[trigger] sorted[i])@.id == id by {
        let k = choose|k: int| 0 <= k < accounts_view(found).len() && (#[trigger] accounts_view(found)[k]).id == id;
        assert(accounts_view(found)[k] == found[k]@);
        assert(holds_key(sorted, Account::key(found[k])));
        let i = choose|i: int| 0 <= i < sorted.len() && Account::key(#[trigger] sorted[i]) == id@;
        AccountId::lemma_view_injective(sorted[i]@.id, id);
    }
    assert forall|id: AccountId| #[trigger] stored.contains_key(id) implies exists|i: int|
        0 <= i < entries.len() && (#[trigger] entries[i]).id == id@ by {
        let i = choose|i: int| 0 <= i < sorted.len() && (#[trigger] sorted[i])@.id == id;
        assert(entries[i].id == id@);
    }
    assert forall|id: AccountId| lists_account(sorted, id) implies #[trigger] stored.contains_key(id) by {
        let j = choose|j: int| 0 <= j < sorted.len() && (#[trigger] sorted[j])@.id == id;
        assert(sorted.contains(sorted[j]));
    }
}

/// Collects everything the repositories hold into a backup document: the accounts, the
/// transactions and budgets of those accounts, and the transfers that involve them, each
/// list in ascending identifier order and each value once.
pub fn create_backup_document<
    A: AccountRepository,
    T: TransactionRepository,
    R: TransferRepository,
    B: BudgetRepository,
>(accounts: &A, transactions: &T, transfers: &R, budgets: &B) -> (r: Result<BackupDocument, BackupError>)
    ensures
        match r {
            Ok(document) => {
                &&& document@.format_version == BACKUP_FORMAT_VERSION
                &&& backs_up_accounts(document@.accounts, accounts.accounts())
                &&& backs_up_transactions(
                    document@.transactions,
                    transactions.transactions(),
                    accounts.accounts(),
                )
                &&& backs_up_transfers(document@.transfers, transfers.transfers(), accounts.accounts())
                &&& backs_up_budgets(document@.budgets, budgets.budgets(), accounts.accounts())
            },
            Err(error) => error is Repository,
        },
{
    let found = match accounts.find_all() {
        Ok(found) => found,
        Err(error) => return Err(BackupError::Repository(error)),
    };
    let ghost found_accounts = found@;
    let listed = sorted_unique_by_id(found);
    let account_entries = backup_accounts_of(&listed);
    proof {
        lemma_backs_up_accounts(
            account_entries@.map_values(|value: BackupAccount| value@),
            listed@,
            found_accounts,
            accounts.accounts(),
        );
    }
    let all_transactions = match collect_transactions(transactions, &listed) {
        Ok(found) => found,
        Err(error) => return Err(BackupError::Repository(error)),
    };
    let ghost found_transactions = all_transactions@;
    let sorted_transactions = sorted_unique_by_id(all_transactions);
    let transaction_entries = backup_transactions_of(&sorted_transactions);
    proof {
        lemma_backs_up_transactions(
            transaction_entries@.map_values(|value: BackupTransaction| value@),
            sorted_transactions@,
            found_transactions,
            transactions.transactions(),
            listed@,
            accounts.accounts(),
        );
    }
    let all_transfers = match collect_transfers(transfers, &listed) {
        Ok(found) => found,
        Err(error) => return Err(BackupError::Repository(error)),
    };
    let ghost found_transfers = all_transfers@;
    let sorted_transfers = sorted_unique_by_id(all_transfers);
    let transfer_entries = backup_transfers_of(&sorted_transfers);
    proof {
        lemma_backs_up_transfers(
            transfer_entries@.map_values(|value: BackupTransfer| value@),
            sorted_transfers@,
            found_transfers,
            transfers.transfers(),
            listed@,
            accounts.accounts(),
        );
    }
    let all_budgets = match collect_budgets(budgets, &listed) {
        Ok(found) => found,
        Err(error) => return Err(BackupError::Repository(error)),
    };
    let ghost found_budgets = all_budgets@;
    let sorted_budgets = sorted_unique_by_id(all_budgets);
    let budget_entries = backup_budgets_of(&sorted_budgets);
    proof {
        lemma_backs_up_budgets(
            budget_entries@.map_values(|value: BackupBudget| value@),
            sorted_budgets@,
            found_budgets,
            budgets.budgets(),
            listed@,
            accounts.accounts(),
        );
    }
    Ok(
        BackupDocument {
            format_version: BACKUP_FORMAT_VERSION,
            accounts: account_entries,
            transactions: transaction_entries,
            transfers: transfer_entries,
            budgets: budget_entries,
        },
    )
}

} // verus!
