use ledger_rs::application::backup::{BackupAccount, BackupDocument, BackupError, BackupTransaction, create_backup_document, validate_backup_document};
use ledger_rs::application::repository::{AccountRepository, BudgetRepository, TransactionRepository, TransferRepository};
use ledger_rs::domain::account::NewAccount;
use ledger_rs::domain::budget::{BudgetId, BudgetMonth, NewBudget};
use ledger_rs::domain::money::{Currency, Money};
use ledger_rs::domain::time::ZonedTime;
use ledger_rs::domain::transaction::{Category, NewTransaction, TransactionId, TransactionKind};
use ledger_rs::domain::transfer::{NewTransfer, TransferId};
use ledger_rs::infrastructure::in_memory::{InMemoryAccountRepository, InMemoryBudgetRepository, InMemoryTransactionRepository, InMemoryTransferRepository};

fn occurred_at() -> ZonedTime {
    "2026-08-20T10:00:00+08:00[Asia/Shanghai]".parse().unwrap()
}

#[test]
fn round_trips_all_aggregate_types_and_ids() {
    let mut accounts = InMemoryAccountRepository::new();
    let source = accounts
        .create(NewAccount::new("现金".to_string(), Currency::Cny).unwrap())
        .unwrap();
    let destination = accounts
        .create(NewAccount::new("Bank".to_string(), Currency::Usd).unwrap())
        .unwrap();
    let mut transactions = InMemoryTransactionRepository::new();
    transactions
        .create(
            NewTransaction::new(
                source.id(),
                TransactionKind::Expense,
                Money::from_minor_units(1250, Currency::Cny),
                occurred_at(),
                "Dinner".to_string(),
                Category::Food,
            )
            .unwrap(),
        )
        .unwrap();
    let mut transfers = InMemoryTransferRepository::new();
    transfers
        .create(
            NewTransfer::new(
                source.id(),
                destination.id(),
                Money::from_minor_units(700, Currency::Cny),
                Money::from_minor_units(100, Currency::Usd),
                occurred_at(),
                "Exchange".to_string(),
            )
            .unwrap(),
        )
        .unwrap();
    let mut budgets = InMemoryBudgetRepository::new();
    budgets
        .set(
            NewBudget::new(
                source.id(),
                Category::Food,
                BudgetMonth::new(2026, 8).unwrap(),
                Money::from_minor_units(5000, Currency::Cny),
            )
            .unwrap(),
        )
        .unwrap();

    let document = create_backup_document(&accounts, &transactions, &transfers, &budgets).unwrap();
    let restored = validate_backup_document(&document).unwrap();

    assert_eq!(restored.accounts().len(), 2);
    assert_eq!(restored.transactions()[0].id(), TransactionId::new(1));
    assert_eq!(restored.transfers()[0].id(), TransferId::new(1));
    assert_eq!(restored.budgets()[0].id(), BudgetId::new(1));
    assert_eq!(
        restored.transactions()[0].occurred_at().time_zone_name(),
        Some("Asia/Shanghai")
    );
}

fn empty_document(format_version: u32) -> BackupDocument {
    BackupDocument {
        format_version,
        accounts: vec![],
        transactions: vec![],
        transfers: vec![],
        budgets: vec![],
    }
}

fn account_entry(id: u64, name: &str) -> BackupAccount {
    BackupAccount { id, name: name.to_string(), currency: "CNY".to_string() }
}

#[test]
fn rejects_unknown_version_duplicate_ids_and_broken_references() {
    assert_eq!(
        validate_backup_document(&empty_document(2)),
        Err(BackupError::UnknownVersion(2))
    );

    let mut duplicate = empty_document(1);
    duplicate.accounts = vec![account_entry(1, "A"), account_entry(1, "B")];
    assert_eq!(
        validate_backup_document(&duplicate),
        Err(BackupError::DuplicateId {
            entity: "account",
            id: 1
        })
    );

    let mut broken = empty_document(1);
    broken.transactions = vec![BackupTransaction {
        id: 9,
        account_id: 42,
        kind: "expense".to_string(),
        amount_minor: 1,
        currency: "CNY".to_string(),
        occurred_at: "2026-08-20T10:00:00+08:00[Asia/Shanghai]".to_string(),
        description: "x".to_string(),
        category: "food".to_string(),
    }];
    assert_eq!(
        validate_backup_document(&broken),
        Err(BackupError::MissingAccountReference {
            entity: "transaction",
            id: 9,
            account_id: 42
        })
    );
}
