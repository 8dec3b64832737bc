use ledger_rs::application::reconcile_balance::reconcile_listed;
use ledger_rs::domain::account::Account;
use ledger_rs::domain::transaction::{Transaction, TransactionId};
use ledger_rs::application::reconcile_balance::{ReconcileError, reconcile_balance};
use ledger_rs::application::repository::{AccountRepository, TransactionRepository, TransferRepository};
use ledger_rs::domain::account::{AccountId, BalanceAdjustmentKind, NewAccount};
use ledger_rs::domain::balance::BalanceError;
use ledger_rs::domain::money::{Currency, Money};
use ledger_rs::domain::time::ZonedTime;
use ledger_rs::domain::transaction::{Category, NewTransaction, TransactionKind};
use ledger_rs::domain::transfer::NewTransfer;
use ledger_rs::infrastructure::in_memory::{
    InMemoryAccountRepository, InMemoryTransactionRepository, InMemoryTransferRepository,
};

fn time(text: &str) -> ZonedTime {
    text.parse().unwrap()
}

fn setup() -> (
    InMemoryAccountRepository,
    InMemoryTransactionRepository,
    InMemoryTransferRepository,
    AccountId,
    AccountId,
) {
    let mut accounts = InMemoryAccountRepository::new();
    let cash = accounts
        .create(NewAccount::new("Cash".to_string(), Currency::Cny).unwrap())
        .unwrap();
    let bank = accounts
        .create(NewAccount::new("Bank".to_string(), Currency::Cny).unwrap())
        .unwrap();
    (
        accounts,
        InMemoryTransactionRepository::new(),
        InMemoryTransferRepository::new(),
        cash.id(),
        bank.id(),
    )
}

#[test]
fn records_opening_balance_before_any_activity() {
    let (mut accounts, transactions, transfers, cash, _) = setup();
    let adjustment = reconcile_balance(
        &mut accounts,
        &transactions,
        &transfers,
        cash,
        Money::from_minor_units(5_000, Currency::Cny),
        time("2026-08-01T00:00:00+08:00[Asia/Shanghai]"),
        "Opening".to_string(),
        BalanceAdjustmentKind::Opening,
    )
    .unwrap();

    assert_eq!(adjustment.amount_minor, 5_000);
    assert_eq!(adjustment.currency, "CNY");
    assert_eq!(adjustment.kind, BalanceAdjustmentKind::Opening);
    let stored = accounts.find_by_id(cash).unwrap().unwrap();
    assert_eq!(stored.adjustments().len(), 1);
    assert_eq!(stored.adjustments()[0], adjustment);
}

#[test]
fn refuses_a_second_opening_and_an_opening_after_activity() {
    let (mut accounts, mut transactions, transfers, cash, _) = setup();
    reconcile_balance(
        &mut accounts,
        &transactions,
        &transfers,
        cash,
        Money::from_minor_units(100, Currency::Cny),
        time("2026-08-01T00:00:00+08:00[Asia/Shanghai]"),
        "Opening".to_string(),
        BalanceAdjustmentKind::Opening,
    )
    .unwrap();
    assert_eq!(
        reconcile_balance(
            &mut accounts,
            &transactions,
            &transfers,
            cash,
            Money::from_minor_units(100, Currency::Cny),
            time("2026-08-01T00:00:00+08:00[Asia/Shanghai]"),
            "Opening again".to_string(),
            BalanceAdjustmentKind::Opening,
        ),
        Err(ReconcileError::OpeningAlreadySet)
    );

    let (mut accounts, _, transfers, cash, _) = setup();
    transactions
        .create(
            NewTransaction::new(
                cash,
                TransactionKind::Income,
                Money::from_minor_units(300, Currency::Cny),
                time("2026-07-31T12:00:00+08:00[Asia/Shanghai]"),
                "Salary".to_string(),
                Category::Salary,
            )
            .unwrap(),
        )
        .unwrap();
    assert_eq!(
        reconcile_balance(
            &mut accounts,
            &transactions,
            &transfers,
            cash,
            Money::from_minor_units(100, Currency::Cny),
            time("2026-08-01T00:00:00+08:00[Asia/Shanghai]"),
            "Opening".to_string(),
            BalanceAdjustmentKind::Opening,
        ),
        Err(ReconcileError::OpeningAfterActivity)
    );
}

#[test]
fn reconciles_against_activity_up_to_the_adjustment_time() {
    let (mut accounts, mut transactions, mut transfers, cash, bank) = setup();
    transactions
        .create(
            NewTransaction::new(
                cash,
                TransactionKind::Income,
                Money::from_minor_units(1_000, Currency::Cny),
                time("2026-08-02T12:00:00+08:00[Asia/Shanghai]"),
                "Salary".to_string(),
                Category::Salary,
            )
            .unwrap(),
        )
        .unwrap();
    transactions
        .create(
            NewTransaction::new(
                cash,
                TransactionKind::Expense,
                Money::from_minor_units(400, Currency::Cny),
                time("2026-08-20T12:00:00+08:00[Asia/Shanghai]"),
                "Later dinner".to_string(),
                Category::Food,
            )
            .unwrap(),
        )
        .unwrap();
    transfers
        .create(
            NewTransfer::new(
                cash,
                bank,
                Money::from_minor_units(300, Currency::Cny),
                Money::from_minor_units(300, Currency::Cny),
                time("2026-08-05T12:00:00+08:00[Asia/Shanghai]"),
                "Deposit".to_string(),
            )
            .unwrap(),
        )
        .unwrap();

    let adjustment = reconcile_balance(
        &mut accounts,
        &transactions,
        &transfers,
        cash,
        Money::from_minor_units(650, Currency::Cny),
        time("2026-08-10T00:00:00+08:00[Asia/Shanghai]"),
        "Counted cash".to_string(),
        BalanceAdjustmentKind::Reconciliation,
    )
    .unwrap();

    assert_eq!(adjustment.amount_minor, -50);
    assert_eq!(adjustment.description, "Counted cash");
}

#[test]
fn rejects_unknown_accounts_and_foreign_currencies() {
    let (mut accounts, transactions, transfers, cash, _) = setup();
    assert_eq!(
        reconcile_balance(
            &mut accounts,
            &transactions,
            &transfers,
            AccountId::new(99),
            Money::from_minor_units(1, Currency::Cny),
            time("2026-08-01T00:00:00+08:00[Asia/Shanghai]"),
            "Missing".to_string(),
            BalanceAdjustmentKind::Reconciliation,
        ),
        Err(ReconcileError::AccountNotFound(AccountId::new(99)))
    );
    assert_eq!(
        reconcile_balance(
            &mut accounts,
            &transactions,
            &transfers,
            cash,
            Money::from_minor_units(1, Currency::Usd),
            time("2026-08-01T00:00:00+08:00[Asia/Shanghai]"),
            "Dollars".to_string(),
            BalanceAdjustmentKind::Reconciliation,
        ),
        Err(ReconcileError::Balance(BalanceError::CurrencyMismatch {
            expected: Currency::Cny,
            found: Currency::Usd,
        }))
    );
    assert!(accounts.find_by_id(cash).unwrap().unwrap().adjustments().is_empty());
}

#[test]
fn reconciles_listed_activity_up_to_the_adjustment_time() {
    let account = Account::new(AccountId::new(1), "Cash".to_string(), Currency::Cny).unwrap();
    let income = |id: u64, at: &str| {
        Transaction::new(
            TransactionId::new(id),
            AccountId::new(1),
            TransactionKind::Income,
            Money::from_minor_units(1_000, Currency::Cny),
            time(at),
            "Salary".to_string(),
            Category::Salary,
        )
        .unwrap()
    };
    let listed = vec![
        income(1, "2026-08-01T00:00:00+08:00[Asia/Shanghai]"),
        income(2, "2026-08-20T00:00:00+08:00[Asia/Shanghai]"),
    ];
    let adjustment = reconcile_listed(
        &account,
        &listed,
        &Vec::new(),
        Money::from_minor_units(1_200, Currency::Cny),
        &time("2026-08-10T00:00:00+08:00[Asia/Shanghai]"),
        "Count".to_string(),
        BalanceAdjustmentKind::Reconciliation,
    )
    .unwrap();
    assert_eq!(adjustment.amount_minor, 200);
    assert_eq!(
        reconcile_listed(
            &account,
            &listed,
            &Vec::new(),
            Money::from_minor_units(1_200, Currency::Cny),
            &time("2026-08-10T00:00:00+08:00[Asia/Shanghai]"),
            "Opening".to_string(),
            BalanceAdjustmentKind::Opening,
        ),
        Err(ReconcileError::OpeningAfterActivity)
    );
    assert_eq!(
        reconcile_listed(
            &account,
            &listed,
            &Vec::new(),
            Money::from_minor_units(1_200, Currency::Usd),
            &time("2026-08-10T00:00:00+08:00[Asia/Shanghai]"),
            "Count".to_string(),
            BalanceAdjustmentKind::Reconciliation,
        ),
        Err(ReconcileError::Balance(BalanceError::CurrencyMismatch {
            expected: Currency::Cny,
            found: Currency::Usd,
        }))
    );
}
