use ledger_rs::application::manage_transfer::{ManageTransferError, TransferChanges, create_transfer, delete_transfer, get_transfer, list_account_transfers, update_transfer};
use ledger_rs::application::repository::{AccountRepository, TransferRepository};
use ledger_rs::domain::account::NewAccount;
use ledger_rs::domain::money::{Currency, Money};
use ledger_rs::domain::transfer::NewTransfer;
use ledger_rs::infrastructure::in_memory::{InMemoryAccountRepository, InMemoryTransferRepository};

#[test]
fn creates_updates_lists_and_deletes_transfer() {
    let mut accounts = InMemoryAccountRepository::new();
    let source = accounts
        .create(NewAccount::new("CNY".to_string(), Currency::Cny).unwrap())
        .unwrap();
    let destination = accounts
        .create(NewAccount::new("USD".to_string(), Currency::Usd).unwrap())
        .unwrap();
    let mut transfers = InMemoryTransferRepository::new();
    let created = create_transfer(
        &accounts,
        &mut transfers,
        NewTransfer::new(
            source.id(),
            destination.id(),
            Money::from_minor_units(700, Currency::Cny),
            Money::from_minor_units(100, Currency::Usd),
            "2026-08-20T10:00:00+08:00[Asia/Shanghai]".parse().unwrap(),
            "Exchange".to_string(),
        )
        .unwrap(),
    )
    .unwrap();
    let updated = update_transfer(
        &accounts,
        &mut transfers,
        created.id(),
        TransferChanges {
            description: Some("Travel exchange".to_string()),
            ..TransferChanges::default()
        },
    )
    .unwrap();
    assert_eq!(updated.description(), "Travel exchange");
    assert_eq!(
        list_account_transfers(&accounts, &transfers, source.id()).unwrap(),
        vec![updated]
    );
    delete_transfer(&mut transfers, created.id()).unwrap();
    assert_eq!(
        get_transfer(&transfers, created.id()),
        Err(ManageTransferError::TransferNotFound(created.id()))
    );
}

#[test]
fn validates_account_currencies() {
    let mut accounts = InMemoryAccountRepository::new();
    let source = accounts
        .create(NewAccount::new("CNY".to_string(), Currency::Cny).unwrap())
        .unwrap();
    let destination = accounts
        .create(NewAccount::new("USD".to_string(), Currency::Usd).unwrap())
        .unwrap();
    let mut transfers = InMemoryTransferRepository::new();
    let result = create_transfer(
        &accounts,
        &mut transfers,
        NewTransfer::new(
            source.id(),
            destination.id(),
            Money::from_minor_units(100, Currency::Usd),
            Money::from_minor_units(100, Currency::Usd),
            "2026-08-20T10:00:00+08:00[Asia/Shanghai]".parse().unwrap(),
            "Wrong source".to_string(),
        )
        .unwrap(),
    );
    assert_eq!(
        result,
        Err(ManageTransferError::CurrencyMismatch {
            account_id: source.id(),
            expected: Currency::Cny,
            found: Currency::Usd,
        })
    );
}
