use ledger_rs::application::csv_exchange::{parse_csv, plan_import};
use ledger_rs::domain::account::{Account, AccountId};
use ledger_rs::domain::time::ZonedTime;
use ledger_rs::application::csv_exchange::{CsvExchangeError, export_transactions_csv, import_transactions_csv, parse_decimal_minor};
use ledger_rs::application::list_transactions::TransactionFilter;
use ledger_rs::application::repository::{AccountRepository, TransactionRepository};
use ledger_rs::domain::account::NewAccount;
use ledger_rs::domain::money::Currency;
use ledger_rs::infrastructure::in_memory::{InMemoryAccountRepository, InMemoryTransactionRepository};

const HEADER: [&str; 7] = [
    "account_id",
    "kind",
    "amount_minor",
    "currency",
    "occurred_at",
    "description",
    "category",
];

const USER_HEADER: [&str; 7] = [
    "account",
    "kind",
    "amount",
    "currency",
    "occurred_at",
    "description",
    "category",
];

#[test]
fn user_format_imports_exact_amounts_and_native_export_round_trips() {
    let mut accounts = InMemoryAccountRepository::new();
    let mut transactions = InMemoryTransactionRepository::new();
    let account = accounts
        .create(NewAccount::new("Cash".into(), Currency::Cny).unwrap())
        .unwrap();
    let input = format!(
        "{}\nCash,expense,12.50,CNY,2026-08-20T10:00:00+08:00[Asia/Shanghai],Lunch,food\nCash,income,7.8,CNY,2026-08-20T10:00:00+08:00[Asia/Shanghai],Pay,salary\n",
        USER_HEADER.join(",")
    );
    let created = import_transactions_csv(&accounts, &mut transactions, &input).unwrap();
    assert_eq!(created[0].amount().minor_units(), 1250);
    assert_eq!(created[1].amount().minor_units(), 780);
    let exported = export_transactions_csv(
        &accounts,
        &transactions,
        account.id(),
        TransactionFilter::default(),
    )
    .unwrap();
    assert!(exported.starts_with(&HEADER.join(",")));
    assert_eq!(
        import_transactions_csv(&accounts, &mut transactions, &exported)
            .unwrap()
            .len(),
        2
    );
}

#[test]
fn invalid_user_rows_leave_sqlite_unchanged() {
    let mut accounts = InMemoryAccountRepository::new();
    let mut transactions = InMemoryTransactionRepository::new();
    let account = accounts
        .create(NewAccount::new("Cash".into(), Currency::Cny).unwrap())
        .unwrap();
    for (name, amount, currency, expected) in [
        ("Missing", "1", "CNY", "unknown account name"),
        ("Cash", "1.001", "CNY", "invalid amount"),
        ("Cash", "-1", "CNY", "invalid amount"),
        ("Cash", "0", "CNY", "invalid transaction"),
        ("Cash", "NaN", "CNY", "invalid amount"),
        ("Cash", "92233720368547758.08", "CNY", "invalid amount"),
        ("Cash", "1", "USD", "currency does not match account"),
    ] {
        let input = format!(
            "{}\nCash,expense,1,CNY,2026-08-20T10:00:00+08:00[Asia/Shanghai],Good,food\n{name},expense,{amount},{currency},2026-08-20T10:00:00+08:00[Asia/Shanghai],Bad,food\n",
            USER_HEADER.join(",")
        );
        match import_transactions_csv(&accounts, &mut transactions, &input).unwrap_err() {
            CsvExchangeError::InvalidRow { line, message } => {
                assert_eq!(line, 3);
                assert!(message.starts_with(expected), "{message}");
            }
            error => panic!("unexpected error: {error:?}"),
        }
        assert!(
            transactions
                .find_by_account_id(account.id())
                .unwrap()
                .is_empty()
        );
    }
}

#[test]
fn duplicate_names_are_ambiguous_even_with_different_currencies() {
    let mut accounts = InMemoryAccountRepository::new();
    for currency in [Currency::Cny, Currency::Usd] {
        accounts
            .create(NewAccount::new("Cash".into(), currency).unwrap())
            .unwrap();
    }
    let mut transactions = InMemoryTransactionRepository::new();
    let input = format!(
        "{}\nCash,expense,1,CNY,2026-08-20T10:00:00+08:00[Asia/Shanghai],Lunch,food\n",
        USER_HEADER.join(",")
    );
    assert_eq!(
        import_transactions_csv(&accounts, &mut transactions, &input),
        Err(CsvExchangeError::InvalidRow {
            line: 2,
            message: "ambiguous account name".into()
        })
    );
}

#[test]
fn decimal_parser_checks_precision_and_overflow() {
    assert_eq!(parse_decimal_minor("92233720368547758.07"), Some(i64::MAX));
    for value in [
        "",
        ".1",
        "1.",
        "1.234",
        "1e2",
        " 1",
        "+1",
        "1,000",
        "92233720368547758.08",
    ] {
        assert_eq!(parse_decimal_minor(value), None, "{value}");
    }
}

#[test]
fn round_trips_quoted_unicode_csv() {
    let mut accounts = InMemoryAccountRepository::new();
    let account = accounts
        .create(NewAccount::new("Cash".to_string(), Currency::Cny).unwrap())
        .unwrap();
    let mut transactions = InMemoryTransactionRepository::new();
    let input = "account_id,kind,amount_minor,currency,occurred_at,description,category\n1,expense,1250,CNY,2026-08-20T10:00:00+08:00[Asia/Shanghai],\"晚餐, \"\"朋友\"\"\",food\n";
    let created = import_transactions_csv(&accounts, &mut transactions, input).unwrap();
    assert_eq!(created[0].description(), "晚餐, \"朋友\"");
    let output = export_transactions_csv(
        &accounts,
        &transactions,
        account.id(),
        TransactionFilter::default(),
    )
    .unwrap();
    assert!(output.contains("\"晚餐, \"\"朋友\"\"\""));
}

#[test]
fn invalid_later_row_writes_nothing() {
    let mut accounts = InMemoryAccountRepository::new();
    let account = accounts
        .create(NewAccount::new("Cash".to_string(), Currency::Cny).unwrap())
        .unwrap();
    let mut transactions = InMemoryTransactionRepository::new();
    let input = "account_id,kind,amount_minor,currency,occurred_at,description,category\n1,expense,100,CNY,2026-08-20T10:00:00+08:00[Asia/Shanghai],Lunch,food\n1,expense,broken,CNY,2026-08-20T10:00:00+08:00[Asia/Shanghai],Dinner,food\n";
    assert_eq!(
        import_transactions_csv(&accounts, &mut transactions, input),
        Err(CsvExchangeError::InvalidRow {
            line: 3,
            message: "invalid amount_minor".to_string(),
        })
    );
    assert!(
        transactions
            .find_by_account_id(account.id())
            .unwrap()
            .is_empty()
    );
}

#[test]
fn rejects_an_empty_file_with_a_specific_error() {
    let accounts = InMemoryAccountRepository::new();
    let mut transactions = InMemoryTransactionRepository::new();

    assert_eq!(
        import_transactions_csv(&accounts, &mut transactions, ""),
        Err(CsvExchangeError::InvalidHeader)
    );
}

#[test]
fn plans_rows_against_listed_accounts_and_given_readings() {
    let rows = parse_csv(
        "account_id,kind,amount_minor,currency,occurred_at,description,category\n\
         1,expense,1250,cny,2026-08-14T12:00:00+08:00[Asia/Shanghai],Lunch,food\n\
         1,expense,300,cny,2026-08-14T13:00:00+08:00[Asia/Shanghai],Tea,food\n",
    )
    .unwrap();
    let accounts = vec![Account::new(AccountId::new(1), "Cash".to_string(), Currency::Cny).unwrap()];
    let read = |text: &str| text.parse::<ZonedTime>();
    let readings = vec![
        read("2026-08-14T12:00:00+08:00[Asia/Shanghai]"),
        read("2026-08-14T13:00:00+08:00[Asia/Shanghai]"),
    ];
    let plan = plan_import(&rows, &accounts, &readings).unwrap();
    assert_eq!(plan.len(), 2);
    assert_eq!(plan[1].amount().minor_units(), 300);

    let unread = vec![read("2026-08-14T12:00:00+08:00[Asia/Shanghai]"), Err(String::new())];
    assert_eq!(
        plan_import(&rows, &accounts, &unread),
        Err(CsvExchangeError::InvalidRow { line: 3, message: "invalid occurred_at".to_string() })
    );
    assert_eq!(
        plan_import(&rows, &Vec::new(), &readings),
        Err(CsvExchangeError::InvalidRow { line: 2, message: "account not found".to_string() })
    );
}
