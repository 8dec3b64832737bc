use ledger_rs::cli::{
    CategoryArg, CliError, CurrencyArg, TransactionKindArg, merged_amount, parse_budget_month,
    parse_occurred_at,
    parse_transaction_cursor, transaction_cursor_from_reading,
};
use ledger_rs::domain::budget::{BudgetError, BudgetMonth};
use ledger_rs::domain::money::{Currency, Money};
use ledger_rs::domain::time::ZonedTime;
use ledger_rs::domain::transaction::{Category, TransactionKind};

#[test]
fn reads_budget_months() {
    assert_eq!(
        parse_budget_month("2026-08"),
        Ok(BudgetMonth::new(2026, 8).unwrap())
    );
    assert_eq!(
        parse_budget_month("2026-13"),
        Err(CliError::Budget(BudgetError::InvalidMonth {
            year: 2026,
            month: 13
        }))
    );
    for input in ["2026", "2026-", "-08", "2026-256", "twenty-08", "2026-8x"] {
        assert_eq!(
            parse_budget_month(input),
            Err(CliError::InvalidMonth(input.to_string())),
            "{input}"
        );
    }
}

#[test]
fn reads_page_cursors_at_their_last_bar() {
    let cursor = parse_transaction_cursor("2026-08-15T12:00:40+08:00[Asia/Shanghai]|4").unwrap();
    assert_eq!(cursor.id, 4);
    assert_eq!(
        cursor.occurred_at,
        "2026-08-15T12:00:40+08:00[Asia/Shanghai]"
            .parse::<ZonedTime>()
            .unwrap()
    );
    for input in ["no bar", "2026-08-15T12:00:40+08:00[Asia/Shanghai]|x", "bad|4"] {
        assert_eq!(
            parse_transaction_cursor(input),
            Err(CliError::InvalidCursor(input.to_string()))
        );
    }
}

#[test]
fn a_cursor_with_an_unreadable_time_is_invalid() {
    assert_eq!(
        transaction_cursor_from_reading("anything|4", Err("refused".to_string())),
        Err(CliError::InvalidCursor("anything|4".to_string()))
    );
    let time: ZonedTime = "2026-08-15T12:00:40+08:00[Asia/Shanghai]".parse().unwrap();
    let cursor = transaction_cursor_from_reading("a|b|+9", Ok(time.clone())).unwrap();
    assert_eq!(cursor.id, 9);
    assert_eq!(cursor.occurred_at, time);
}

#[test]
fn reads_occurrence_times_with_and_without_zone() {
    let zoned = parse_occurred_at("2026-08-20T10:00:00+08:00[Asia/Shanghai]", None).unwrap();
    let local = parse_occurred_at("2026-08-20T10:00:00", Some("Asia/Shanghai")).unwrap();
    assert_eq!(zoned, local);
    assert_eq!(local.time_zone_name(), Some("Asia/Shanghai"));

    match parse_occurred_at("not a time", Some("Asia/Shanghai")) {
        Err(CliError::InvalidTime { input, .. }) => {
            assert_eq!(input, "not a time [Asia/Shanghai]")
        }
        other => panic!("unexpected result: {other:?}"),
    }
    match parse_occurred_at("not a time", None) {
        Err(CliError::InvalidTime { input, .. }) => assert_eq!(input, "not a time"),
        other => panic!("unexpected result: {other:?}"),
    }
}

#[test]
fn rejects_nonexistent_local_time() {
    let error = parse_occurred_at("2024-03-10T02:30:00", Some("America/New_York")).unwrap_err();

    match error {
        CliError::InvalidTime { input, message } => {
            assert_eq!(input, "2024-03-10T02:30:00 [America/New_York]");
            assert!(message.contains("ambiguous"));
        }

        other => panic!("expected invalid time error, got {other:?}"),
    }

    let error = parse_occurred_at("2024-11-03T01:30:00", Some("America/New_York")).unwrap_err();

    match error {
        CliError::InvalidTime { input, message } => {
            assert_eq!(input, "2024-11-03T01:30:00 [America/New_York]");
            assert!(message.contains("ambiguous"));
        }

        other => panic!("expected invalid time error, got {other:?}"),
    }
}

#[test]
fn parses_unambiguous_local_time() {
    let occurred_at = parse_occurred_at("2026-08-14T12:00:00", Some("Asia/Shanghai")).unwrap();

    assert_eq!(occurred_at.as_str(), "2026-08-14T12:00:00+08:00[Asia/Shanghai]");
}

#[test]
fn maps_command_line_choices_to_domain_values() {
    assert_eq!(Currency::from(CurrencyArg::Myr), Currency::Myr);
    assert_eq!(
        TransactionKind::from(TransactionKindArg::ExpenseRefund),
        TransactionKind::ExpenseRefund
    );
    assert_eq!(Category::from(CategoryArg::Investment), Category::Investment);
}

#[test]
fn merges_partial_amount_updates_with_the_stored_amount() {
    let stored = Money::from_minor_units(1_000, Currency::Cny);
    assert_eq!(merged_amount(&stored, None, None), None);
    assert_eq!(
        merged_amount(&stored, Some(250), None),
        Some(Money::from_minor_units(250, Currency::Cny))
    );
    assert_eq!(
        merged_amount(&stored, None, Some(Currency::Usd)),
        Some(Money::from_minor_units(1_000, Currency::Usd))
    );
    assert_eq!(
        merged_amount(&stored, Some(7), Some(Currency::Usd)),
        Some(Money::from_minor_units(7, Currency::Usd))
    );
}

#[test]
fn refuses_a_zoned_time_without_a_bracketed_zone() {
    assert!("2026-08-14T12:00:00+08:00".parse::<ZonedTime>().is_err());
    assert!(ZonedTime::parse("2026-08-14T12:00:00+08:00[Asia/Shanghai]").is_ok());
}

#[test]
fn a_zoned_time_reads_as_its_civil_time_less_its_offset() {
    let time = ZonedTime::parse("2026-08-20T10:00:00+08:00[Asia/Shanghai]").unwrap();
    assert_eq!(time.timestamp_nanos(), 1_787_191_200_000_000_000);
    assert_eq!(time.time_zone_name(), Some("Asia/Shanghai"));
    assert!(ZonedTime::parse("2026-08-20T10:00:00+08:00").is_err());
    assert!(ZonedTime::parse("2026-08-20T10:00:00+09:00[Asia/Shanghai]").is_err());
}

#[test]
fn a_local_time_keeps_the_named_zone() {
    let time = parse_occurred_at("2026-08-20T10:00:00", Some("asia/shanghai")).unwrap();
    assert_eq!(time.time_zone_name(), Some("Asia/Shanghai"));
    assert_eq!(time.timestamp_nanos(), 1_787_191_200_000_000_000);
}
