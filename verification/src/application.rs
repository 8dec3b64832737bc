pub mod repository;
pub mod backup;
pub mod list_transactions;
pub mod csv_exchange;
pub mod account_balance;
pub mod create_account;
pub mod list_accounts;
pub mod category_report;
pub mod record_transaction;
pub mod ranged_summary;
pub mod manage_account;
pub mod manage_transaction;
pub mod manage_transfer;
pub mod manage_budget;
pub mod account_activity;
pub mod monthly_trend;
pub mod budget_report;
pub mod portfolio_report;
pub mod reconcile_balance;
pub mod audit_log;
pub mod backup_round_trip;
pub mod csv_round_trip;
