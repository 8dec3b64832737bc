pub mod money;
pub mod time;
pub mod account;
pub mod transaction;
pub mod transfer;
pub mod budget;
pub mod balance;
pub mod category_report;
pub mod summary;
