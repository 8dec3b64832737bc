pub mod domain;
pub mod application;
pub mod infrastructure;
pub mod text;
pub mod keyed;
pub mod sorting;
pub mod decimal;
pub mod codes;
pub mod messages;
pub mod report_text;
pub mod cli;
pub mod app_paths;
