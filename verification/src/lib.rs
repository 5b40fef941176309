//! Payment and paycheck planning for a dedicated recurring-payment account.
pub mod date;
pub mod date_order;
pub mod text;
pub mod models;
pub mod schedule;
pub mod names;
pub mod i18n;
pub mod recurring;
pub mod ledger;
pub mod detected;
pub mod collections;
pub mod ids;
pub mod ordering;
pub mod sorting;
pub mod classify;
pub mod runs;
pub mod money;
pub mod ynab;
pub mod cookies;
