//! A transaction ledger: per-client accounts that apply deposits, withdrawals,
//! disputes, resolutions and chargebacks in the order in which they arrive.
//!
//! Amounts and balances are signed 64-bit counts of the smallest currency unit.

pub mod account;
pub mod bank;
pub mod driver;
pub mod laws;
pub mod transaction;
