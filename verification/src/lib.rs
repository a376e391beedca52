//! A per-client account ledger: deposits, withdrawals, disputes, resolutions
//! and chargebacks applied one at a time, with every balance change proved
//! against a mathematical model of the account.

pub mod amount;
pub mod decimal;
pub mod laws;
pub mod ledger;
pub mod model;
pub mod transaction;
pub mod types;
