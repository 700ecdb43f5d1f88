//! A ledger engine: replays client transactions against per-client account balances.

pub mod account;
pub mod amount;
pub mod laws;
pub mod ledger;
pub mod types;

pub use crate::ledger::{account_rows, process_tx, process_txs, record_iter};
