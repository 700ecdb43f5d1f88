//! What holds of every ledger that transactions can reach.

pub mod balance;
pub mod exact;
pub mod held;
pub mod lifecycle;
pub mod lock;
pub mod repeats;
pub mod round_trip;
