//! Replays a stream of deposits, withdrawals and disputes against per-client
//! ledger accounts, with checked decimal arithmetic and a dispute lifecycle.

pub mod money;
pub mod transaction;
pub mod account;
pub mod engine;
