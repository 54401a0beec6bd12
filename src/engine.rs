//! The payment engine: applies transactions to client accounts and keeps the
//! record of which deposits and withdrawals can still be disputed.

pub mod disputable_transaction;
pub mod payment_engine;

pub use payment_engine::PaymentEngine;
pub mod lemmas;
