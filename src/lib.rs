//! A transaction engine that replays deposits, withdrawals and the dispute
//! cycle (dispute, resolve, chargeback) against per-client accounts.
//!
//! Money is held in fixed point: one unit is a ten-thousandth of the currency,
//! so every amount has exactly four fractional digits.

pub mod account;
pub mod amount;
pub mod engine;
pub mod error;
pub mod theorems;
pub mod transaction;

pub use account::Account;
pub use engine::Engine;
pub use error::Error;
pub use transaction::{Client, Transaction, Tx};
