//! Persistent account ledger for an ICP balance and token swap service.
//!
//! Accounts and per-identity token balances live in two partitions of one
//! stable memory; the balance operations compose them into consistent
//! read-modify-write updates.

pub mod identity;
pub mod record;
pub mod service;
pub mod store;
pub mod text;

pub use identity::Identity;
pub use service::{whoami, Swipe};
pub use record::{SwipeError, TransactionResult, UserData, UserPortfolio};
