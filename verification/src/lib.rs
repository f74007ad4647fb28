//! Mirrors the token purchases of a watched account: reads the events of a
//! transaction feed, infers from balance changes what the account bought,
//! and steers the purchase of the same token through quote, swap
//! transaction, fresh block reference, signature and submission.
//!
//! Amounts are exact decimals throughout; nothing here reads the
//! environment, a socket or the network.

pub mod text;
pub mod json;
pub mod decimal;
pub mod magnitude;
pub mod account;
pub mod events;
pub mod intent;
pub mod config;
pub mod amount;
pub mod jupiter;
pub mod transaction;
pub mod execution;
pub mod trader;
pub mod stream;
pub mod wallet;
