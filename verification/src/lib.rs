//! A points-ledger engine for a loyalty currency.
//!
//! The library tracks per-account balances, mints and burns supply, keeps a
//! bounded per-account transaction history, and aggregates per-account
//! lifetime statistics. Every operation preserves two invariants: the total
//! supply equals the sum of all balances, and no balance is ever negative.
//!
//! Identity, durable storage, clocks and event emission are the host's
//! business: operations receive an already-authenticated caller identifier
//! and a timestamp, and return enough information for the host to emit
//! events.

pub mod errors;
pub mod history;
pub mod ledger;
pub mod policy;
pub mod service;
pub mod stats;
pub mod table;
