//! An in-memory ledger: accounts with balances, contact lists and
//! append-only transfer histories, a store that owns them, a transfer
//! engine that validates and atomically applies transfers, and read-side
//! views that resolve contacts and build a per-account activity feed.

pub mod contacts;
pub mod engine;
pub mod history;
pub mod laws;
pub mod store;
pub mod text;
