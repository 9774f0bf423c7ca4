//! Limited-use, time-bounded tokens that grant a set of roles to whoever
//! redeems them.
//!
//! The crate is the in-memory token store and its lifecycle rules: issuing,
//! revoking and redeeming tokens. Every executable function carries a contract
//! over the mathematical model of the store, a map from token key to record.

pub mod commands;
pub mod entries;
pub mod schedule;
pub mod time;
pub mod tokens;
