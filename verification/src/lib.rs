//! A custodial value vault: a designated owner deposits and withdraws value
//! units into a program-controlled holder account, with bookkeeping kept in a
//! separate metadata record. Addresses of both accounts are derived
//! deterministically from the owner's identity, and every operation
//! re-validates them before touching state.
//!
//! Beside the vault stand a few small companion programs that share its
//! dispatch pattern: two counters, an addition demo, and a minimal data
//! holder.

pub mod addition;
pub mod address;
pub mod counter;
pub mod data_account;
pub mod layout;
pub mod processor;
pub mod vault;
