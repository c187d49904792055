//! Verified core of a token vesting contract: fixed-rate cliff streams,
//! variable-rate streams and milestone streams, with their admin configuration.
//!
//! Every contract call is a function from the contract's stored state and the
//! call's arguments to the next state and the list of effects (authorisations,
//! token transfers, events) that the host must carry out.

pub mod account;
pub mod allowlist;
pub mod cliff;
pub mod contract;
pub mod effects;
pub mod error;
pub mod fixed;
pub mod laws;
pub mod milestone;
pub mod table;
pub mod types;
pub mod variable;
