//! Accounting core of a fixed-price token sale with optional linear vesting
//! and one-time delegation of the right to claim to the holder of an NFT.
//!
//! The library holds the sale's state as plain values and decides every
//! operation; moving tokens, reading the clock and asking the NFT registry
//! who owns a token are left to the caller, which hands their results in.

pub mod error;
pub mod types;
pub mod ledger;
pub mod model;
pub mod sale;
pub mod laws;
pub mod vesting;
