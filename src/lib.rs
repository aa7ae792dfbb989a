//! A collateralized token-wrapping protocol: deposits of an underlying asset
//! are held in a program-controlled escrow, and an equal amount of a receipt
//! asset is minted to the depositor, under a single derived authority.
//!
//! - `address`: account identities.
//! - `derivation`: program-derived addresses and their bumps.
//! - `state`: the registry record and the seeds of each derived address.
//! - `ledger`: the custody book (accounts, assets, transfers, mints).
//! - `metadata`: the lamports that fund a receipt asset's metadata.
//! - `protocol`: setup and deposit.
//! - `laws`: uniqueness, authority and backing across operations.

pub mod address;
pub mod error;
pub mod derivation;
pub mod state;
pub mod ledger;
pub mod metadata;
pub mod protocol;
pub mod laws;
