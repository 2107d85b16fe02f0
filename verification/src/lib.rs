//! An on-ledger asset registry: unique "kitty" tokens with bounded per-owner
//! collections, a simple marketplace (list / bid / buy), currency-backed
//! creation, and deterministic breeding of new assets from two parents.
//!
//! The `Ledger` type owns all state and exposes the five public calls
//! (`create_kitty`, `set_price`, `transfer`, `buy_kitty`, `breed_kitty`);
//! every call validates before it mutates, so each one is atomic.
//! A separate `ClaimRegistry` records byte-string claims against owners.

pub mod bank;
pub mod claims;
pub mod errors;
pub mod factory;
pub mod ledger;
pub mod owners;
pub mod store;
pub mod types;
