//! An aggregating price-feed state machine.
//!
//! A deterministic module that accepts numeric submissions from a permissioned
//! set of oracles per feed, aggregates them into per-round answers, accounts
//! per-oracle payments against a shared reserve (going into debt when the
//! reserve is exhausted), and exposes the latest answer plus bounded history.
//!
//! The surrounding host (transaction dispatch, the balance ledger and the
//! persistent key-value store) is modelled as plain state: every operation
//! takes the signing account as its first argument and acts on an in-memory
//! [`pallet::ChainlinkFeed`] value, so the whole transition system is
//! verified.

pub mod admin;
pub mod handle;
pub mod laws;
pub mod ledger;
pub mod median;
pub mod membership;
pub mod mock;
pub mod pairstore;
pub mod pallet;
pub mod rounds;
pub mod store;
pub mod types;
