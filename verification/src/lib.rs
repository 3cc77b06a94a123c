//! A small account ledger for a stream of financial transactions.
//!
//! Deposits, withdrawals and the dispute lifecycle (dispute, resolve,
//! chargeback) mutate per-client balances held by an [`engine::AccountStore`].
//! Amounts are fixed-point decimals with four fractional digits
//! ([`amount::Amount`]), so all balance arithmetic is exact.

pub mod amount;
pub mod engine;
pub mod laws;
pub mod models;
