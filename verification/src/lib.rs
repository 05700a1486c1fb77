//! A verified ledger for client accounts.
//!
//! The crate folds an ordered sequence of transaction records (deposit,
//! withdrawal, dispute, resolve, chargeback) into per-client account
//! balances.  Amounts are fixed-point values with four fractional digits,
//! held in integers so that no rounding drift can occur.  The ledger's
//! behaviour is pinned down by pure specification functions in [`model`],
//! and every handler of [`ledger::Ledger`] is proved to implement them.

pub mod account;
pub mod errors;
pub mod fields;
pub mod laws;
pub mod ledger;
pub mod model;
pub mod transaction;
