//! Ledger services of a multi-currency wallet: accounts with a credit (`Cr`)
//! and a debit (`Dr`) side, double-entry transactions between them, the
//! classification of transfer requests and the processing of transactions
//! reported by the blockchain.
pub mod lookup;
pub mod confirmations;
pub mod models;
pub mod blockchain_tx;
pub mod error;
pub mod repos;
pub mod ledger;
pub mod system;
pub mod auth;
pub mod users;
pub mod accounts;
pub mod classifier;
pub mod transactions;
pub mod withdrawal;
pub mod blockchain;
pub mod rabbit;
pub mod converter;
pub mod queries;
pub mod metrics;
pub mod fee;

use vstd::prelude::*;

verus! {

} // verus!
