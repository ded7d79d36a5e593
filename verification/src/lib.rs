//! An in-memory ledger for a single-asset exchange simulation.
//!
//! Wallets hold a USD balance and an ETH balance, orders ask to convert one
//! into the other at a price, and executing an order moves the balances and
//! appends a receipt to the transaction log.

pub mod amount;
pub mod clock;
pub mod wallet;
pub mod order;
pub mod ledger;
pub mod laws;
