//! Receipt-based pool ledgers and the registry that provisions them.

pub mod account;
pub mod controller;
pub mod directory;
pub mod error;
pub mod gateway;
pub mod ledger;
pub mod pool;
pub mod promise;
pub mod units;
