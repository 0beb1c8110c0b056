//! What is asked of the ledger: the filters of each kind of query.

pub mod accounts;
pub mod currencies;
pub mod transactions;
