//! Reconciles a double-entry ledger with the transactions of a bank export.
//!
//! The library pairs external transactions with ledger splits by date and
//! exact amount, reports what is left over on either side, and plans the
//! balanced ledger transactions that close the gap.

pub mod amount;
pub mod dates;
pub mod text;
pub mod utils;
pub mod models;
pub mod external_models;
pub mod index;
pub mod correlator;
pub mod matching_laws;
pub mod sheets;
pub mod formats;
pub mod dbmodifier;
pub mod fixup;
pub mod cli;
pub mod query;
