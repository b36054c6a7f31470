//! Fee statistics of ledger closes: operations are classified as classic,
//! contract invocations or footprint-lifecycle operations, each successful
//! transaction's fee is attributed by its first operation, and one summary per
//! ledger close is kept, of which a query returns the latest ones.

pub mod ledger;
pub mod ops;
pub mod window;
