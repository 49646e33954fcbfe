//! Reconciliation of node minting receipts against the titan reward schedule.
//!
//! Receipts are grouped by node and accounting period, the reward that the
//! titan schedule would have paid is recomputed from the measured usage, and
//! for every node that was a titan in some period a report row compares the
//! expected with the received amounts.

pub mod aggregate;
pub mod audit;
pub mod error;
pub mod format;
pub mod laws;
pub mod period;
pub mod receipt;
pub mod render;
pub mod report;
pub mod reward;
pub mod timeline;
