//! Dumps of the ledger state at epoch boundaries, and how they compare.

pub mod agreement;
pub mod compare;
pub mod content;
pub mod epochs;
pub mod files;
pub mod governance;
pub mod labels;
pub mod report;
pub mod snapshots;
pub mod state;
pub mod trace;
