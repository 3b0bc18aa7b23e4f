//! Reconciliation of a vendor directory tree with a resolved dependency graph.
//!
//! The library decides; the caller performs the filesystem, network and
//! process work that each decision names.

pub mod version;
pub mod manifest;
pub mod plan;
pub mod run;
pub mod placeholder;
pub mod epoch;
pub mod patch;
pub mod fetch;
