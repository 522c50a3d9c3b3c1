//! Read-only project inspection: bounded reads, snapshots, and evidence.

pub mod cargo;
pub mod cargo_config;
pub mod envelope;
pub mod framing;
pub mod npm;
pub mod rust;
pub mod snapshot;
pub mod traversal;
