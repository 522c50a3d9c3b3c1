//! Read-only discovery and planning support for Amari projects.

pub mod error;
pub mod hashing;
pub mod inspect;
pub mod ndjson;
pub mod order;
pub mod planner;
pub mod protocol;
pub mod sortkey;
pub mod text;
