//! Cargo manifest and lockfile evidence.

pub mod lock;
pub mod manifest;
pub mod members;
pub mod project;
pub mod provenance;
pub mod toml_value;
pub mod types;
