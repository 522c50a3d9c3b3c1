//! Cargo platform configuration inspection: settings, rules, and derivations.

pub mod bench_evidence;
pub mod config;
pub mod derive;
pub mod evidence;
pub mod platform;
pub mod reader;
pub mod settings;
pub mod source_evidence;
pub mod target_key;
pub mod targets;
pub mod types;
pub mod warnings;
