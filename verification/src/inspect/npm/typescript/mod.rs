//! Bounded conservative TypeScript source and generated declaration
//! inspection.

pub mod declarations;
pub mod imports;
pub mod keys;
pub mod mask;
pub mod project;
pub mod scan;
pub mod types;
