//! Offline npm inspection: the project-root `package.json` and npm
//! `package-lock.json` schema versions 2 and 3.

pub mod json;
pub mod project;
pub mod types;
pub mod typescript;
