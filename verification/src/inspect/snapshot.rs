//! Domain types for project snapshots produced by the filesystem inspector.

use vstd::prelude::*;

use crate::inspect::cargo::types::CargoInspection;
use crate::inspect::cargo_config::types::CargoPlatformInspection;
use crate::inspect::rust::types::RustSourceInspection;

verus! {

/// A typed reason an inspection resource limit was reached.
#[derive(Clone, Copy, Debug, PartialEq, Eq, Structural)]
pub enum InspectionLimit {
    /// The considered-file-count limit was exceeded.
    FileCount {
        /// Configured maximum.
        max: u64,
        /// Observed count when the limit tripped.
        observed: u64,
    },
    /// The aggregate byte limit would be exceeded.
    TotalBytes {
        /// Configured maximum.
        max: u64,
        /// Observed bytes when the limit tripped.
        observed: u64,
    },
    /// A directory at the maximum traversal depth was pruned.
    TraversalDepth {
        /// Configured maximum depth.
        max: u64,
    },
    /// The wall-clock budget was exhausted.
    WallClock {
        /// Configured budget in milliseconds.
        max_millis: u64,
        /// Observed elapsed milliseconds.
        observed_millis: u64,
    },
    /// A single file exceeded the per-file byte limit.
    PerFileBytes {
        /// Configured per-file maximum.
        max: u64,
        /// Observed bytes (bounded evidence).
        observed: u64,
    },
}

/// Completion state of a snapshot.
#[derive(Clone, Copy, Debug, PartialEq, Eq, Structural)]
pub enum SnapshotState {
    /// All inputs were inspected within limits.
    Complete,
    /// A limit stopped inspection; evidence is partial but consistent.
    LimitExceeded {
        /// The limit that was reached.
        limit: InspectionLimit,
    },
}

/// The kind of project detected from accepted manifests.
#[derive(Clone, Copy, Debug, PartialEq, Eq, Structural)]
pub enum ProjectKind {
    /// A Cargo manifest was found.
    RustCargo,
    /// An npm manifest was found.
    NpmTypeScript,
    /// Both manifests were found.
    Mixed,
    /// Neither manifest was found.
    Unknown,
}

/// A structural signal found during traversal.
#[derive(Clone, Copy, Debug, PartialEq, Eq, Structural)]
pub enum ProjectSignal {
    /// A root `Cargo.toml` was accepted.
    CargoManifest,
    /// A root `package.json` was accepted.
    NpmManifest,
    /// Rust sources were accepted.
    RustSource {
        /// Number of accepted `.rs` files.
        count: u64,
    },
    /// TypeScript sources were accepted.
    TypeScriptSource {
        /// Number of accepted `.ts`/`.tsx` files.
        count: u64,
    },
}

/// A project-relative source location with the content hash of its file.
#[derive(Debug, PartialEq, Eq, PartialOrd, Ord)]
pub struct SourceLocation {
    /// Normalized project-relative path.
    pub path: String,
    /// 1-based line, when known.
    pub line: Option<u32>,
    /// 1-based column, when known.
    pub column: Option<u32>,
    /// Hex SHA-256 of the file content.
    pub content_hash: String,
}

impl View for SourceLocation {
    type V = (Seq<char>, Option<u32>, Option<u32>, Seq<char>);

    open spec fn view(&self) -> (Seq<char>, Option<u32>, Option<u32>, Seq<char>) {
        (self.path@, self.line, self.column, self.content_hash@)
    }
}

impl Clone for SourceLocation {
    fn clone(&self) -> (r: Self)
        ensures
            r@ == self@,
    {
        SourceLocation {
            path: self.path.clone(),
            line: self.line,
            column: self.column,
            content_hash: self.content_hash.clone(),
        }
    }
}

/// A read-only snapshot of a project's filesystem structure.
#[derive(Debug, PartialEq, Eq)]
pub struct ProjectSnapshot {
    /// Deterministic SHA-256 over all accepted files.
    pub project_hash: String,
    /// The detected project kind.
    pub project_kind: ProjectKind,
    /// Typed structural signals.
    pub signals: Vec<ProjectSignal>,
    /// Number of accepted files.
    pub file_count: u64,
    /// Total accepted bytes.
    pub total_bytes: u64,
    /// Completion state.
    pub state: SnapshotState,
    /// Non-fatal warnings (never file content).
    pub warnings: Vec<String>,
    /// Accepted file locations, sorted by path.
    pub files: Vec<SourceLocation>,
    /// Cargo manifest evidence, for Rust/Cargo projects.
    pub cargo: Option<CargoInspection>,
    /// Rust source evidence, for Rust/Cargo projects.
    pub rust: Option<RustSourceInspection>,
    /// Cargo platform evidence, for Rust/Cargo projects.
    pub platform: Option<CargoPlatformInspection>,
}

/// Resource limits for project inspection.
#[derive(Clone, Copy, Debug, PartialEq, Eq, Structural)]
pub struct InspectionLimits {
    /// Maximum number of files considered.
    pub max_inspection_files: u64,
    /// Maximum aggregate bytes accepted.
    pub max_inspection_bytes: u64,
    /// Maximum directory traversal depth.
    pub max_traversal_depth: u64,
    /// Maximum bytes of a single file.
    pub max_per_file_bytes: u64,
    /// Wall-clock budget in milliseconds.
    pub max_inspection_wall_millis: u64,
}

} // verus!
