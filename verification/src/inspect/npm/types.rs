//! Domain types for offline npm package inspection.

use vstd::prelude::*;

use crate::inspect::snapshot::{InspectionLimit, SnapshotState};
use crate::protocol::Compatibility;

verus! {

/// Result of inspecting an npm package manifest and supported lockfile.
#[derive(Debug, PartialEq, Eq)]
pub struct NpmInspection {
    /// Parsed root `package.json` evidence.
    pub package: NpmPackage,
    /// Parsed supported `package-lock.json` evidence, when available.
    pub lock: Option<NpmLock>,
    /// Catalog version used for compatibility checks.
    pub catalog_version: String,
    /// Non-fatal lockfile and resource warnings.
    pub warnings: Vec<NpmInspectionWarning>,
    /// Deterministic framed SHA-256 over accepted npm input files.
    pub input_hash: String,
    /// Whether optional lockfile evidence was complete or resource-limited.
    pub state: SnapshotState,
    /// Number of accepted npm files.
    pub inspected_file_count: u64,
    /// Total accepted npm input bytes.
    pub total_bytes: u64,
}

/// Parsed npm package metadata relevant to Amari discovery.
#[derive(Debug, PartialEq, Eq)]
pub struct NpmPackage {
    /// Optional npm package name.
    pub name: Option<String>,
    /// Optional npm package version.
    pub version: Option<String>,
    /// Direct Amari WASM package declarations.
    pub dependencies: Vec<NpmDependencyEvidence>,
    /// Provenance of `package.json`.
    pub source: NpmSource,
}

/// One direct Amari WASM dependency declaration.
#[derive(Debug, PartialEq, Eq)]
pub struct NpmDependencyEvidence {
    /// Canonical npm package name.
    pub package_name: String,
    /// Manifest section containing the declaration.
    pub kind: NpmDependencyKind,
    /// Declared npm version requirement.
    pub declared_version: String,
    /// Exact version resolved by a supported package lock, when available.
    pub resolved_version: Option<String>,
    /// Compatibility with the catalog.
    pub compatibility: Compatibility,
    /// Provenance of the manifest declaration.
    pub manifest_source: NpmSource,
    /// Provenance of the resolved lock entry, when available.
    pub lock_source: Option<NpmSource>,
}

/// Supported npm dependency manifest sections.
#[derive(Clone, Copy, Debug, PartialEq, Eq, Structural, PartialOrd, Ord)]
pub enum NpmDependencyKind {
    /// `dependencies`.
    Production,
    /// `devDependencies`.
    Development,
    /// `optionalDependencies`.
    Optional,
    /// `peerDependencies`.
    Peer,
}

/// Parsed supported npm lockfile evidence.
#[derive(Debug, PartialEq, Eq)]
pub struct NpmLock {
    /// npm lock schema version (supported: 2 and 3).
    pub lockfile_version: u64,
    /// Relevant resolved package entries.
    pub packages: Vec<NpmLockedPackage>,
    /// Provenance of `package-lock.json`.
    pub source: NpmSource,
}

/// Exact package resolution from `package-lock.json`.
#[derive(Debug, PartialEq, Eq)]
pub struct NpmLockedPackage {
    /// Canonical npm package name.
    pub package_name: String,
    /// Exact resolved version.
    pub version: String,
    /// Lockfile provenance.
    pub source: NpmSource,
}

/// Content-addressed npm input provenance.
#[derive(Debug, PartialEq, Eq)]
pub struct NpmSource {
    /// Fixed project-relative input path.
    pub path: String,
    /// Optional 1-based source line.
    pub line: Option<u64>,
    /// SHA-256 of the complete accepted file bytes.
    pub content_hash: String,
    /// Accepted file byte count.
    pub byte_count: u64,
}

impl View for NpmSource {
    type V = (Seq<char>, Option<u64>, Seq<char>, u64);

    open spec fn view(&self) -> Self::V {
        (self.path@, self.line, self.content_hash@, self.byte_count)
    }
}

impl Clone for NpmSource {
    fn clone(&self) -> (r: Self)
        ensures
            r@ == self@,
    {
        NpmSource {
            path: self.path.clone(),
            line: self.line,
            content_hash: self.content_hash.clone(),
            byte_count: self.byte_count,
        }
    }
}

/// Non-fatal npm inspection warning.
#[derive(Debug, PartialEq, Eq)]
pub enum NpmInspectionWarning {
    /// `package-lock.json` was absent.
    MissingLock {
        /// Fixed lockfile path.
        path: String,
    },
    /// `package-lock.json` was malformed JSON.
    MalformedLock {
        /// Fixed lockfile path.
        path: String,
        /// Stable parser category.
        reason: String,
        /// 1-based line reported by the JSON parser.
        line: Option<u64>,
        /// 1-based column reported by the JSON parser.
        column: Option<u64>,
        /// SHA-256 of the rejected accepted lock bytes.
        content_hash: String,
    },
    /// Lockfile bytes were not valid UTF-8.
    InvalidUtf8Lock {
        /// Fixed lockfile path.
        path: String,
        /// SHA-256 of the rejected accepted lock bytes.
        content_hash: String,
    },
    /// The lockfile schema is outside the supported npm v2/v3 set.
    UnsupportedLockfileVersion {
        /// Parsed `lockfileVersion`, or zero when absent/non-integer.
        version: u64,
    },
    /// A lockfile symlink or replacement race was rejected.
    SymlinkedLock {
        /// Fixed lockfile path.
        path: String,
    },
    /// The lock path exists but is not a regular file.
    UnsupportedLockFile {
        /// Fixed lockfile path.
        path: String,
    },
    /// The optional lockfile could not be opened or read safely.
    ReadFailure {
        /// Fixed lockfile path.
        path: String,
    },
    /// Conflicting exact target versions were present in the lockfile.
    AmbiguousLockResolution {
        /// Canonical target package name.
        package_name: String,
        /// Number of distinct exact versions.
        version_count: usize,
    },
    /// An optional lockfile resource limit was reached.
    LimitExceeded {
        /// Typed limit evidence.
        limit: InspectionLimit,
    },
}

/// View of an npm inspection warning.
pub enum NpmWarningV {
    /// Missing lockfile.
    MissingLock(Seq<char>),
    /// Malformed lockfile: path, reason, line, column, hash.
    MalformedLock(Seq<char>, Seq<char>, Option<u64>, Option<u64>, Seq<char>),
    /// Lockfile not UTF-8: path, hash.
    InvalidUtf8Lock(Seq<char>, Seq<char>),
    /// Unsupported schema version.
    UnsupportedLockfileVersion(u64),
    /// Symlinked lockfile.
    SymlinkedLock(Seq<char>),
    /// Lock path not a regular file.
    UnsupportedLockFile(Seq<char>),
    /// Lockfile unreadable.
    ReadFailure(Seq<char>),
    /// Several exact versions: package, count.
    AmbiguousLockResolution(Seq<char>, usize),
    /// A limit was reached.
    LimitExceeded(InspectionLimit),
}

impl View for NpmInspectionWarning {
    type V = NpmWarningV;

    open spec fn view(&self) -> NpmWarningV {
        match self {
            NpmInspectionWarning::MissingLock { path } => NpmWarningV::MissingLock(path@),
            NpmInspectionWarning::MalformedLock { path, reason, line, column, content_hash } =>
                NpmWarningV::MalformedLock(path@, reason@, *line, *column, content_hash@),
            NpmInspectionWarning::InvalidUtf8Lock { path, content_hash } => NpmWarningV::InvalidUtf8Lock(
                path@,
                content_hash@,
            ),
            NpmInspectionWarning::UnsupportedLockfileVersion { version } =>
                NpmWarningV::UnsupportedLockfileVersion(*version),
            NpmInspectionWarning::SymlinkedLock { path } => NpmWarningV::SymlinkedLock(path@),
            NpmInspectionWarning::UnsupportedLockFile { path } => NpmWarningV::UnsupportedLockFile(path@),
            NpmInspectionWarning::ReadFailure { path } => NpmWarningV::ReadFailure(path@),
            NpmInspectionWarning::AmbiguousLockResolution { package_name, version_count } =>
                NpmWarningV::AmbiguousLockResolution(package_name@, *version_count),
            NpmInspectionWarning::LimitExceeded { limit } => NpmWarningV::LimitExceeded(*limit),
        }
    }
}

/// Views of a list of npm warnings.
pub open spec fn npm_warning_views(v: Seq<NpmInspectionWarning>) -> Seq<NpmWarningV> {
    v.map_values(|w: NpmInspectionWarning| w@)
}

} // verus!
