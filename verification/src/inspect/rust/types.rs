//! Public types for Rust source inspection.

use vstd::prelude::*;

use crate::inspect::snapshot::{InspectionLimit, SnapshotState, SourceLocation};

verus! {

/// Aggregated Rust source inspection evidence.
#[derive(Debug, PartialEq, Eq)]
pub struct RustSourceInspection {
    /// Amari API usages, sorted and deduplicated.
    pub usages: Vec<RustUsage>,
    /// Per-file package/target classification.
    pub file_kinds: Vec<RustFileKind>,
    /// Inner crate attributes (`#![...]`).
    pub crate_attributes: Vec<RustCrateAttribute>,
    /// `cfg`/`cfg_attr` predicates.
    pub cfg_evidence: Vec<RustCfgEvidence>,
    /// Curated vocabulary evidence.
    pub vocabulary: Vec<VocabularyEvidence>,
    /// Non-fatal warnings.
    pub warnings: Vec<RustInspectionWarning>,
    /// Framed hash over accepted inputs.
    pub input_hash: String,
    /// Completion state.
    pub state: SnapshotState,
    /// Number of inspected files.
    pub inspected_file_count: u64,
    /// Total accepted bytes.
    pub total_bytes: u64,
    /// Accepted input file locations.
    pub input_files: Vec<SourceLocation>,
}

/// One detected use of an Amari crate.
#[derive(Debug, PartialEq, Eq)]
pub struct RustUsage {
    /// Resolved package name.
    pub crate_name: String,
    /// Identifier used in source.
    pub alias: String,
    /// Path segments after the crate.
    pub path_segments: Vec<String>,
    /// Syntactic kind of the usage.
    pub kind: RustUsageKind,
    /// Where the usage occurs.
    pub source: SourceLocation,
}

/// Syntactic kind of a Rust usage.
#[derive(Clone, Copy, Debug, PartialEq, Eq, PartialOrd, Ord, Structural)]
pub enum RustUsageKind {
    /// `use` item.
    Use,
    /// `extern crate` item.
    ExternCrate,
    /// Path expression.
    PathExpression,
    /// Type path.
    PathType,
    /// Trait bound.
    PathTrait,
    /// Macro path.
    PathMacro,
}

/// Package/target classification of a Rust source file.
#[derive(Debug, PartialEq, Eq)]
pub enum RustFileKind {
    /// Library root or module.
    Library {
        /// Owning package.
        package: String,
        /// Project-relative path.
        path: String,
    },
    /// Binary target.
    Binary {
        /// Owning package.
        package: String,
        /// Project-relative path.
        path: String,
    },
    /// Integration test.
    Test {
        /// Owning package.
        package: String,
        /// Project-relative path.
        path: String,
    },
    /// Example.
    Example {
        /// Owning package.
        package: String,
        /// Project-relative path.
        path: String,
    },
    /// Benchmark.
    Bench {
        /// Owning package.
        package: String,
        /// Project-relative path.
        path: String,
    },
    /// Build script.
    BuildScript {
        /// Owning package.
        package: String,
        /// Project-relative path.
        path: String,
    },
    /// Any other Rust file of a package.
    Other {
        /// Owning package.
        package: String,
        /// Project-relative path.
        path: String,
    },
}

/// A normalized inner crate attribute.
#[derive(Debug, PartialEq, Eq)]
pub struct RustCrateAttribute {
    /// File carrying the attribute.
    pub path: String,
    /// Normalized attribute text.
    pub attribute: String,
    /// Location of the attribute.
    pub source: Option<SourceLocation>,
}

/// A `cfg` or `cfg_attr` predicate found in source.
#[derive(Debug, PartialEq, Eq)]
pub struct RustCfgEvidence {
    /// File carrying the predicate.
    pub path: String,
    /// Whitespace-normalized predicate.
    pub cfg_predicate: String,
    /// Whether it came from `cfg_attr`.
    pub is_cfg_attr: bool,
    /// Location of the attribute.
    pub source: Option<SourceLocation>,
}

/// One curated vocabulary term found in a file.
#[derive(Debug, PartialEq, Eq)]
pub struct VocabularyEvidence {
    /// File the term was found in.
    pub path: String,
    /// Normalized vocabulary term.
    pub term: String,
    /// Where the term occurs.
    pub source: Option<SourceLocation>,
}

impl View for VocabularyEvidence {
    type V = (Seq<char>, Seq<char>, Option<(Seq<char>, Option<u32>, Option<u32>, Seq<char>)>);

    open spec fn view(&self) -> Self::V {
        (
            self.path@,
            self.term@,
            match self.source {
                Some(s) => Some(s@),
                None => None,
            },
        )
    }
}

/// Non-fatal Rust inspection warnings.
#[derive(Debug, PartialEq, Eq)]
pub enum RustInspectionWarning {
    /// The file failed to parse.
    MalformedSource {
        /// File path.
        path: String,
        /// Stable reason.
        reason: String,
        /// Line, when known.
        line: Option<u32>,
        /// Column, when known.
        column: Option<u32>,
        /// Content hash of the file.
        content_hash: String,
    },
    /// A limit was reached.
    LimitExceeded {
        /// The limit.
        limit: InspectionLimit,
    },
    /// A symlinked file was skipped.
    SymlinkedFile {
        /// File path.
        path: String,
    },
    /// A path was not UTF-8.
    NonUtf8Path {
        /// Safe hint.
        path_hint: String,
    },
    /// The file content was not UTF-8.
    InvalidUtf8Source {
        /// File path.
        path: String,
    },
    /// The file exceeded the per-file limit.
    OversizedFile {
        /// File path.
        path: String,
        /// Observed size.
        size: u64,
        /// Configured limit.
        limit: u64,
    },
    /// The file could not be read.
    ReadFailure {
        /// File path.
        path: String,
        /// Stable reason.
        reason: String,
    },
    /// Vocabulary evidence was capped.
    VocabularyTruncated {
        /// Total found.
        total: usize,
        /// Cap applied.
        cap: usize,
    },
}

} // verus!
