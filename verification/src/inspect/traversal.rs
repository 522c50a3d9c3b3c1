//! Decisions of the single-pass filesystem traversal: which names are
//! pruned, how a candidate file is bounded, when a limit stops the walk, and
//! how accepted files become a deterministic [`ProjectSnapshot`].
//!
//! The walk itself (directory iteration, canonicalization, opening files) is
//! performed by the caller, which hands each observation to these functions.

use vstd::prelude::*;
use vstd::string::StringExecFns;

use crate::error::{DiscoveryError, DiscoveryResult};
use crate::hashing::{sha256_hex, spec_sha256_hex};
use crate::inspect::framing::{
    compute_project_hash, path_keys, sort_indices_by_path, sorted_order, spec_framed_hash,
};
use crate::inspect::snapshot::{
    InspectionLimit, InspectionLimits, ProjectKind, ProjectSignal, ProjectSnapshot, SnapshotState,
    SourceLocation,
};
use crate::inspect::npm::typescript::imports::{index_from, lemma_first_index_bounds};
use crate::text::{
    chars_of, chars_start_with, decimal, first_index_of, has_prefix, has_suffix, str_ends_with, str_eq,
    str_starts_with, string_of, subrange_vec, u64_decimal,
};

verus! {

#[verifier::external_type_specification]
#[verifier::external_body]
pub struct ExIoError(std::io::Error);

// ---------------------------------------------------------------------------
// Pruning rules
// ---------------------------------------------------------------------------

/// Build, cache, and version-control directory names that are never entered.
pub open spec fn spec_is_skipped_dir_name(name: Seq<char>) -> bool {
    name == ".git"@ || name == "target"@ || name == "node_modules"@ || name == ".worktrees"@
}

/// Returns `true` when a directory name should be pruned from traversal.
pub fn is_skipped_dir_name(name: &str) -> (r: bool)
    ensures
        r == spec_is_skipped_dir_name(name@),
{
    str_eq(name, ".git") || str_eq(name, "target") || str_eq(name, "node_modules") || str_eq(
        name,
        ".worktrees",
    )
}

/// Returns `true` when a directory or file name matches an environment-secret
/// pattern (any name starting with `.env`).
pub fn is_env_secret_name(name: &str) -> (r: bool)
    ensures
        r == has_prefix(name@, ".env"@),
{
    str_starts_with(name, ".env")
}

/// Whether the `/`-separated components of relative path `p` from
/// position `i` may be accepted: no component, directory or file, starts
/// with `.env` or is one of the pruned names (`.git`, `target`,
/// `node_modules`, `.worktrees`), as the walk drops entries of those names.
pub open spec fn components_admissible(p: Seq<char>, i: int) -> bool
    decreases p.len() - i,
{
    if i < 0 || i > p.len() {
        true
    } else {
        let e = first_index_of(p, '/', i);
        proof {
            lemma_first_index_bounds(p, '/', i);
        }
        let comp = p.subrange(i, e);
        &&& !has_prefix(comp, ".env"@)
        &&& !spec_is_skipped_dir_name(comp)
        &&& (e < p.len() ==> components_admissible(p, e + 1))
    }
}

/// Whether a normalized relative path may be accepted: none of its
/// components is a pruned name or an environment name.
pub open spec fn admissible_path(p: Seq<char>) -> bool {
    components_admissible(p, 0)
}

proof fn lemma_components_from(p: Seq<char>, j: int, i: int)
    requires
        components_admissible(p, j),
        0 <= j <= i <= p.len(),
        i == j || p[i - 1] == '/',
    ensures
        components_admissible(p, i),
    decreases i - j,
{
    if i > j {
        lemma_first_index_bounds(p, '/', j);
        let e = first_index_of(p, '/', j);
        assert(e <= i - 1);
        if e < i - 1 {
            lemma_components_from(p, e + 1, i);
        }
    }
}

/// No component of an admissible path is a pruned or environment name:
/// for every component, starting at the path's start or just after a `/`
/// and running to the next `/` or the end, the component is not `.git`,
/// `target`, `node_modules` or `.worktrees` and does not start with `.env`.
pub proof fn lemma_admissible_components(p: Seq<char>, i: int)
    requires
        admissible_path(p),
        0 <= i <= p.len(),
        i == 0 || p[i - 1] == '/',
    ensures
        !spec_is_skipped_dir_name(p.subrange(i, first_index_of(p, '/', i))),
        !has_prefix(p.subrange(i, first_index_of(p, '/', i)), ".env"@),
{
    lemma_components_from(p, 0, i);
}

/// Whether a normalized relative path may be accepted (see
/// [`admissible_path`]).
pub fn is_admissible_path(p: &str) -> (r: bool)
    ensures
        r == admissible_path(p@),
{
    let s = chars_of(p);
    let env = chars_of(".env");
    let n = s.len();
    let mut i: usize = 0;
    loop
        invariant
            n == s@.len(),
            s@ == p@,
            env@ == ".env"@,
            i <= n,
            components_admissible(s@, i as int) == admissible_path(p@),
        decreases n - i,
    {
        let e = index_from(s.as_slice(), '/', i);
        let comp = subrange_vec(s.as_slice(), i, e);
        if chars_start_with(comp.as_slice(), env.as_slice()) {
            return false;
        }
        let name = string_of(comp.as_slice());
        if is_skipped_dir_name(name.as_str()) {
            return false;
        }
        if e == n {
            return true;
        }
        i = e + 1;
    }
}

/// Converts a configured `u64` limit to `usize`.
///
/// # Errors
///
/// Returns [`DiscoveryError::InspectionFailure`] when the value does not fit.
pub fn to_usize(value: u64) -> (r: DiscoveryResult<usize>)
    ensures
        value <= usize::MAX ==> r == Ok::<usize, DiscoveryError>(value as usize),
        value > usize::MAX ==> (r matches Err(DiscoveryError::InspectionFailure(m)) && m@ == "value "@
            + decimal(value as nat) + " exceeds platform addressable size"@),
{
    if value as u128 <= usize::MAX as u128 {
        Ok(value as usize)
    } else {
        let mut m = String::from_str("value ");
        let d = u64_decimal(value);
        m.append(d.as_str());
        m.append(" exceeds platform addressable size");
        Err(DiscoveryError::InspectionFailure(m))
    }
}

// ---------------------------------------------------------------------------
// Bounded read
// ---------------------------------------------------------------------------

/// Outcome of [`bounded_read`].
#[derive(Debug, PartialEq, Eq)]
pub enum BoundedOutcome {
    /// File content fits within the per-file byte limit.
    Accepted(Vec<u8>),
    /// File content exceeds the per-file byte limit; the caller skips the file.
    PerFileExceeded,
}

/// Reads from `reader` until end of input or until `limit` bytes were read
/// (`std::io::Read::take` followed by `std::io::Read::read_to_end`).
///
/// The bytes returned on success are never more than `limit`; what they are
/// depends on the reader and is not stated.
#[verifier::external_body]
fn read_at_most<R: std::io::Read>(reader: &mut R, limit: u64) -> (r: std::io::Result<Vec<u8>>)
    ensures
        r matches Ok(v) ==> v@.len() <= limit,
{
    let mut content = Vec::new();
    std::io::Read::read_to_end(&mut std::io::Read::take(reader, limit), &mut content).map(|_| content)
}

/// How many bytes [`bounded_read`] asks for: one more than the tighter of the
/// two limits, so that an oversize file is distinguishable.
pub open spec fn read_budget(per_file_max: u64, remaining_aggregate: u64) -> int {
    let effective = if per_file_max <= remaining_aggregate { per_file_max } else { remaining_aggregate };
    if effective == u64::MAX { u64::MAX as int } else { effective + 1 }
}

/// How many bytes a bounded read asks the reader for:
/// `min(per_file_max, remaining_aggregate) + 1`, saturating.
pub fn read_limit(per_file_max: u64, remaining_aggregate: u64) -> (m: u64)
    ensures
        m == read_budget(per_file_max, remaining_aggregate),
{
    let effective = if per_file_max <= remaining_aggregate {
        per_file_max
    } else {
        remaining_aggregate
    };
    effective.saturating_add(1)
}

/// The outcomes a bounded read may give: accepted bytes within the per-file
/// limit and the read budget, or an oversize file, which only a budget
/// beyond the per-file limit can reveal.
pub open spec fn bounded_read_possible(b: BoundedOutcome, per_file_max: u64, remaining_aggregate: u64) -> bool {
    match b {
        BoundedOutcome::Accepted(v) => v@.len() <= per_file_max && v@.len() <= read_budget(
            per_file_max,
            remaining_aggregate,
        ),
        BoundedOutcome::PerFileExceeded => per_file_max < read_budget(per_file_max, remaining_aggregate),
    }
}

/// Classifies the bytes of a bounded read against the per-file limit.
pub fn classify_bounded_content(content: Vec<u8>, per_file_max: u64) -> (r: BoundedOutcome)
    ensures
        content@.len() > per_file_max ==> r == BoundedOutcome::PerFileExceeded,
        content@.len() <= per_file_max ==> r == BoundedOutcome::Accepted(content),
{
    let len = content.len() as u64;
    if len > per_file_max {
        BoundedOutcome::PerFileExceeded
    } else {
        BoundedOutcome::Accepted(content)
    }
}

/// Reads at most `min(per_file_max, remaining_aggregate) + 1` bytes from
/// `reader`: the limit handed to the reader is [`read_limit`] of the two
/// limits, and the bytes read are classified by
/// [`classify_bounded_content`].
///
/// Returns [`BoundedOutcome::Accepted`] when the bytes read fit within
/// `per_file_max` (the caller still checks the aggregate allowance), and
/// [`BoundedOutcome::PerFileExceeded`] otherwise. Never reads beyond the
/// declared bound; all arithmetic saturates.
///
/// # Errors
///
/// Returns the reader's I/O error.
pub fn bounded_read<R: std::io::Read>(
    reader: &mut R,
    per_file_max: u64,
    remaining_aggregate: u64,
) -> (r: std::io::Result<BoundedOutcome>)
    ensures
        r matches Ok(BoundedOutcome::Accepted(v)) ==> v@.len() <= per_file_max && v@.len()
            <= read_budget(per_file_max, remaining_aggregate),
        r matches Ok(b) ==> bounded_read_possible(b, per_file_max, remaining_aggregate),
{
    let max_read = read_limit(per_file_max, remaining_aggregate);
    match read_at_most(reader, max_read) {
        Ok(content) => Ok(classify_bounded_content(content, per_file_max)),
        Err(e) => Err(e),
    }
}

// ---------------------------------------------------------------------------
// Hashing and per-file classification
// ---------------------------------------------------------------------------

/// The hex-encoded SHA-256 hash of file content.
pub fn file_content_hash(bytes: &[u8]) -> (r: String)
    ensures
        r@ == spec_sha256_hex(bytes@),
{
    sha256_hex(bytes)
}

/// Kind of source file counted by the traversal.
#[derive(Clone, Copy, Debug, PartialEq, Eq, Structural)]
pub enum FileSignalKind {
    /// A `.rs` file.
    Rust,
    /// A `.ts` or `.tsx` file.
    TypeScript,
}

/// The source kind a relative path counts as.
pub open spec fn spec_file_signal(path: Seq<char>) -> Option<FileSignalKind> {
    if has_suffix(path, ".rs"@) {
        Some(FileSignalKind::Rust)
    } else if has_suffix(path, ".ts"@) || has_suffix(path, ".tsx"@) {
        Some(FileSignalKind::TypeScript)
    } else {
        None
    }
}

/// Classifies a relative path by its source-file extension.
pub fn classify_file_signal(path: &str) -> (r: Option<FileSignalKind>)
    ensures
        r == spec_file_signal(path@),
{
    if str_ends_with(path, ".rs") {
        Some(FileSignalKind::Rust)
    } else if str_ends_with(path, ".ts") || str_ends_with(path, ".tsx") {
        Some(FileSignalKind::TypeScript)
    } else {
        None
    }
}

// ---------------------------------------------------------------------------
// Stop reasons and final state
// ---------------------------------------------------------------------------

/// Why the traversal loop stopped early.
#[derive(Clone, Copy, Debug, PartialEq, Eq, Structural)]
pub enum StopReason {
    /// Wall-clock limit exceeded.
    WallClock {
        /// Elapsed milliseconds when the limit tripped.
        elapsed_millis: u64,
    },
    /// Considered-file-count limit exceeded.
    FileCount {
        /// Files considered when the limit tripped.
        considered: u64,
    },
    /// The aggregate byte limit would be exceeded by the next accepted file.
    TotalBytes {
        /// Bytes accepted before the file that would exceed the limit.
        observed: u64,
    },
}

/// The wall-clock check made before each entry: stop once the elapsed time
/// reaches the budget.
pub fn wall_clock_stop(elapsed_millis: u64, limits: &InspectionLimits) -> (r: Option<StopReason>)
    ensures
        elapsed_millis >= limits.max_inspection_wall_millis ==> r == Some(
            StopReason::WallClock { elapsed_millis },
        ),
        elapsed_millis < limits.max_inspection_wall_millis ==> r == None::<StopReason>,
{
    if elapsed_millis >= limits.max_inspection_wall_millis {
        Some(StopReason::WallClock { elapsed_millis })
    } else {
        None
    }
}

/// The snapshot state that a traversal ends in.
pub open spec fn spec_final_state(
    stop: Option<StopReason>,
    saw_depth_prune: bool,
    limits: InspectionLimits,
) -> SnapshotState {
    match stop {
        Some(StopReason::WallClock { elapsed_millis }) => SnapshotState::LimitExceeded {
            limit: InspectionLimit::WallClock {
                max_millis: limits.max_inspection_wall_millis,
                observed_millis: elapsed_millis,
            },
        },
        Some(StopReason::FileCount { considered }) => SnapshotState::LimitExceeded {
            limit: InspectionLimit::FileCount {
                max: limits.max_inspection_files,
                observed: considered,
            },
        },
        Some(StopReason::TotalBytes { observed }) => SnapshotState::LimitExceeded {
            limit: InspectionLimit::TotalBytes { max: limits.max_inspection_bytes, observed },
        },
        None => if saw_depth_prune {
            SnapshotState::LimitExceeded {
                limit: InspectionLimit::TraversalDepth { max: limits.max_traversal_depth },
            }
        } else {
            SnapshotState::Complete
        },
    }
}

/// Maps the stop reason (and depth pruning) to the snapshot state.
pub fn final_state(stop: Option<StopReason>, saw_depth_prune: bool, limits: &InspectionLimits) -> (r:
    SnapshotState)
    ensures
        r == spec_final_state(stop, saw_depth_prune, *limits),
{
    match stop {
        Some(StopReason::WallClock { elapsed_millis }) => SnapshotState::LimitExceeded {
            limit: InspectionLimit::WallClock {
                max_millis: limits.max_inspection_wall_millis,
                observed_millis: elapsed_millis,
            },
        },
        Some(StopReason::FileCount { considered }) => SnapshotState::LimitExceeded {
            limit: InspectionLimit::FileCount {
                max: limits.max_inspection_files,
                observed: considered,
            },
        },
        Some(StopReason::TotalBytes { observed }) => SnapshotState::LimitExceeded {
            limit: InspectionLimit::TotalBytes { max: limits.max_inspection_bytes, observed },
        },
        None => {
            if saw_depth_prune {
                SnapshotState::LimitExceeded {
                    limit: InspectionLimit::TraversalDepth { max: limits.max_traversal_depth },
                }
            } else {
                SnapshotState::Complete
            }
        },
    }
}

// ---------------------------------------------------------------------------
// Traversal state
// ---------------------------------------------------------------------------

/// Accumulator for the single-pass traversal.
pub struct TraversalState {
    /// Paths and content of accepted files (relative, normalized `/`).
    pub accepted_files: Vec<(String, Vec<u8>)>,
    /// Source locations of accepted files.
    pub source_locations: Vec<SourceLocation>,
    /// Non-fatal warnings.
    pub warnings: Vec<String>,
    /// Count of accepted Rust source files.
    pub seen_rust_source: u64,
    /// Count of accepted TypeScript source files.
    pub seen_ts_source: u64,
    /// Total bytes of accepted content.
    pub total_bytes: u64,
    /// Whether a directory at max depth was pruned.
    pub saw_depth_prune: bool,
    /// Number of regular non-secret files considered.
    pub considered_files: u64,
}

/// Number of entries of `paths` equal to `target`.
pub open spec fn count_path(paths: Seq<Seq<char>>, target: Seq<char>) -> nat
    decreases paths.len(),
{
    if paths.len() == 0 {
        0
    } else {
        count_path(paths.drop_last(), target) + if paths.last() == target {
            1nat
        } else {
            0nat
        }
    }
}

/// Paths of accepted entries, as character sequences.
pub open spec fn accepted_paths(files: Seq<(String, Vec<u8>)>) -> Seq<Seq<char>> {
    files.map_values(|e: (String, Vec<u8>)| e.0@)
}

/// Signals of a project whose accepted paths are `paths`: one manifest
/// signal per accepted root manifest, in path order (`Cargo.toml` sorts
/// before `package.json`), then the source counts when nonzero.
pub open spec fn spec_signals(paths: Seq<Seq<char>>, rust: u64, ts: u64) -> Seq<ProjectSignal> {
    Seq::new(count_path(paths, "Cargo.toml"@), |i: int| ProjectSignal::CargoManifest) + Seq::new(
        count_path(paths, "package.json"@),
        |i: int| ProjectSignal::NpmManifest,
    ) + (if rust > 0 {
        seq![ProjectSignal::RustSource { count: rust }]
    } else {
        Seq::empty()
    }) + (if ts > 0 {
        seq![ProjectSignal::TypeScriptSource { count: ts }]
    } else {
        Seq::empty()
    })
}

/// Project kind from the presence of the two manifest signals.
pub open spec fn spec_project_kind(signals: Seq<ProjectSignal>) -> ProjectKind {
    let has_cargo = signals.contains(ProjectSignal::CargoManifest);
    let has_npm = signals.contains(ProjectSignal::NpmManifest);
    if has_cargo && has_npm {
        ProjectKind::Mixed
    } else if has_cargo {
        ProjectKind::RustCargo
    } else if has_npm {
        ProjectKind::NpmTypeScript
    } else {
        ProjectKind::Unknown
    }
}

/// Source locations ordered stably by path.
pub open spec fn sorted_locations(locs: Seq<SourceLocation>) -> Seq<
    (Seq<char>, Option<u32>, Option<u32>, Seq<char>),
> {
    sorted_order(
        path_keys(locs.map_values(|l: SourceLocation| l.path)),
        locs.len() as int,
    ).map_values(|i: int| locs[i]@)
}

/// Sum of the content lengths of accepted entries.
pub open spec fn content_total(files: Seq<(String, Vec<u8>)>) -> int
    decreases files.len(),
{
    if files.len() == 0 {
        0
    } else {
        content_total(files.drop_last()) + files.last().1@.len()
    }
}

impl TraversalState {
    /// The accumulator's invariant under `limits`: one source location per
    /// accepted file, at the same path; a byte total that is the sum of the
    /// accepted contents and stays within the aggregate limit.
    pub open spec fn well_formed(&self, limits: InspectionLimits) -> bool {
        &&& self.source_locations@.len() == self.accepted_files@.len()
        &&& forall|k: int|
            0 <= k < self.accepted_files@.len() ==> #[trigger] self.source_locations@[k].path@
                == self.accepted_files@[k].0@
        &&& self.total_bytes == content_total(self.accepted_files@)
        &&& self.total_bytes <= limits.max_inspection_bytes
        &&& forall|k: int| 0 <= k < self.accepted_files@.len() ==> admissible_path(#[trigger] self.accepted_files@[k].0@)
    }

    /// An empty accumulator.
    pub fn new() -> (r: Self)
        ensures
            forall|limits: InspectionLimits| #[trigger] r.well_formed(limits),
            r.accepted_files@.len() == 0,
            r.source_locations@.len() == 0,
            r.warnings@.len() == 0,
            r.seen_rust_source == 0,
            r.seen_ts_source == 0,
            r.total_bytes == 0,
            !r.saw_depth_prune,
            r.considered_files == 0,
    {
        TraversalState {
            accepted_files: Vec::new(),
            source_locations: Vec::new(),
            warnings: Vec::new(),
            seen_rust_source: 0,
            seen_ts_source: 0,
            total_bytes: 0,
            saw_depth_prune: false,
            considered_files: 0,
        }
    }

    /// Number of accepted files.
    pub fn file_count(&self) -> (r: u64)
        ensures
            r == self.accepted_files@.len(),
    {
        self.accepted_files.len() as u64
    }

    /// Counts one more considered candidate and checks the file-count limit.
    pub fn count_candidate(&mut self, limits: &InspectionLimits) -> (r: Option<StopReason>)
        ensures
            final(self).considered_files == if old(self).considered_files == u64::MAX {
                u64::MAX
            } else {
                (old(self).considered_files + 1) as u64
            },
            final(self).accepted_files == old(self).accepted_files,
            final(self).source_locations == old(self).source_locations,
            final(self).warnings == old(self).warnings,
            final(self).seen_rust_source == old(self).seen_rust_source,
            final(self).seen_ts_source == old(self).seen_ts_source,
            final(self).total_bytes == old(self).total_bytes,
            final(self).saw_depth_prune == old(self).saw_depth_prune,
            final(self).considered_files > limits.max_inspection_files ==> r == Some(
                StopReason::FileCount { considered: final(self).considered_files },
            ),
            final(self).considered_files <= limits.max_inspection_files ==> r == None::<
                StopReason,
            >,
    {
        self.considered_files = self.considered_files.saturating_add(1);
        if self.considered_files > limits.max_inspection_files {
            Some(StopReason::FileCount { considered: self.considered_files })
        } else {
            None
        }
    }

    /// Bytes still allowed before the aggregate limit.
    pub fn remaining_aggregate(&self, limits: &InspectionLimits) -> (r: u64)
        ensures
            r == if self.total_bytes >= limits.max_inspection_bytes {
                0
            } else {
                (limits.max_inspection_bytes - self.total_bytes) as u64
            },
    {
        limits.max_inspection_bytes.saturating_sub(self.total_bytes)
    }

    /// The metadata pre-check: a file whose recorded size exceeds the
    /// per-file limit is skipped with a warning naming the path and sizes.
    /// Returns whether the file may be read.
    pub fn per_file_precheck(&mut self, rel_path: &str, file_size: u64, limits: &InspectionLimits) -> (r:
        bool)
        ensures
            r == (file_size <= limits.max_per_file_bytes),
            r ==> final(self).warnings@ == old(self).warnings@,
            !r ==> final(self).warnings@.len() == old(self).warnings@.len() + 1
                && final(self).warnings@.take(old(self).warnings@.len() as int)
                == old(self).warnings@ && final(self).warnings@.last()@ == "file "@ + rel_path@
                + " exceeds max-per-file limit ("@ + decimal(file_size as nat) + " > "@ + decimal(
                limits.max_per_file_bytes as nat,
            ) + " bytes), skipped"@,
            final(self).accepted_files == old(self).accepted_files,
            final(self).source_locations == old(self).source_locations,
            final(self).seen_rust_source == old(self).seen_rust_source,
            final(self).seen_ts_source == old(self).seen_ts_source,
            final(self).total_bytes == old(self).total_bytes,
            final(self).saw_depth_prune == old(self).saw_depth_prune,
            final(self).considered_files == old(self).considered_files,
    {
        if file_size > limits.max_per_file_bytes {
            let mut m = String::from_str("file ");
            m.append(rel_path);
            m.append(" exceeds max-per-file limit (");
            let a = u64_decimal(file_size);
            m.append(a.as_str());
            m.append(" > ");
            let b = u64_decimal(limits.max_per_file_bytes);
            m.append(b.as_str());
            m.append(" bytes), skipped");
            self.warnings.push(m);
            assert(self.warnings@.take(old(self).warnings@.len() as int) =~= old(self).warnings@);
            false
        } else {
            true
        }
    }

    /// Accepts the bytes read for `rel_path`, or reports that they would
    /// exceed the aggregate limit.
    ///
    /// # Errors
    ///
    /// Returns [`DiscoveryError::InspectionFailure`] when the byte total
    /// overflows `u64`.
    pub fn accept_content(&mut self, rel_path: String, content: Vec<u8>, limits: &InspectionLimits) -> (r:
        DiscoveryResult<Option<StopReason>>)
        requires
            old(self).seen_rust_source < u64::MAX,
            old(self).seen_ts_source < u64::MAX,
            old(self).well_formed(*limits),
            admissible_path(rel_path@),
        ensures
            final(self).well_formed(*limits),
            old(self).total_bytes + content@.len() > u64::MAX ==> (r matches Err(
                DiscoveryError::InspectionFailure(m),
            ) && m@ == "byte total overflow"@) && *final(self) == *old(self),
            old(self).total_bytes + content@.len() <= u64::MAX && old(self).total_bytes
                + content@.len() > limits.max_inspection_bytes ==> r == Ok::<
                Option<StopReason>,
                DiscoveryError,
            >(Some(StopReason::TotalBytes { observed: old(self).total_bytes }))
                && *final(self) == *old(self),
            old(self).total_bytes + content@.len() <= limits.max_inspection_bytes ==> {
                &&& r == Ok::<Option<StopReason>, DiscoveryError>(None)
                &&& final(self).total_bytes == old(self).total_bytes + content@.len()
                &&& final(self).accepted_files@ == old(self).accepted_files@.push(
                    (rel_path, content),
                )
                &&& final(self).source_locations@.len() == old(self).source_locations@.len() + 1
                &&& final(self).source_locations@.drop_last() == old(self).source_locations@
                &&& final(self).source_locations@.last()@ == (
                    rel_path@,
                    None::<u32>,
                    None::<u32>,
                    spec_sha256_hex(content@),
                )
                &&& final(self).seen_rust_source == old(self).seen_rust_source + if spec_file_signal(
                    rel_path@,
                ) == Some(FileSignalKind::Rust) {
                    1int
                } else {
                    0int
                }
                &&& final(self).seen_ts_source == old(self).seen_ts_source + if spec_file_signal(
                    rel_path@,
                ) == Some(FileSignalKind::TypeScript) {
                    1int
                } else {
                    0int
                }
                &&& final(self).warnings == old(self).warnings
                &&& final(self).saw_depth_prune == old(self).saw_depth_prune
                &&& final(self).considered_files == old(self).considered_files
            },
    {
        let content_len = content.len() as u64;
        if self.total_bytes > u64::MAX - content_len {
            let m = String::from_str("byte total overflow");
            return Err(DiscoveryError::InspectionFailure(m));
        }
        let new_total = self.total_bytes + content_len;
        if new_total > limits.max_inspection_bytes {
            return Ok(Some(StopReason::TotalBytes { observed: self.total_bytes }));
        }
        let content_hash = file_content_hash(content.as_slice());
        self.source_locations.push(
            SourceLocation { path: rel_path.clone(), line: None, column: None, content_hash },
        );
        match classify_file_signal(rel_path.as_str()) {
            Some(FileSignalKind::Rust) => {
                self.seen_rust_source = self.seen_rust_source + 1;
            },
            Some(FileSignalKind::TypeScript) => {
                self.seen_ts_source = self.seen_ts_source + 1;
            },
            None => {},
        }
        self.total_bytes = new_total;
        self.accepted_files.push((rel_path, content));
        proof {
            assert(self.accepted_files@.drop_last() =~= old(self).accepted_files@);
            assert(self.source_locations@.drop_last() =~= old(self).source_locations@);
            assert forall|k: int| 0 <= k < self.accepted_files@.len() implies admissible_path(
                #[trigger] self.accepted_files@[k].0@,
            ) by {
                if k < old(self).accepted_files@.len() {
                    assert(self.accepted_files@[k] == old(self).accepted_files@[k]);
                }
            }
            assert forall|k: int| 0 <= k < self.accepted_files@.len() implies #[trigger] self.source_locations@[k].path@
                == self.accepted_files@[k].0@ by {
                if k < old(self).accepted_files@.len() {
                    assert(self.source_locations@[k] == old(self).source_locations@[k]);
                    assert(self.accepted_files@[k] == old(self).accepted_files@[k]);
                }
            }
        }
        Ok(None)
    }

    /// Signals of the accepted files: manifest signals in path order, then
    /// the nonzero source counts.
    pub fn finalize_signals(&self) -> (r: Vec<ProjectSignal>)
        ensures
            r@ == spec_signals(
                accepted_paths(self.accepted_files@),
                self.seen_rust_source,
                self.seen_ts_source,
            ),
    {
        let ghost paths = accepted_paths(self.accepted_files@);
        proof {
            reveal_strlit("Cargo.toml");
            reveal_strlit("package.json");
            assert("Cargo.toml"@[0] != "package.json"@[0]);
        }
        let mut cargo: usize = 0;
        let mut npm: usize = 0;
        let mut i: usize = 0;
        while i < self.accepted_files.len()
            invariant
                i <= self.accepted_files@.len(),
                paths == accepted_paths(self.accepted_files@),
                cargo == count_path(paths.take(i as int), "Cargo.toml"@),
                npm == count_path(paths.take(i as int), "package.json"@),
                cargo <= i,
                npm <= i,
                "Cargo.toml"@ != "package.json"@,
            decreases self.accepted_files@.len() - i,
        {
            proof {
                assert(paths.take(i + 1).drop_last() =~= paths.take(i as int));
                assert(paths.take(i + 1).last() == self.accepted_files@[i as int].0@);
            }
            let p = self.accepted_files[i].0.as_str();
            if str_eq(p, "Cargo.toml") {
                cargo = cargo + 1;
            } else if str_eq(p, "package.json") {
                npm = npm + 1;
            }
            i += 1;
        }
        assert(paths.take(self.accepted_files@.len() as int) =~= paths);
        let mut signals: Vec<ProjectSignal> = Vec::new();
        let mut k: usize = 0;
        while k < cargo
            invariant
                k <= cargo,
                signals@ =~= Seq::new(k as nat, |j: int| ProjectSignal::CargoManifest),
            decreases cargo - k,
        {
            signals.push(ProjectSignal::CargoManifest);
            k += 1;
        }
        let ghost first = signals@;
        let mut k: usize = 0;
        while k < npm
            invariant
                k <= npm,
                signals@ =~= first + Seq::new(k as nat, |j: int| ProjectSignal::NpmManifest),
            decreases npm - k,
        {
            signals.push(ProjectSignal::NpmManifest);
            k += 1;
        }
        if self.seen_rust_source > 0 {
            signals.push(ProjectSignal::RustSource { count: self.seen_rust_source });
        }
        if self.seen_ts_source > 0 {
            signals.push(ProjectSignal::TypeScriptSource { count: self.seen_ts_source });
        }
        signals
    }

    /// Classifies the project from finalized signals.
    pub fn classify_project(signals: &[ProjectSignal]) -> (r: ProjectKind)
        ensures
            r == spec_project_kind(signals@),
    {
        let mut has_cargo = false;
        let mut has_npm = false;
        let mut i: usize = 0;
        while i < signals.len()
            invariant
                i <= signals@.len(),
                has_cargo == exists|j: int| 0 <= j < i && signals@[j] == ProjectSignal::CargoManifest,
                has_npm == exists|j: int| 0 <= j < i && signals@[j] == ProjectSignal::NpmManifest,
            decreases signals@.len() - i,
        {
            match signals[i] {
                ProjectSignal::CargoManifest => {
                    has_cargo = true;
                },
                ProjectSignal::NpmManifest => {
                    has_npm = true;
                },
                _ => {},
            }
            i += 1;
        }
        if has_cargo && has_npm {
            ProjectKind::Mixed
        } else if has_cargo {
            ProjectKind::RustCargo
        } else if has_npm {
            ProjectKind::NpmTypeScript
        } else {
            ProjectKind::Unknown
        }
    }

    /// Builds the final snapshot: locations sorted by path, signals and
    /// kind from the accepted files, and the framed hash over them. The file
    /// count is the number of listed files, and the byte total stays within
    /// the aggregate limit.
    pub fn into_snapshot(self, snapshot_state: SnapshotState, limits: &InspectionLimits) -> (r: ProjectSnapshot)
        requires
            self.well_formed(*limits),
        ensures
            r.files@.len() == r.file_count,
            forall|k: int| 0 <= k < r.files@.len() ==> admissible_path((#[trigger] r.files@[k]).path@),
            r.total_bytes <= limits.max_inspection_bytes,
            r.total_bytes == content_total(self.accepted_files@),
            r.project_hash@ == spec_framed_hash(self.accepted_files@),
            r.signals@ == spec_signals(
                accepted_paths(self.accepted_files@),
                self.seen_rust_source,
                self.seen_ts_source,
            ),
            r.project_kind == spec_project_kind(r.signals@),
            r.file_count == self.accepted_files@.len(),
            r.total_bytes == self.total_bytes,
            r.state == snapshot_state,
            r.warnings == self.warnings,
            r.files@.map_values(|l: SourceLocation| l@) == sorted_locations(self.source_locations@),
            r.cargo.is_none(),
            r.rust.is_none(),
            r.platform.is_none(),
    {
        let files = sort_locations(&self.source_locations);
        proof {
            assert forall|k: int| 0 <= k < files@.len() implies admissible_path((#[trigger] files@[k]).path@) by {
                let i = choose|i: int| 0 <= i < self.source_locations@.len() && files@[k]@ == self.source_locations@[i]@;
                assert(self.source_locations@[i].path@ == self.accepted_files@[i].0@);
                assert(admissible_path(self.accepted_files@[i].0@));
            }
        }
        let signals = self.finalize_signals();
        let project_kind = Self::classify_project(signals.as_slice());
        let file_count = self.file_count();
        let project_hash = compute_project_hash(self.accepted_files.as_slice());
        ProjectSnapshot {
            project_hash,
            project_kind,
            signals,
            file_count,
            total_bytes: self.total_bytes,
            state: snapshot_state,
            warnings: self.warnings,
            files,
            cargo: None,
            rust: None,
            platform: None,
        }
    }
}

/// Copies of `locs` ordered stably by path.
pub fn sort_locations(locs: &Vec<SourceLocation>) -> (r: Vec<SourceLocation>)
    ensures
        r@.len() == locs@.len(),
        forall|q: int| 0 <= q < r@.len() ==> exists|i: int| 0 <= i < locs@.len() && (#[trigger] r@[q])@ == locs@[i]@,
        r@.map_values(|l: SourceLocation| l@) == sorted_locations(locs@),
{
    let mut paths: Vec<String> = Vec::new();
    let mut i: usize = 0;
    while i < locs.len()
        invariant
            i <= locs@.len(),
            paths@.len() == i,
            forall|k: int| 0 <= k < i ==> #[trigger] paths@[k] == locs@[k].path,
        decreases locs@.len() - i,
    {
        paths.push(locs[i].path.clone());
        i += 1;
    }
    assert(paths@ =~= locs@.map_values(|l: SourceLocation| l.path));
    let order = sort_indices_by_path(paths.as_slice());
    let ghost ord = order@.map_values(|i: usize| i as int);
    let mut out: Vec<SourceLocation> = Vec::new();
    let mut k: usize = 0;
    while k < order.len()
        invariant
            k <= order@.len(),
            paths@.len() == locs@.len(),
            ord == order@.map_values(|i: usize| i as int),
            forall|q: int| 0 <= q < order@.len() ==> #[trigger] order@[q] < paths@.len(),
            out@.len() == k,
            forall|q: int| 0 <= q < k ==> #[trigger] out@[q]@ == locs@[ord[q]]@,
        decreases order@.len() - k,
    {
        let idx = order[k];
        out.push(locs[idx].clone());
        k += 1;
    }
    assert(out@.map_values(|l: SourceLocation| l@) =~= ord.map_values(|i: int| locs@[i]@));
    assert forall|q: int| 0 <= q < out@.len() implies exists|i: int| 0 <= i < locs@.len() && (#[trigger] out@[q])@ == locs@[i]@ by {
        assert(out@[q]@ == locs@[ord[q]]@);
        assert(ord[q] == order@[q] as int);
    }
    out
}

} // verus!
