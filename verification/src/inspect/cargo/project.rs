//! The decisions of a Cargo project inspection. The caller performs the
//! reads (never following symlinks) and hands each outcome to a
//! [`CargoProject`], which turns it into evidence, warnings, and the
//! completion state; [`CargoProject::finish`] then assembles the
//! [`CargoInspection`].

use vstd::prelude::*;
use vstd::string::StringExecFns;

use crate::error::{DiscoveryError, DiscoveryResult};
use crate::hashing::spec_sha256_hex;
use crate::inspect::cargo::lock::{
    locked_views, optional_number_after, optional_number_after_marker, parse_lock, parsed_lock_is, resolve_compatibility,
    resolved_as, spec_malformed_reason, spec_resolution, spec_toml_line_col, toml_line_col,
    toml_malformed_reason, utf8_text, LockedV, ParsedLock,
};
use crate::inspect::cargo::manifest::{
    bases_of, doc_entries, field_entries, fields_view, manifest_error_message, manifest_warnings, package_is,
    parse_manifest, parse_manifest_from_value, parse_workspace_deps, parse_workspace_package_fields,
    parsed_manifest_is, Collected, ParsedManifest,
};
use crate::inspect::cargo::members::{
    invalid_member_hint, normalize_member_path, spec_member_hint, spec_normalize_member_path,
};
use crate::inspect::cargo::provenance::{sat_add, ProvenanceAccumulator};
use crate::inspect::cargo::toml_value::{
    parse_toml, spec_parse_toml, spec_table_at, table_at, TomlValue,
};
use crate::inspect::cargo::types::{
    warning_views, AmariDependencyEvidence, CargoInspection, CargoInspectionWarning, CargoLock,
    CargoPackage, CargoWarningV, WorkspaceDependencyBase, WorkspaceMeta,
};
use crate::inspect::framing::framed_hash_of;
use crate::inspect::snapshot::{InspectionLimit, InspectionLimits, SnapshotState};
use crate::inspect::traversal::{bounded_read, read_budget, BoundedOutcome};
use crate::ndjson::io_error_text;
use crate::order::{sort_dedup_strings, sorted_by_key, sorted_dedup, sort_key_views, stable_sort_by_key, sort_key_view, views, SortKey, SortKeyV};
use crate::text::{debug_opt, debug_opt_usize, decimal, before_text, text_before, u64_decimal};

verus! {

// ---------------------------------------------------------------------------
// Reads
// ---------------------------------------------------------------------------

/// Outcome of a bounded manifest or lockfile read.
pub enum ReadOutcome {
    /// The file was read within limits.
    Accepted(Vec<u8>),
    /// The path was a symlink, or was replaced while opening.
    Symlink,
    /// The path does not exist.
    NotFound,
    /// The file exceeds the per-file byte limit.
    PerFileExceeded,
    /// Accepting the file would exceed the aggregate byte limit.
    AggregateExceeded,
    /// Another I/O error, by its message.
    IoErr(String),
}

/// Classifies a bounded read against the aggregate byte allowance, given
/// the bytes already accepted.
pub fn classify_read(bounded: BoundedOutcome, aggregate_so_far: u64, limits: &InspectionLimits) -> (r:
    ReadOutcome)
    ensures
        match bounded {
            BoundedOutcome::Accepted(b) => if sat_add(aggregate_so_far, b@.len() as int)
                > limits.max_inspection_bytes {
                r is AggregateExceeded
            } else {
                r == ReadOutcome::Accepted(b)
            },
            BoundedOutcome::PerFileExceeded => r is PerFileExceeded,
        },
{
    match bounded {
        BoundedOutcome::Accepted(bytes) => {
            let len = bytes.len() as u64;
            if aggregate_so_far.saturating_add(len) > limits.max_inspection_bytes {
                ReadOutcome::AggregateExceeded
            } else {
                ReadOutcome::Accepted(bytes)
            }
        },
        BoundedOutcome::PerFileExceeded => ReadOutcome::PerFileExceeded,
    }
}

/// What remains of the aggregate byte allowance after `so_far` bytes.
pub open spec fn remaining_allowance(max: u64, so_far: u64) -> u64 {
    if so_far <= max {
        (max - so_far) as u64
    } else {
        0u64
    }
}

/// The outcomes a bounded manifest or lockfile read may give: bytes within
/// the per-file limit whose acceptance keeps the aggregate within its limit;
/// an oversize file, only where the read budget goes past the per-file limit;
/// an aggregate overrun, only where some byte count the read may return
/// takes the aggregate past its limit; or the reader's own I/O error.
pub open spec fn read_limited_possible(r: ReadOutcome, limits: InspectionLimits, so_far: u64) -> bool {
    let per = limits.max_per_file_bytes;
    let rem = remaining_allowance(limits.max_inspection_bytes, so_far);
    match r {
        ReadOutcome::Accepted(b) => b@.len() <= per && b@.len() <= read_budget(per, rem) && sat_add(
            so_far,
            b@.len() as int,
        ) <= limits.max_inspection_bytes,
        ReadOutcome::PerFileExceeded => per < read_budget(per, rem),
        ReadOutcome::AggregateExceeded => exists|n: int|
            0 <= n <= per && n <= read_budget(per, rem) && #[trigger] sat_add(so_far, n)
                > limits.max_inspection_bytes,
        ReadOutcome::IoErr(_) => true,
        ReadOutcome::Symlink => false,
        ReadOutcome::NotFound => false,
    }
}

/// Reads an opened manifest or lockfile within the per-file limit and what
/// remains of the aggregate allowance.
///
/// Accepted bytes never exceed the per-file limit, and accepting them never
/// takes the aggregate past its limit; what the bytes are depends on the
/// reader.
pub fn read_limited<R: std::io::Read>(reader: &mut R, limits: &InspectionLimits, aggregate_so_far: u64) -> (r:
    ReadOutcome)
    ensures
        r matches ReadOutcome::Accepted(b) ==> b@.len() <= limits.max_per_file_bytes && sat_add(
            aggregate_so_far,
            b@.len() as int,
        ) <= limits.max_inspection_bytes,
        !(r is Symlink),
        !(r is NotFound),
        read_limited_possible(r, *limits, aggregate_so_far),
{
    let remaining = limits.max_inspection_bytes.saturating_sub(aggregate_so_far);
    assert(remaining == remaining_allowance(limits.max_inspection_bytes, aggregate_so_far));
    match bounded_read(reader, limits.max_per_file_bytes, remaining) {
        Ok(b) => {
            let ghost gb = b;
            let r = classify_read(b, aggregate_so_far, limits);
            proof {
                if let BoundedOutcome::Accepted(v) = gb {
                    if r is AggregateExceeded {
                        assert(sat_add(aggregate_so_far, v@.len() as int) > limits.max_inspection_bytes);
                    }
                }
            }
            r
        },
        Err(e) => ReadOutcome::IoErr(io_error_text(&e)),
    }
}

/// The message of an exhausted wall-clock budget.
pub open spec fn wall_clock_message(max_millis: u64, elapsed_millis: u64) -> Seq<char> {
    "wall-clock limit "@ + decimal(max_millis as nat) + "ms exceeded after "@ + decimal(elapsed_millis as nat)
        + "ms"@
}

/// Checks the wall-clock budget: exhausted once the elapsed time reaches it.
///
/// # Errors
///
/// Returns [`DiscoveryError::LimitExceeded`] when the budget is exhausted.
pub fn check_wall_clock(elapsed_millis: u64, limits: &InspectionLimits) -> (r: DiscoveryResult<()>)
    ensures
        elapsed_millis < limits.max_inspection_wall_millis ==> r is Ok,
        elapsed_millis >= limits.max_inspection_wall_millis ==> (r matches Err(DiscoveryError::LimitExceeded(m))
            && m@ == wall_clock_message(limits.max_inspection_wall_millis, elapsed_millis)),
{
    if elapsed_millis >= limits.max_inspection_wall_millis {
        let mut m = String::from_str("wall-clock limit ");
        let a = u64_decimal(limits.max_inspection_wall_millis);
        m.append(a.as_str());
        m.append("ms exceeded after ");
        let b = u64_decimal(elapsed_millis);
        m.append(b.as_str());
        m.append("ms");
        Err(DiscoveryError::LimitExceeded(m))
    } else {
        Ok(())
    }
}

// ---------------------------------------------------------------------------
// Project state
// ---------------------------------------------------------------------------

/// The state of a Cargo project inspection between reads.
pub struct CargoProject {
    /// The catalog version dependencies are compared against.
    pub catalog_version: String,
    /// Non-fatal warnings so far.
    pub warnings: Vec<CargoInspectionWarning>,
    /// Accepted inputs.
    pub provenance: ProvenanceAccumulator,
    /// The root package.
    pub root_package: CargoPackage,
    /// The root's workspace metadata, when it declares `[workspace]`.
    pub workspace_meta: Option<WorkspaceMeta>,
    /// `[workspace.dependencies]` bases.
    pub bases: Vec<(String, WorkspaceDependencyBase)>,
    /// `[workspace.package]` fields.
    pub fields: Vec<(String, String)>,
    /// The parsed lockfile, when read (its warnings moved to `warnings`).
    pub lock: Option<ParsedLock>,
    /// The lockfile content, empty when none was read.
    pub lock_content: Vec<u8>,
    /// Bytes accepted so far (saturating).
    pub aggregate_bytes: u64,
    /// Parsed workspace members, in inspection order.
    pub members: Vec<CargoPackage>,
    /// The limit that stopped member inspection, if any.
    pub member_state: Option<SnapshotState>,
}

/// The root manifest as a parse result, from an inspection result.
pub open spec fn root_parse(r: DiscoveryResult<CargoProject>, m: Seq<(String, TomlValue)>) -> DiscoveryResult<
    ParsedManifest,
> {
    match r {
        Ok(p) => Ok(
            ParsedManifest {
                package: p.root_package,
                ws_meta: p.workspace_meta,
                declares_workspace: spec_table_at(m, "workspace"@) is Some,
            },
        ),
        Err(e) => Err(e),
    }
}

/// Whether `bases` and `fields` are those of the root's `[workspace]` table
/// (none without one).
pub open spec fn root_bases_are(
    bases: Seq<(String, WorkspaceDependencyBase)>,
    fields: Seq<(String, String)>,
    m: Seq<(String, TomlValue)>,
) -> bool {
    match spec_table_at(m, "workspace"@) {
        Some(ws) => bases_of(bases, ws) && fields_view(fields) == match spec_table_at(ws, "package"@) {
            Some(t) => field_entries(t),
            None => seq![],
        },
        None => bases.len() == 0 && fields.len() == 0,
    }
}

/// The state right after the root manifest `b` was accepted.
pub open spec fn fresh_root_state(p: CargoProject, m: Seq<(String, TomlValue)>, b: Seq<u8>, cv: Seq<char>) -> bool {
    &&& root_bases_are(p.bases@, p.fields@, m)
    &&& p.catalog_version@ == cv
    &&& p.provenance.spec_entries() == seq![("Cargo.toml"@, b)]
    &&& p.provenance.spec_file_count() == 1
    &&& p.provenance.spec_total_bytes() == b.len()
    &&& p.aggregate_bytes == b.len()
    &&& p.lock is None
    &&& p.lock_content@.len() == 0
    &&& p.members@.len() == 0
    &&& p.member_state is None
}

/// What reading the root manifest table `m` (content `b`) gives.
pub open spec fn root_project_is(r: DiscoveryResult<CargoProject>, m: Seq<(String, TomlValue)>, b: Seq<u8>, cv: Seq<
    char,
>) -> bool {
    &&& parsed_manifest_is(
        root_parse(r, m),
        m,
        ("Cargo.toml"@, None, spec_sha256_hex(b), b.len() as u64),
        "Cargo.toml"@,
        true,
        match r {
            Ok(p) => p.bases@,
            Err(_) => seq![],
        },
        match r {
            Ok(p) => p.fields@,
            Err(_) => seq![],
        },
        seq![],
        match r {
            Ok(p) => warning_views(p.warnings@),
            Err(_) => seq![],
        },
    )
    &&& r matches Ok(p) ==> fresh_root_state(p, m, b, cv)
}

/// The message of a root manifest whose TOML does not parse.
pub open spec fn root_error_message(e: crate::inspect::cargo::toml_value::TomlError, b: Seq<u8>) -> Seq<char> {
    spec_malformed_reason(e.message@) + " in root Cargo.toml at line "@ + debug_opt(spec_toml_line_col(e, b).0)
        + " col "@ + debug_opt(spec_toml_line_col(e, b).1)
}

/// The locked packages of an optional parsed lockfile.
pub open spec fn lock_view(l: Option<ParsedLock>) -> Option<Seq<LockedV>> {
    match l {
        Some(p) => Some(locked_views(p.packages@)),
        None => None,
    }
}

/// Whether `post` is `pre` with each dependency resolved against the
/// lockfile packages and the catalog version.
pub open spec fn deps_resolved(
    pre: Seq<AmariDependencyEvidence>,
    post: Seq<AmariDependencyEvidence>,
    lock: Option<Seq<LockedV>>,
    catalog: Seq<char>,
    content: Seq<u8>,
) -> bool {
    &&& post.len() == pre.len()
    &&& forall|i: int|
        0 <= i < pre.len() ==> resolved_as(
            pre[i],
            #[trigger] post[i],
            spec_resolution(pre[i].package_name@, pre[i].declared_version@, lock, catalog),
            ("Cargo.lock"@, None, spec_sha256_hex(content), content.len() as u64),
        )
}

/// Whether `post` is the package `pre` with its dependencies resolved.
pub open spec fn package_resolved(
    pre: CargoPackage,
    post: CargoPackage,
    lock: Option<Seq<LockedV>>,
    catalog: Seq<char>,
    content: Seq<u8>,
) -> bool {
    &&& post.name == pre.name
    &&& post.version == pre.version
    &&& post.manifest_path == pre.manifest_path
    &&& post.benches == pre.benches
    &&& post.native_link == pre.native_link
    &&& post.inherited_metadata == pre.inherited_metadata
    &&& post.system_dependencies == pre.system_dependencies
    &&& post.dependency_records == pre.dependency_records
    &&& post.autobenches == pre.autobenches
    &&& deps_resolved(pre.dependencies@, post.dependencies@, lock, catalog, content)
}

/// The warning for a lockfile that could not be accepted.
pub open spec fn lock_skip_warning(o: ReadOutcome, aggregate: u64, limits: InspectionLimits) -> CargoWarningV {
    match o {
        ReadOutcome::Symlink => CargoWarningV::SymlinkedManifest("Cargo.lock"@),
        ReadOutcome::PerFileExceeded | ReadOutcome::AggregateExceeded => CargoWarningV::LimitExceeded(
            InspectionLimit::TotalBytes { max: limits.max_inspection_bytes, observed: aggregate },
        ),
        _ => CargoWarningV::MissingLock("Cargo.lock"@),
    }
}

/// The normalized paths of a workspace member list, rejected entries
/// dropped, in order.
pub open spec fn normalized_members(ms: Seq<Seq<char>>) -> Seq<Seq<char>>
    decreases ms.len(),
{
    if ms.len() == 0 {
        seq![]
    } else {
        normalized_members(ms.drop_last()) + match spec_normalize_member_path(ms.last()) {
            Some(n) => seq![n],
            None => seq![],
        }
    }
}

/// One illegal-member warning per rejected entry of a member list, in order.
pub open spec fn illegal_member_warnings(ms: Seq<Seq<char>>) -> Seq<CargoWarningV>
    decreases ms.len(),
{
    if ms.len() == 0 {
        seq![]
    } else {
        illegal_member_warnings(ms.drop_last()) + match spec_normalize_member_path(ms.last()) {
            Some(_) => seq![],
            None => seq![CargoWarningV::IllegalMemberPath(spec_member_hint(ms.last()))],
        }
    }
}

/// The declared member list of optional workspace metadata.
pub open spec fn meta_members(meta: Option<WorkspaceMeta>) -> Seq<Seq<char>> {
    match meta {
        Some(m) => views(m.members@),
        None => seq![],
    }
}

/// Whether `b` is `a` with at most its warnings and member state changed.
pub open spec fn same_evidence(a: CargoProject, b: CargoProject) -> bool {
    &&& b.catalog_version == a.catalog_version
    &&& b.provenance == a.provenance
    &&& b.root_package == a.root_package
    &&& b.workspace_meta == a.workspace_meta
    &&& b.bases == a.bases
    &&& b.fields == a.fields
    &&& b.lock == a.lock
    &&& b.lock_content == a.lock_content
    &&& b.aggregate_bytes == a.aggregate_bytes
    &&& b.members == a.members
}

/// The project-relative manifest path of a member directory.
pub open spec fn member_manifest(dir: Seq<char>) -> Seq<char> {
    dir + "/Cargo.toml"@
}

/// The message parsing a member manifest fails with, when it fails.
pub open spec fn member_error(b: Seq<u8>, path: Seq<char>) -> Option<Seq<char>> {
    if !vstd::utf8::valid_utf8(b) {
        Some("manifest "@ + path + " is not valid UTF-8"@)
    } else {
        match spec_parse_toml(vstd::utf8::decode_utf8(b)) {
            Err(e) => Some(manifest_error_message(e, b, path)),
            Ok(doc) => if spec_table_at(doc_entries(doc), "package"@) is None {
                Some("missing [package] section in "@ + path)
            } else {
                None
            },
        }
    }
}

/// The warning for a member manifest that does not parse: the reason is
/// the message up to its first `" at "`, and the line and column are the
/// numbers written after `" line "` and `" col "` (as `Some(N)`).
pub open spec fn malformed_member(path: Seq<char>, msg: Seq<char>) -> CargoWarningV {
    CargoWarningV::MalformedManifest(
        path,
        text_before(msg, " at "@),
        optional_number_after(msg, " line "@),
        optional_number_after(msg, " col "@),
    )
}

/// The table of member content that parses as TOML.
pub open spec fn member_doc(b: Seq<u8>) -> Seq<(String, TomlValue)> {
    match spec_parse_toml(vstd::utf8::decode_utf8(b)) {
        Ok(doc) => doc_entries(doc),
        Err(_) => seq![],
    }
}

/// The `[package]` table of member content.
pub open spec fn member_package_table(b: Seq<u8>) -> Seq<(String, TomlValue)> {
    match spec_table_at(member_doc(b), "package"@) {
        Some(pt) => pt,
        None => seq![],
    }
}

/// What accepting the member manifest `b` at `path` does to the warnings
/// and the members: a malformed-manifest warning when it does not parse; a
/// nested-workspace warning, after the manifest's own, when it declares
/// `[workspace]`; otherwise its package, dependencies resolved, is added.
pub open spec fn member_accepted(a: CargoProject, z: CargoProject, path: Seq<char>, b: Seq<u8>) -> bool {
    let m = member_doc(b);
    let pt = member_package_table(b);
    let src = (path, None::<usize>, spec_sha256_hex(b), b.len() as u64);
    match member_error(b, path) {
        Some(msg) => warning_views(z.warnings@) == warning_views(a.warnings@).push(malformed_member(path, msg))
            && z.members == a.members,
        None => if spec_table_at(m, "workspace"@) is Some {
            warning_views(z.warnings@) == warning_views(a.warnings@) + manifest_warnings(m, pt, a.bases@, a.fields@)
                + seq![CargoWarningV::NestedWorkspaceRoot(path)] && z.members == a.members
        } else {
            &&& warning_views(z.warnings@) == warning_views(a.warnings@) + manifest_warnings(
                m,
                pt,
                a.bases@,
                a.fields@,
            )
            &&& z.members@.len() == a.members@.len() + 1
            &&& z.members@.drop_last() == a.members@
            &&& exists|pre: CargoPackage, c: Collected|
                #[trigger] package_is(pre, m, pt, path, a.bases@, a.fields@, src, c) && package_resolved(
                    pre,
                    z.members@.last(),
                    lock_view(a.lock),
                    a.catalog_version@,
                    a.lock_content@,
                )
        },
    }
}

/// The warning for a member manifest that is skipped without stopping.
pub open spec fn member_skip_warning(o: ReadOutcome, path: Seq<char>, limits: InspectionLimits) -> CargoWarningV {
    match o {
        ReadOutcome::Symlink => CargoWarningV::SymlinkedManifest(path),
        ReadOutcome::PerFileExceeded => CargoWarningV::LimitExceeded(
            InspectionLimit::TotalBytes {
                max: limits.max_per_file_bytes,
                observed: sat_add(limits.max_per_file_bytes, 1),
            },
        ),
        _ => CargoWarningV::MissingManifest(path),
    }
}

/// The sort keys of packages by name.
pub open spec fn name_keys_of(v: Seq<CargoPackage>) -> Seq<SortKeyV> {
    v.map_values(|p: CargoPackage| (p.name@, Seq::<char>::empty(), 0int, None::<Seq<char>>))
}

/// Sort keys of packages by name.
fn name_keys(v: &Vec<CargoPackage>) -> (r: Vec<SortKey>)
    ensures
        r@.len() == v@.len(),
        sort_key_views(r@) == name_keys_of(v@),
{
    let mut out: Vec<SortKey> = Vec::new();
    let mut i: usize = 0;
    while i < v.len()
        invariant
            i <= v@.len(),
            out@.len() == i,
            sort_key_views(out@) == name_keys_of(v@.take(i as int)),
        decreases v@.len() - i,
    {
        let ghost prev = out@;
        let key = SortKey { first: v[i].name.clone(), second: String::new(), rank: 0, last: None };
        let ghost kv = (v@[i as int].name@, Seq::<char>::empty(), 0int, None::<Seq<char>>);
        assert(sort_key_view(key) == kv);
        out.push(key);
        assert(sort_key_views(out@) =~= sort_key_views(prev).push(kv));
        assert(name_keys_of(v@.take(i + 1)) =~= name_keys_of(v@.take(i as int)).push(kv));
        i += 1;
    }
    assert(v@.take(v@.len() as int) =~= v@);
    out
}

/// The normalized paths of a member list, rejected entries dropped.
fn normalized_member_list(members: &Vec<String>) -> (r: Vec<String>)
    ensures
        views(r@) == normalized_members(views(members@)),
{
    let ghost ms = views(members@);
    let mut out: Vec<String> = Vec::new();
    let mut i: usize = 0;
    while i < members.len()
        invariant
            i <= members@.len(),
            ms == views(members@),
            views(out@) == normalized_members(ms.take(i as int)),
        decreases members@.len() - i,
    {
        proof {
            assert(ms.take(i + 1).drop_last() =~= ms.take(i as int));
            assert(ms.take(i + 1).last() == members@[i as int]@);
        }
        let ghost prev = out@;
        match normalize_member_path(members[i].as_str()) {
            Some(n) => {
                out.push(n);
                assert(views(out@) =~= views(prev) + seq![n@]);
            },
            None => {
                assert(views(out@) =~= normalized_members(ms.take(i + 1)));
            },
        }
        i += 1;
    }
    assert(ms.take(ms.len() as int) =~= ms);
    out
}

/// Workspace metadata with its members kept as their normalized, distinct
/// paths in sorted order.
fn normalize_meta(meta: WorkspaceMeta) -> (r: WorkspaceMeta)
    ensures
        views(r.members@) == sorted_dedup(normalized_members(views(meta.members@))),
        r.dependency_bases == meta.dependency_bases,
        r.package_fields == meta.package_fields,
{
    let WorkspaceMeta { members: declared, dependency_bases, package_fields } = meta;
    let normalized = normalized_member_list(&declared);
    WorkspaceMeta { members: sort_dedup_strings(normalized), dependency_bases, package_fields }
}

/// The public lockfile evidence of a parsed lockfile and its content.
fn lock_evidence(pl: ParsedLock, content: &Vec<u8>, provenance: &ProvenanceAccumulator) -> (r: CargoLock)
    ensures
        r.path@ == "Cargo.lock"@,
        r.packages == pl.packages,
        r.source@ == ("Cargo.lock"@, None::<usize>, spec_sha256_hex(content@), content@.len() as u64),
{
    CargoLock {
        path: String::from_str("Cargo.lock"),
        packages: pl.packages,
        source: provenance.make_source("Cargo.lock", content.as_slice(), None),
    }
}

impl CargoProject {
    /// Starts an inspection from the read of the root `Cargo.toml`: the
    /// root must be read, be UTF-8 and valid TOML, and declare `[package]`.
    /// Its `[workspace]` table gives the dependency bases and package
    /// fields that members inherit.
    ///
    /// # Errors
    ///
    /// Returns [`DiscoveryError::LimitExceeded`] when the root exceeds the
    /// byte limits, and [`DiscoveryError::InspectionFailure`] when it is a
    /// symlink, missing, unreadable, not UTF-8, not valid TOML, or has no
    /// `[package]` table.
    pub fn from_root(outcome: ReadOutcome, catalog_version: &str) -> (r: DiscoveryResult<CargoProject>)
        requires
            outcome matches ReadOutcome::Accepted(b) ==> b@.len() < usize::MAX,
        ensures
            outcome is Symlink ==> (r matches Err(DiscoveryError::InspectionFailure(m)) && m@
                == "root Cargo.toml is a symlink and cannot be inspected"@),
            outcome is NotFound ==> (r matches Err(DiscoveryError::InspectionFailure(m)) && m@
                == "root Cargo.toml not found"@),
            (outcome is PerFileExceeded || outcome is AggregateExceeded) ==> (r matches Err(
                DiscoveryError::LimitExceeded(m),
            ) && m@ == "root Cargo.toml exceeds byte limits"@),
            outcome matches ReadOutcome::IoErr(t) ==> (r matches Err(DiscoveryError::InspectionFailure(m)) && m@
                == "cannot read root Cargo.toml: "@ + t@),
            outcome matches ReadOutcome::Accepted(b) ==> (!vstd::utf8::valid_utf8(b@) ==> (r matches Err(
                DiscoveryError::InspectionFailure(m),
            ) && m@ == "root Cargo.toml is not valid UTF-8"@)),
            outcome matches ReadOutcome::Accepted(b) ==> (vstd::utf8::valid_utf8(b@) ==> match spec_parse_toml(
                vstd::utf8::decode_utf8(b@),
            ) {
                Err(e) => r matches Err(DiscoveryError::InspectionFailure(m)) && m@ == root_error_message(e, b@),
                Ok(doc) => root_project_is(r, doc_entries(doc), b@, catalog_version@),
            }),
    {
        let root_raw = match outcome {
            ReadOutcome::Accepted(bytes) => bytes,
            ReadOutcome::Symlink => {
                return Err(
                    DiscoveryError::InspectionFailure(
                        String::from_str("root Cargo.toml is a symlink and cannot be inspected"),
                    ),
                );
            },
            ReadOutcome::NotFound => {
                return Err(DiscoveryError::InspectionFailure(String::from_str("root Cargo.toml not found")));
            },
            ReadOutcome::PerFileExceeded | ReadOutcome::AggregateExceeded => {
                return Err(DiscoveryError::LimitExceeded(String::from_str("root Cargo.toml exceeds byte limits")));
            },
            ReadOutcome::IoErr(e) => {
                let mut m = String::from_str("cannot read root Cargo.toml: ");
                m.append(e.as_str());
                return Err(DiscoveryError::InspectionFailure(m));
            },
        };
        let mut provenance = ProvenanceAccumulator::new();
        provenance.accept("Cargo.toml", root_raw.as_slice());
        let text = match utf8_text(root_raw.as_slice()) {
            Some(t) => t,
            None => {
                return Err(DiscoveryError::InspectionFailure(String::from_str("root Cargo.toml is not valid UTF-8")));
            },
        };
        proof {
            vstd::utf8::encode_utf8_decode_utf8(text@);
        }
        let doc = match parse_toml(text) {
            Ok(v) => v,
            Err(e) => {
                let (line, col) = toml_line_col(&e, root_raw.as_slice());
                let mut m = toml_malformed_reason(&e);
                m.append(" in root Cargo.toml at line ");
                let l = debug_opt_usize(line);
                m.append(l.as_str());
                m.append(" col ");
                let c = debug_opt_usize(col);
                m.append(c.as_str());
                return Err(DiscoveryError::InspectionFailure(m));
            },
        };
        let empty: Vec<(String, TomlValue)> = Vec::new();
        let m: &Vec<(String, TomlValue)> = match &doc {
            TomlValue::Table(t, _) => t,
            _ => &empty,
        };
        assert(m@ == doc_entries(doc));
        let (bases, fields) = match table_at(m, "workspace") {
            Some(ws) => (parse_workspace_deps(ws), parse_workspace_package_fields(ws)),
            None => (Vec::new(), Vec::new()),
        };
        let source = provenance.make_source("Cargo.toml", root_raw.as_slice(), None);
        let mut warnings: Vec<CargoInspectionWarning> = Vec::new();
        assert(warning_views(warnings@) =~= seq![]);
        let parsed = match parse_manifest_from_value(m, &source, "Cargo.toml", true, &bases, &fields, &mut warnings) {
            Ok(p) => p,
            Err(e) => {
                return Err(e);
            },
        };
        let aggregate_bytes = root_raw.len() as u64;
        let ghost pr = parsed;
        let ParsedManifest { package, ws_meta, declares_workspace: _ } = parsed;
        let project = CargoProject {
            catalog_version: String::from_str(catalog_version),
            warnings,
            provenance,
            root_package: package,
            workspace_meta: ws_meta,
            bases,
            fields,
            lock: None,
            lock_content: Vec::new(),
            aggregate_bytes,
            members: Vec::new(),
            member_state: None,
        };
        assert(project.provenance.spec_entries() =~= seq![("Cargo.toml"@, root_raw@)]);
        Ok(project)
    }

    /// Takes in the read of `Cargo.lock`: an accepted lockfile is recorded
    /// and parsed (its warnings joining the inspection's); otherwise one
    /// warning says why it is absent. Then resolves the root's Amari
    /// dependencies against the lockfile and the catalog version.
    pub fn accept_lock(&mut self, outcome: ReadOutcome, limits: &InspectionLimits)
        requires
            outcome matches ReadOutcome::Accepted(b) ==> b@.len() < usize::MAX,
        ensures
            final(self).catalog_version == old(self).catalog_version,
            final(self).workspace_meta == old(self).workspace_meta,
            final(self).bases == old(self).bases,
            final(self).fields == old(self).fields,
            final(self).members == old(self).members,
            final(self).member_state == old(self).member_state,
            package_resolved(
                old(self).root_package,
                final(self).root_package,
                lock_view(final(self).lock),
                final(self).catalog_version@,
                final(self).lock_content@,
            ),
            outcome matches ReadOutcome::Accepted(b) ==> ({
                &&& final(self).aggregate_bytes == sat_add(old(self).aggregate_bytes, b@.len() as int)
                &&& final(self).provenance.spec_entries() == old(self).provenance.spec_entries().push(
                    ("Cargo.lock"@, b@),
                )
                &&& final(self).provenance.spec_file_count() == sat_add(old(self).provenance.spec_file_count(), 1)
                &&& final(self).provenance.spec_total_bytes() == sat_add(
                    old(self).provenance.spec_total_bytes(),
                    b@.len() as int,
                )
                &&& final(self).lock_content@ == b@
                &&& final(self).warnings@.take(old(self).warnings@.len() as int) == old(self).warnings@
                &&& final(self).lock matches Some(pl) && parsed_lock_is(
                    pl.packages@,
                    final(self).warnings@.skip(old(self).warnings@.len() as int),
                    b@,
                    "Cargo.lock"@,
                )
            }),
            !(outcome is Accepted) ==> ({
                &&& final(self).aggregate_bytes == old(self).aggregate_bytes
                &&& final(self).provenance == old(self).provenance
                &&& final(self).lock is None
                &&& final(self).lock_content@.len() == 0
                &&& warning_views(final(self).warnings@) == warning_views(old(self).warnings@).push(
                    lock_skip_warning(outcome, old(self).aggregate_bytes, *limits),
                )
            }),
    {
        let ghost w0 = self.warnings@;
        match outcome {
            ReadOutcome::Accepted(bytes) => {
                self.aggregate_bytes = self.aggregate_bytes.saturating_add(bytes.len() as u64);
                self.provenance.accept("Cargo.lock", bytes.as_slice());
                let mut parsed = parse_lock(bytes.as_slice(), "Cargo.lock");
                let ghost lw = parsed.warnings@;
                self.warnings.append(&mut parsed.warnings);
                assert(self.warnings@.take(w0.len() as int) =~= w0);
                assert(self.warnings@.skip(w0.len() as int) =~= lw);
                self.lock = Some(parsed);
                self.lock_content = bytes;
            },
            ReadOutcome::Symlink => {
                self.warnings.push(CargoInspectionWarning::SymlinkedManifest { path: String::from_str("Cargo.lock") });
                self.lock = None;
                self.lock_content = Vec::new();
            },
            ReadOutcome::PerFileExceeded | ReadOutcome::AggregateExceeded => {
                self.warnings.push(
                    CargoInspectionWarning::LimitExceeded {
                        limit: InspectionLimit::TotalBytes {
                            max: limits.max_inspection_bytes,
                            observed: self.aggregate_bytes,
                        },
                    },
                );
                self.lock = None;
                self.lock_content = Vec::new();
            },
            _ => {
                self.warnings.push(CargoInspectionWarning::MissingLock { path: String::from_str("Cargo.lock") });
                self.lock = None;
                self.lock_content = Vec::new();
            },
        }
        proof {
            assert(warning_views(w0.push(self.warnings@.last())) =~= warning_views(w0).push(
                self.warnings@.last()@,
            ));
        }
        let lock_ref: Option<&ParsedLock> = match &self.lock {
            Some(l) => Some(l),
            None => None,
        };
        resolve_compatibility(
            &mut self.root_package.dependencies,
            lock_ref,
            self.catalog_version.as_str(),
            "Cargo.lock",
            self.lock_content.as_slice(),
            &self.provenance,
        );
    }

    /// The normalized, distinct member directories to inspect, in sorted
    /// order, with one warning per member path that is empty, a glob,
    /// absolute, or holds `.` or `..`.
    pub fn member_dirs(&mut self) -> (r: Vec<String>)
        ensures
            views(r@) == sorted_dedup(normalized_members(meta_members(old(self).workspace_meta))),
            warning_views(final(self).warnings@) == warning_views(old(self).warnings@) + illegal_member_warnings(
                meta_members(old(self).workspace_meta),
            ),
            same_evidence(*old(self), *final(self)),
            final(self).member_state == old(self).member_state,
    {
        let ghost w0 = warning_views(self.warnings@);
        let ghost s0 = *self;
        let mut valid: Vec<String> = Vec::new();
        match &self.workspace_meta {
            Some(meta) => {
                let ghost ms = views(meta.members@);
                let mut i: usize = 0;
                while i < meta.members.len()
                    invariant
                        i <= meta.members@.len(),
                        ms == views(meta.members@),
                        views(valid@) == normalized_members(ms.take(i as int)),
                        warning_views(self.warnings@) == w0 + illegal_member_warnings(ms.take(i as int)),
                        same_evidence(s0, *self),
                        self.member_state == s0.member_state,
                        s0.workspace_meta == Some(*meta),
                    decreases meta.members@.len() - i,
                {
                    proof {
                        assert(ms.take(i + 1).drop_last() =~= ms.take(i as int));
                        assert(ms.take(i + 1).last() == meta.members@[i as int]@);
                    }
                    let ghost pv = valid@;
                    let ghost pw = self.warnings@;
                    match normalize_member_path(meta.members[i].as_str()) {
                        Some(n) => {
                            valid.push(n);
                            assert(views(valid@) =~= views(pv) + seq![n@]);
                            assert(warning_views(self.warnings@) =~= w0 + illegal_member_warnings(ms.take(i + 1)));
                        },
                        None => {
                            let hint = invalid_member_hint(meta.members[i].as_str());
                            self.warnings.push(CargoInspectionWarning::IllegalMemberPath { member: hint });
                            assert(views(valid@) =~= normalized_members(ms.take(i + 1)));
                            assert(warning_views(self.warnings@) =~= warning_views(pw) + seq![
                                CargoWarningV::IllegalMemberPath(hint@),
                            ]);
                        },
                    }
                    i += 1;
                }
                assert(ms.take(ms.len() as int) =~= ms);
            },
            None => {
                assert(views(valid@) =~= seq![]);
                assert(warning_views(self.warnings@) =~= w0 + seq![]);
            },
        }
        sort_dedup_strings(valid)
    }

    /// The wall-clock check made before each member: once the elapsed time
    /// reaches the budget, member inspection stops with the wall-clock limit
    /// as state and warning. Returns whether it stopped.
    pub fn member_clock_gate(&mut self, elapsed_millis: u64, limits: &InspectionLimits) -> (stop: bool)
        ensures
            stop == (elapsed_millis >= limits.max_inspection_wall_millis),
            same_evidence(*old(self), *final(self)),
            stop ==> final(self).member_state == Some(
                SnapshotState::LimitExceeded {
                    limit: InspectionLimit::WallClock {
                        max_millis: limits.max_inspection_wall_millis,
                        observed_millis: elapsed_millis,
                    },
                },
            ) && warning_views(final(self).warnings@) == warning_views(old(self).warnings@).push(
                CargoWarningV::LimitExceeded(
                    InspectionLimit::WallClock {
                        max_millis: limits.max_inspection_wall_millis,
                        observed_millis: elapsed_millis,
                    },
                ),
            ),
            !stop ==> final(self).member_state == old(self).member_state && final(self).warnings
                == old(self).warnings,
    {
        if elapsed_millis >= limits.max_inspection_wall_millis {
            let limit = InspectionLimit::WallClock {
                max_millis: limits.max_inspection_wall_millis,
                observed_millis: elapsed_millis,
            };
            self.member_state = Some(SnapshotState::LimitExceeded { limit });
            self.warnings.push(CargoInspectionWarning::LimitExceeded { limit });
            true
        } else {
            false
        }
    }

    /// Records a member directory that is a symlink: it is skipped.
    pub fn member_symlinked(&mut self, dir: &str)
        ensures
            same_evidence(*old(self), *final(self)),
            final(self).member_state == old(self).member_state,
            warning_views(final(self).warnings@) == warning_views(old(self).warnings@).push(
                CargoWarningV::SymlinkedManifest(member_manifest(dir@)),
            ),
    {
        let mut path = String::from_str(dir);
        path.append("/Cargo.toml");
        self.warnings.push(CargoInspectionWarning::SymlinkedManifest { path });
    }

    /// Records a member directory that resolves outside the project root:
    /// it is skipped.
    pub fn member_escaping(&mut self, dir: &str)
        ensures
            same_evidence(*old(self), *final(self)),
            final(self).member_state == old(self).member_state,
            warning_views(final(self).warnings@) == warning_views(old(self).warnings@).push(
                CargoWarningV::EscapingManifest(member_manifest(dir@)),
            ),
    {
        let mut path = String::from_str(dir);
        path.append("/Cargo.toml");
        self.warnings.push(CargoInspectionWarning::EscapingManifest { path });
    }

    /// The file-count and aggregate-byte checks made before reading a
    /// member: once either limit is reached, member inspection stops with
    /// that limit as state and warning. Returns whether it stopped.
    pub fn member_budget_gate(&mut self, limits: &InspectionLimits) -> (stop: bool)
        ensures
            same_evidence(*old(self), *final(self)),
            stop == (old(self).provenance.spec_file_count() >= limits.max_inspection_files
                || old(self).aggregate_bytes >= limits.max_inspection_bytes),
            old(self).provenance.spec_file_count() >= limits.max_inspection_files ==> final(self).member_state
                == Some(
                SnapshotState::LimitExceeded {
                    limit: InspectionLimit::FileCount {
                        max: limits.max_inspection_files,
                        observed: old(self).provenance.spec_file_count(),
                    },
                },
            ) && warning_views(final(self).warnings@) == warning_views(old(self).warnings@).push(
                CargoWarningV::LimitExceeded(
                    InspectionLimit::FileCount {
                        max: limits.max_inspection_files,
                        observed: old(self).provenance.spec_file_count(),
                    },
                ),
            ),
            old(self).provenance.spec_file_count() < limits.max_inspection_files && old(self).aggregate_bytes
                >= limits.max_inspection_bytes ==> final(self).member_state == Some(
                SnapshotState::LimitExceeded {
                    limit: InspectionLimit::TotalBytes {
                        max: limits.max_inspection_bytes,
                        observed: old(self).aggregate_bytes,
                    },
                },
            ) && warning_views(final(self).warnings@) == warning_views(old(self).warnings@).push(
                CargoWarningV::LimitExceeded(
                    InspectionLimit::TotalBytes {
                        max: limits.max_inspection_bytes,
                        observed: old(self).aggregate_bytes,
                    },
                ),
            ),
            !stop ==> final(self).member_state == old(self).member_state && final(self).warnings
                == old(self).warnings,
    {
        let files = self.provenance.accepted_files();
        if files >= limits.max_inspection_files {
            let limit = InspectionLimit::FileCount { max: limits.max_inspection_files, observed: files };
            self.member_state = Some(SnapshotState::LimitExceeded { limit });
            self.warnings.push(CargoInspectionWarning::LimitExceeded { limit });
            return true;
        }
        if self.aggregate_bytes >= limits.max_inspection_bytes {
            let limit = InspectionLimit::TotalBytes {
                max: limits.max_inspection_bytes,
                observed: self.aggregate_bytes,
            };
            self.member_state = Some(SnapshotState::LimitExceeded { limit });
            self.warnings.push(CargoInspectionWarning::LimitExceeded { limit });
            return true;
        }
        false
    }

    /// Takes in the read of a member's `Cargo.toml`. An accepted manifest is
    /// recorded and parsed; a member that parses is added with its Amari
    /// dependencies resolved, unless it declares its own `[workspace]`. A
    /// manifest that would exceed the aggregate byte limit stops member
    /// inspection; other unread manifests are skipped with a warning.
    /// Returns whether member inspection stops.
    pub fn accept_member(&mut self, dir: &str, outcome: ReadOutcome, limits: &InspectionLimits) -> (stop: bool)
        requires
            outcome matches ReadOutcome::Accepted(b) ==> b@.len() < usize::MAX,
        ensures
            final(self).catalog_version == old(self).catalog_version,
            final(self).root_package == old(self).root_package,
            final(self).workspace_meta == old(self).workspace_meta,
            final(self).bases == old(self).bases,
            final(self).fields == old(self).fields,
            final(self).lock == old(self).lock,
            final(self).lock_content == old(self).lock_content,
            stop == (outcome is AggregateExceeded),
            outcome matches ReadOutcome::Accepted(b) ==> ({
                &&& final(self).aggregate_bytes == sat_add(old(self).aggregate_bytes, b@.len() as int)
                &&& final(self).provenance.spec_entries() == old(self).provenance.spec_entries().push(
                    (member_manifest(dir@), b@),
                )
                &&& final(self).provenance.spec_file_count() == sat_add(old(self).provenance.spec_file_count(), 1)
                &&& final(self).provenance.spec_total_bytes() == sat_add(
                    old(self).provenance.spec_total_bytes(),
                    b@.len() as int,
                )
                &&& final(self).member_state == old(self).member_state
                &&& member_accepted(*old(self), *final(self), member_manifest(dir@), b@)
            }),
            outcome is AggregateExceeded ==> ({
                &&& same_evidence(*old(self), *final(self))
                &&& final(self).member_state == Some(
                    SnapshotState::LimitExceeded {
                        limit: InspectionLimit::TotalBytes {
                            max: limits.max_inspection_bytes,
                            observed: old(self).aggregate_bytes,
                        },
                    },
                )
                &&& warning_views(final(self).warnings@) == warning_views(old(self).warnings@).push(
                    CargoWarningV::LimitExceeded(
                        InspectionLimit::TotalBytes {
                            max: limits.max_inspection_bytes,
                            observed: old(self).aggregate_bytes,
                        },
                    ),
                )
            }),
            !(outcome is Accepted) && !(outcome is AggregateExceeded) ==> ({
                &&& same_evidence(*old(self), *final(self))
                &&& final(self).member_state == old(self).member_state
                &&& warning_views(final(self).warnings@) == warning_views(old(self).warnings@).push(
                    member_skip_warning(outcome, member_manifest(dir@), *limits),
                )
            }),
    {
        let mut path = String::from_str(dir);
        path.append("/Cargo.toml");
        let ghost s0 = *self;
        match outcome {
            ReadOutcome::Accepted(bytes) => {
                self.aggregate_bytes = self.aggregate_bytes.saturating_add(bytes.len() as u64);
                self.provenance.accept(path.as_str(), bytes.as_slice());
                let ghost w0 = warning_views(self.warnings@);
                proof {
                    if vstd::utf8::valid_utf8(bytes@) {
                        if let Ok(doc) = spec_parse_toml(vstd::utf8::decode_utf8(bytes@)) {
                            assert(member_doc(bytes@) == doc_entries(doc));
                        }
                    }
                }
                match parse_manifest(
                    bytes.as_slice(),
                    path.as_str(),
                    false,
                    &self.bases,
                    &self.fields,
                    &mut self.warnings,
                    &self.provenance,
                ) {
                    Ok(parsed) => {
                        let ghost pre = parsed.package;
                        if parsed.declares_workspace {
                            let ghost w1 = self.warnings@;
                            self.warnings.push(CargoInspectionWarning::NestedWorkspaceRoot { path });
                            assert(warning_views(self.warnings@) =~= warning_views(w1).push(
                                CargoWarningV::NestedWorkspaceRoot(member_manifest(dir@)),
                            ));
                            assert(warning_views(self.warnings@) =~= w0 + manifest_warnings(
                                member_doc(bytes@),
                                member_package_table(bytes@),
                                self.bases@,
                                self.fields@,
                            ) + seq![CargoWarningV::NestedWorkspaceRoot(member_manifest(dir@))]);
                            return false;
                        }
                        let mut pkg = parsed.package;
                        let lock_ref: Option<&ParsedLock> = match &self.lock {
                            Some(l) => Some(l),
                            None => None,
                        };
                        resolve_compatibility(
                            &mut pkg.dependencies,
                            lock_ref,
                            self.catalog_version.as_str(),
                            "Cargo.lock",
                            self.lock_content.as_slice(),
                            &self.provenance,
                        );
                        assert(package_resolved(
                            pre,
                            pkg,
                            lock_view(self.lock),
                            self.catalog_version@,
                            self.lock_content@,
                        ));
                        let ghost m0 = self.members@;
                        self.members.push(pkg);
                        assert(self.members@.drop_last() =~= m0);
                    },
                    Err(e) => {
                        let msg = e.message();
                        let reason = before_text(msg.as_str(), " at ");
                        let line = optional_number_after_marker(msg.as_str(), " line ");
                        let column = optional_number_after_marker(msg.as_str(), " col ");
                        let ghost w1 = self.warnings@;
                        self.warnings.push(CargoInspectionWarning::MalformedManifest { path, reason, line, column });
                        assert(warning_views(self.warnings@) =~= warning_views(w1).push(
                            malformed_member(member_manifest(dir@), msg@),
                        ));
                    },
                }
                false
            },
            ReadOutcome::AggregateExceeded => {
                let limit = InspectionLimit::TotalBytes {
                    max: limits.max_inspection_bytes,
                    observed: self.aggregate_bytes,
                };
                self.member_state = Some(SnapshotState::LimitExceeded { limit });
                self.warnings.push(CargoInspectionWarning::LimitExceeded { limit });
                true
            },
            ReadOutcome::Symlink => {
                self.warnings.push(CargoInspectionWarning::SymlinkedManifest { path });
                false
            },
            ReadOutcome::PerFileExceeded => {
                self.warnings.push(
                    CargoInspectionWarning::LimitExceeded {
                        limit: InspectionLimit::TotalBytes {
                            max: limits.max_per_file_bytes,
                            observed: limits.max_per_file_bytes.saturating_add(1),
                        },
                    },
                );
                false
            },
            _ => {
                self.warnings.push(CargoInspectionWarning::MissingManifest { path });
                false
            },
        }
    }

    /// Assembles the inspection: workspace members are kept as their
    /// normalized, distinct paths; packages are ordered by name (stably);
    /// the state is the limit that stopped member inspection, if any; and
    /// the input hash frames every accepted file ordered by path.
    pub fn finish(self) -> (r: CargoInspection)
        ensures
            r.root_package == self.root_package,
            r.workspace_members@ == sorted_by_key(name_keys_of(self.members@), self.members@.len() as int).map_values(
                |i: int| self.members@[i],
            ),
            r.warnings == self.warnings,
            r.input_hash@ == framed_hash_of(self.provenance.spec_entries()),
            r.state == match self.member_state {
                Some(st) => st,
                None => SnapshotState::Complete,
            },
            r.inspected_file_count == self.provenance.spec_file_count(),
            r.total_bytes == self.provenance.spec_total_bytes(),
            match (self.lock, r.lock) {
                (Some(pl), Some(cl)) => cl.path@ == "Cargo.lock"@ && cl.packages == pl.packages && cl.source@ == (
                    "Cargo.lock"@,
                    None::<usize>,
                    spec_sha256_hex(self.lock_content@),
                    self.lock_content@.len() as u64,
                ),
                (None, None) => true,
                _ => false,
            },
            match (self.workspace_meta, r.workspace_meta) {
                (Some(a), Some(b)) => views(b.members@) == sorted_dedup(normalized_members(views(a.members@)))
                    && b.dependency_bases == a.dependency_bases && b.package_fields == a.package_fields,
                (None, None) => true,
                _ => false,
            },
    {
        let CargoProject {
            catalog_version: _,
            warnings,
            provenance,
            root_package,
            workspace_meta,
            bases: _,
            fields: _,
            lock,
            lock_content,
            aggregate_bytes: _,
            members,
            member_state,
        } = self;
        let workspace_meta = match workspace_meta {
            Some(meta) => Some(normalize_meta(meta)),
            None => None,
        };
        let keys = name_keys(&members);
        let workspace_members = stable_sort_by_key(members, keys);
        let cargo_lock = match lock {
            Some(pl) => Some(lock_evidence(pl, &lock_content, &provenance)),
            None => None,
        };
        let state = match member_state {
            Some(st) => st,
            None => SnapshotState::Complete,
        };
        let input_hash = provenance.compute_hash();
        let inspected_file_count = provenance.accepted_files();
        let total_bytes = provenance.accepted_bytes();
        CargoInspection {
            root_package,
            workspace_members,
            lock: cargo_lock,
            workspace_meta,
            warnings,
            input_hash,
            state,
            inspected_file_count,
            total_bytes,
        }
    }
}

} // verus!
