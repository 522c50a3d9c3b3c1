//! The bounded TypeScript inspection: candidate selection, per-candidate
//! decisions, and the final sorted evidence.
//!
//! The caller walks the project, opens and reads each candidate with the
//! bounded, non-following primitives, and hands every outcome to a
//! [`TypeScriptProject`], which decides what is recorded, what becomes a
//! warning, and when inspection stops.

use vstd::prelude::*;

use super::declarations::{
    capability_view, export_view, scan_declaration_capabilities, scan_declaration_exports, surface_capabilities,
    surface_exports, WasmCapabilityMapping, WasmSurface,
};
use super::imports::{import_views, scan_imports, source_imports, LocV};
use super::keys::{
    capability_key, context_key, export_key, import_key, location_key, runtime_key, sort_capabilities, sort_contexts,
    sort_exports, sort_imports, sort_locations, sort_runtime, sort_vocabulary, vocabulary_key,
};
use super::scan::{
    classify_file, file_role, runtime_signals, scan_runtime, scan_vocabulary, signals_of, ts_source_name,
    vocabulary_evidence, vocabulary_view, is_source_name,
};
use super::types::{
    ts_warning_views, TsWarningV, TypeScriptCapabilityEvidence, TypeScriptDeclarationExport, TypeScriptFileContext,
    TypeScriptFileRole, TypeScriptImport, TypeScriptInspection, TypeScriptInspectionWarning, TypeScriptRuntimeEvidence,
    TypeScriptRuntimeSignal, TypeScriptVocabularyEvidence,
};
use crate::error::DiscoveryError;
use crate::hashing::{sha256_hex, spec_sha256_hex};
use crate::inspect::cargo::lock::utf8_text;
use crate::inspect::cargo::provenance::{sat_add, ProvenanceAccumulator};
use crate::inspect::framing::framed_hash_of;
use crate::inspect::npm::project::amari_wasm;
use crate::inspect::npm::types::NpmInspection;
use crate::inspect::snapshot::{InspectionLimit, InspectionLimits, SnapshotState, SourceLocation};
use crate::inspect::traversal::{is_env_secret_name, is_skipped_dir_name, spec_is_skipped_dir_name};
use crate::order::{keyed_from, sort_dedup_keyed, sorted_dedup, views};
use crate::sortkey::sorted_unique_by;
use crate::text::{has_prefix, str_eq};

verus! {

// ---------------------------------------------------------------------------
// Candidates
// ---------------------------------------------------------------------------

/// The installed generated declaration file, relative to the project root.
pub open spec fn declaration_path() -> Seq<char> {
    "node_modules/@justinelliottcobb/amari-wasm/amari_wasm.d.ts"@
}

/// The error for a root that is not a directory.
pub fn root_not_directory() -> (e: DiscoveryError)
    ensures
        e matches DiscoveryError::InspectionFailure(m) && m@ == "TypeScript inspection root is not a directory"@,
{
    DiscoveryError::InspectionFailure(String::from_str("TypeScript inspection root is not a directory"))
}

/// Whether a walked entry is entered, and whether it was pruned for depth:
/// the root and files always pass; a directory with a non-UTF-8 name, a
/// skipped build/cache name or an environment-secret name is not entered;
/// a directory at the depth limit is pruned.
pub open spec fn descend_rule(is_dir: bool, depth: u64, name: Option<Seq<char>>, max_depth: u64) -> (bool, bool) {
    if !is_dir || depth == 0 {
        (true, false)
    } else {
        match name {
            None => (false, false),
            Some(n) => if spec_is_skipped_dir_name(n) || has_prefix(n, ".env"@) {
                (false, false)
            } else if depth >= max_depth {
                (false, true)
            } else {
                (true, false)
            },
        }
    }
}

/// Whether to enter a walked entry, and whether depth pruned it.
pub fn should_descend(is_dir: bool, depth: u64, name: Option<&str>, max_depth: u64) -> (r: (bool, bool))
    ensures
        r == descend_rule(
            is_dir,
            depth,
            match name {
                Some(n) => Some(n@),
                None => None,
            },
            max_depth,
        ),
{
    if !is_dir || depth == 0 {
        return (true, false);
    }
    match name {
        None => (false, false),
        Some(n) => {
            if is_skipped_dir_name(n) || is_env_secret_name(n) {
                (false, false)
            } else if depth >= max_depth {
                (false, true)
            } else {
                (true, false)
            }
        },
    }
}

/// What a walked file contributes.
pub enum FileDecision {
    /// Not a candidate.
    Skip,
    /// The path is not UTF-8: a warning.
    NonUtf8,
    /// A source candidate with this normalized relative path.
    Accept(String),
}

/// A walked file: a name that is not UTF-8 is a warning; a name that is not
/// a JavaScript/TypeScript source or is an environment-secret name is
/// skipped; a path that does not normalize is a warning; otherwise the
/// normalized relative path is a source candidate.
pub fn source_file_decision(name: Option<&str>, relative: Option<String>) -> (r: FileDecision)
    ensures
        name is None ==> r is NonUtf8,
        name matches Some(n) && (!ts_source_name(n@) || has_prefix(n@, ".env"@)) ==> r is Skip,
        name matches Some(n) && ts_source_name(n@) && !has_prefix(n@, ".env"@) ==> (relative is None ==> r is NonUtf8),
        name matches Some(n) && ts_source_name(n@) && !has_prefix(n@, ".env"@) ==> (relative matches Some(p) ==> (r matches FileDecision::Accept(q) && q@ == p@)),
{
    match name {
        None => FileDecision::NonUtf8,
        Some(n) => {
            if !is_source_name(n) || is_env_secret_name(n) {
                FileDecision::Skip
            } else {
                match relative {
                    None => FileDecision::NonUtf8,
                    Some(p) => FileDecision::Accept(p),
                }
            }
        },
    }
}

/// The kind of a candidate.
#[derive(Clone, Copy, Debug, PartialEq, Eq, Structural)]
pub enum CandidateKind {
    /// A JavaScript/TypeScript source file.
    Source,
    /// The installed generated declaration file.
    Declaration,
}

/// A file to inspect.
pub struct TsCandidate {
    /// Normalized project-relative path.
    pub relative: String,
    /// Source or declaration.
    pub kind: CandidateKind,
}

/// Whether the npm inspection declares the Amari WASM package.
pub open spec fn declares_amari(npm: NpmInspection) -> bool {
    exists|i: int|
        0 <= i < npm.package.dependencies@.len() && #[trigger] npm.package.dependencies@[i].package_name@
            == amari_wasm()
}

fn has_amari(npm: &NpmInspection) -> (r: bool)
    ensures
        r == declares_amari(*npm),
{
    let deps = &npm.package.dependencies;
    let mut k: usize = 0;
    while k < deps.len()
        invariant
            k <= deps@.len(),
            deps == &npm.package.dependencies,
            forall|j: int| 0 <= j < k ==> deps@[j].package_name@ != amari_wasm(),
        decreases deps@.len() - k,
    {
        if str_eq(deps[k].package_name.as_str(), "@justinelliottcobb/amari-wasm") {
            return true;
        }
        k = k + 1;
    }
    false
}

/// The candidates before ordering: the sources, then the declaration file
/// when the package is declared and its four path segments fit the depth
/// limit.
pub open spec fn unsorted_candidates(sources: Seq<String>, amari: bool, max_depth: u64) -> Seq<(Seq<char>, CandidateKind)> {
    sources.map_values(|s: String| (s@, CandidateKind::Source)) + if amari && 4 <= max_depth {
        seq![(declaration_path(), CandidateKind::Declaration)]
    } else {
        seq![]
    }
}

/// View of a candidate.
pub open spec fn candidate_view(c: TsCandidate) -> (Seq<char>, CandidateKind) {
    (c.relative@, c.kind)
}

/// Orders the candidates by relative path with one candidate per path, and
/// reports whether the declaration file was pruned by the depth limit.
pub fn plan_candidates(sources: Vec<String>, npm: &NpmInspection, max_depth: u64) -> (r: (Vec<TsCandidate>, bool))
    ensures
        r.1 == (declares_amari(*npm) && 4 > max_depth),
        ({
            let all = unsorted_candidates(sources@, declares_amari(*npm), max_depth);
            let ks = all.map_values(|c: (Seq<char>, CandidateKind)| c.0);
            &&& r.0@.len() == sorted_dedup(ks).len()
            &&& forall|k: int|
                0 <= k < r.0@.len() ==> (#[trigger] r.0@[k]).relative@ == sorted_dedup(ks)[k] && all.contains(
                    candidate_view(r.0@[k]),
                )
        }),
{
    let amari = has_amari(npm);
    let ghost all = unsorted_candidates(sources@, amari, max_depth);
    let mut items: Vec<TsCandidate> = Vec::new();
    let mut keys: Vec<String> = Vec::new();
    let mut k: usize = 0;
    while k < sources.len()
        invariant
            k <= sources@.len(),
            items@.len() == k,
            keys@.len() == k,
            forall|j: int| 0 <= j < k ==> #[trigger] candidate_view(items@[j]) == all[j],
            forall|j: int| 0 <= j < k ==> #[trigger] keys@[j]@ == all[j].0,
            all == unsorted_candidates(sources@, amari, max_depth),
        decreases sources@.len() - k,
    {
        items.push(TsCandidate { relative: sources[k].clone(), kind: CandidateKind::Source });
        keys.push(sources[k].clone());
        k = k + 1;
    }
    let mut pruned = false;
    if amari {
        if 4 > max_depth {
            pruned = true;
        } else {
            items.push(
                TsCandidate {
                    relative: String::from_str("node_modules/@justinelliottcobb/amari-wasm/amari_wasm.d.ts"),
                    kind: CandidateKind::Declaration,
                },
            );
            keys.push(String::from_str("node_modules/@justinelliottcobb/amari-wasm/amari_wasm.d.ts"));
        }
    }
    assert(items@.len() == all.len());
    assert(views(keys@) =~= all.map_values(|c: (Seq<char>, CandidateKind)| c.0));
    let ghost its = items@;
    let ghost ks = keys@;
    let r = sort_dedup_keyed(items, keys);
    proof {
        assert forall|q: int| 0 <= q < r@.len() implies (#[trigger] r@[q]).relative@ == sorted_dedup(
            views(ks),
        )[q] && all.contains(candidate_view(r@[q])) by {
            assert(keyed_from(its, ks, r@[q], sorted_dedup(views(ks))[q]));
            let j = choose|j: int| 0 <= j < its.len() && its[j] == r@[q] && ks[j]@ == sorted_dedup(views(ks))[q];
            assert(candidate_view(its[j]) == all[j]);
            assert(all[j].0 == ks[j]@);
        }
    }
    (r, pruned)
}

// ---------------------------------------------------------------------------
// Inspection state
// ---------------------------------------------------------------------------

/// Outcome of opening a candidate without following links.
pub enum TsOpen {
    /// Opened as a regular file.
    Opened,
    /// The path does not exist.
    Missing,
    /// A symlink, or replaced while opening.
    Symlink,
    /// Not a regular file.
    Unsupported,
    /// Opening failed.
    Failed,
}

/// What to do after opening a candidate.
#[derive(Clone, Copy, Debug, PartialEq, Eq, Structural)]
pub enum TsStep {
    /// Go on with the next candidate.
    Skip,
    /// Stop inspecting.
    Stop,
    /// Read the opened candidate.
    Read,
}

/// Outcome of the bounded read of an opened candidate.
pub enum TsRead {
    /// The bytes read within the per-file limit.
    Accepted(Vec<u8>),
    /// The file exceeds the per-file limit.
    PerFileExceeded,
    /// Reading failed.
    Failed,
}

/// View of runtime evidence.
pub open spec fn runtime_view(e: TypeScriptRuntimeEvidence) -> (TypeScriptRuntimeSignal, LocV) {
    (e.signal, e.source@)
}

/// View of a file context.
pub open spec fn context_view(e: TypeScriptFileContext) -> (TypeScriptFileRole, LocV) {
    (e.role, e.source@)
}

/// The state of a TypeScript inspection between candidates.
pub struct TypeScriptProject {
    /// Package imports so far.
    pub imports: Vec<TypeScriptImport>,
    /// Declaration exports so far.
    pub declaration_exports: Vec<TypeScriptDeclarationExport>,
    /// Runtime signals so far.
    pub runtime_signals: Vec<TypeScriptRuntimeEvidence>,
    /// Classified source files so far.
    pub file_contexts: Vec<TypeScriptFileContext>,
    /// Vocabulary so far.
    pub vocabulary: Vec<TypeScriptVocabularyEvidence>,
    /// Capabilities so far.
    pub capabilities: Vec<TypeScriptCapabilityEvidence>,
    /// Warnings so far.
    pub warnings: Vec<TypeScriptInspectionWarning>,
    /// Accepted inputs and their bytes.
    pub provenance: ProvenanceAccumulator,
    /// Locations of the accepted inputs.
    pub input_files: Vec<SourceLocation>,
    /// Completion state so far.
    pub state: SnapshotState,
    /// Candidates opened so far.
    pub considered: u64,
}

/// The location of an accepted input.
pub open spec fn accepted_loc(rel: Seq<char>, b: Seq<u8>) -> LocV {
    (rel, None::<u32>, None::<u32>, spec_sha256_hex(b))
}

/// All evidence lists but the warnings are unchanged.
pub open spec fn same_evidence(a: TypeScriptProject, b: TypeScriptProject) -> bool {
    &&& a.imports == b.imports
    &&& a.declaration_exports == b.declaration_exports
    &&& a.runtime_signals == b.runtime_signals
    &&& a.file_contexts == b.file_contexts
    &&& a.vocabulary == b.vocabulary
    &&& a.capabilities == b.capabilities
    &&& a.provenance == b.provenance
    &&& a.input_files == b.input_files
}

/// The message of a malformed declaration surface.
pub open spec fn malformed_reason() -> Seq<char> {
    "no supported generated exports could be parsed"@
}

/// What an accepted input adds: its provenance and location, then either an
/// invalid-UTF-8 warning, or for a source its imports, runtime signals,
/// role and vocabulary, or for the declaration file the surface's exports
/// and capabilities (a warning when no surface was parsed).
pub open spec fn accepted_effect(
    pre: TypeScriptProject,
    post: TypeScriptProject,
    rel: Seq<char>,
    kind: CandidateKind,
    b: Seq<u8>,
    surface: Option<WasmSurface>,
    maps: Seq<WasmCapabilityMapping>,
) -> bool {
    let loc = accepted_loc(rel, b);
    let text = vstd::utf8::decode_utf8(b);
    let src_ok = vstd::utf8::valid_utf8(b) && kind == CandidateKind::Source;
    let decl_ok = vstd::utf8::valid_utf8(b) && kind == CandidateKind::Declaration && surface is Some;
    &&& post.provenance.spec_entries() == pre.provenance.spec_entries().push((rel, b))
    &&& post.provenance.spec_total_bytes() == sat_add(pre.provenance.spec_total_bytes(), b.len() as int)
    &&& post.provenance.spec_file_count() == sat_add(pre.provenance.spec_file_count(), 1)
    &&& post.input_files@.map_values(|l: SourceLocation| l@) == pre.input_files@.map_values(|l: SourceLocation| l@).push(loc)
    &&& post.state == pre.state
    &&& post.considered == pre.considered
    &&& import_views(post.imports@) == import_views(pre.imports@) + if src_ok {
        source_imports(text, loc)
    } else {
        seq![]
    }
    &&& post.runtime_signals@.map_values(|e: TypeScriptRuntimeEvidence| runtime_view(e)) == pre.runtime_signals@.map_values(
        |e: TypeScriptRuntimeEvidence| runtime_view(e),
    ) + if src_ok {
        runtime_signals(rel, text).map_values(|s: TypeScriptRuntimeSignal| (s, loc))
    } else {
        seq![]
    }
    &&& post.file_contexts@.map_values(|e: TypeScriptFileContext| context_view(e)) == pre.file_contexts@.map_values(
        |e: TypeScriptFileContext| context_view(e),
    ) + if src_ok {
        seq![(file_role(rel), loc)]
    } else {
        seq![]
    }
    &&& post.vocabulary@.map_values(|e: TypeScriptVocabularyEvidence| vocabulary_view(e)) == pre.vocabulary@.map_values(
        |e: TypeScriptVocabularyEvidence| vocabulary_view(e),
    ) + if src_ok {
        vocabulary_evidence(text, loc)
    } else {
        seq![]
    }
    &&& post.declaration_exports@.map_values(|e: TypeScriptDeclarationExport| export_view(e))
        == pre.declaration_exports@.map_values(|e: TypeScriptDeclarationExport| export_view(e)) + if decl_ok {
        surface_exports(surface->0, loc)
    } else {
        seq![]
    }
    &&& post.capabilities@.map_values(|e: TypeScriptCapabilityEvidence| capability_view(e))
        == pre.capabilities@.map_values(|e: TypeScriptCapabilityEvidence| capability_view(e)) + if decl_ok {
        surface_capabilities(surface->0, maps, loc)
    } else {
        seq![]
    }
    &&& ts_warning_views(post.warnings@) == ts_warning_views(pre.warnings@) + if !vstd::utf8::valid_utf8(b) {
        seq![TsWarningV::InvalidUtf8Source(rel, spec_sha256_hex(b))]
    } else if kind == CandidateKind::Declaration && surface is None {
        seq![TsWarningV::MalformedDeclarations(rel, malformed_reason(), spec_sha256_hex(b))]
    } else {
        seq![]
    }
}

impl TypeScriptProject {
    /// The initial state after candidate collection: one non-UTF-8 path
    /// warning per such path met, and the depth limit as state when the walk
    /// or the declaration file was pruned.
    pub fn new(non_utf8_paths: u64, depth_pruned: bool, limits: &InspectionLimits) -> (r: TypeScriptProject)
        ensures
            ts_warning_views(r.warnings@) == Seq::new(
                non_utf8_paths as nat,
                |i: int| TsWarningV::NonUtf8Path("non-UTF-8 TypeScript candidate"@),
            ),
            r.state == if depth_pruned {
                SnapshotState::LimitExceeded { limit: InspectionLimit::TraversalDepth { max: limits.max_traversal_depth } }
            } else {
                SnapshotState::Complete
            },
            r.imports@.len() == 0,
            r.declaration_exports@.len() == 0,
            r.runtime_signals@.len() == 0,
            r.file_contexts@.len() == 0,
            r.vocabulary@.len() == 0,
            r.capabilities@.len() == 0,
            r.input_files@.len() == 0,
            r.provenance.spec_entries().len() == 0,
            r.provenance.spec_total_bytes() == 0,
            r.provenance.spec_file_count() == 0,
            r.considered == 0,
    {
        let mut warnings: Vec<TypeScriptInspectionWarning> = Vec::new();
        let mut k: u64 = 0;
        while k < non_utf8_paths
            invariant
                k <= non_utf8_paths,
                ts_warning_views(warnings@) == Seq::new(
                    k as nat,
                    |i: int| TsWarningV::NonUtf8Path("non-UTF-8 TypeScript candidate"@),
                ),
            decreases non_utf8_paths - k,
        {
            let ghost prev = warnings@;
            let w = TypeScriptInspectionWarning::NonUtf8Path {
                path_hint: String::from_str("non-UTF-8 TypeScript candidate"),
            };
            warnings.push(w);
            assert(ts_warning_views(warnings@) =~= ts_warning_views(prev).push(w@));
            assert(ts_warning_views(warnings@) =~= Seq::new(
                (k + 1) as nat,
                |i: int| TsWarningV::NonUtf8Path("non-UTF-8 TypeScript candidate"@),
            ));
            k = k + 1;
        }
        let state = if depth_pruned {
            SnapshotState::LimitExceeded { limit: InspectionLimit::TraversalDepth { max: limits.max_traversal_depth } }
        } else {
            SnapshotState::Complete
        };
        TypeScriptProject {
            imports: Vec::new(),
            declaration_exports: Vec::new(),
            runtime_signals: Vec::new(),
            file_contexts: Vec::new(),
            vocabulary: Vec::new(),
            capabilities: Vec::new(),
            warnings,
            provenance: ProvenanceAccumulator::new(),
            input_files: Vec::new(),
            state,
            considered: 0,
        }
    }

    /// The wall-clock check before each candidate: once the elapsed time is
    /// over the budget, the state records the wall-clock limit (one
    /// millisecond over, saturating) and inspection stops.
    pub fn wall_clock_gate(&mut self, elapsed_millis: u64, limits: &InspectionLimits) -> (stop: bool)
        ensures
            stop == (elapsed_millis > limits.max_inspection_wall_millis),
            same_evidence(*old(self), *final(self)),
            final(self).warnings == old(self).warnings,
            final(self).considered == old(self).considered,
            stop ==> final(self).state == (SnapshotState::LimitExceeded {
                limit: InspectionLimit::WallClock {
                    max_millis: limits.max_inspection_wall_millis,
                    observed_millis: sat_add(limits.max_inspection_wall_millis, 1),
                },
            }),
            !stop ==> final(self).state == old(self).state,
    {
        if elapsed_millis > limits.max_inspection_wall_millis {
            self.state = SnapshotState::LimitExceeded {
                limit: InspectionLimit::WallClock {
                    max_millis: limits.max_inspection_wall_millis,
                    observed_millis: limits.max_inspection_wall_millis.saturating_add(1),
                },
            };
            true
        } else {
            false
        }
    }

    fn warn(&mut self, w: TypeScriptInspectionWarning)
        ensures
            ts_warning_views(final(self).warnings@) == ts_warning_views(old(self).warnings@).push(w@),
            same_evidence(*old(self), *final(self)),
            final(self).state == old(self).state,
            final(self).considered == old(self).considered,
    {
        let ghost o = self.warnings@;
        self.warnings.push(w);
        assert(ts_warning_views(self.warnings@) =~= ts_warning_views(o).push(w@));
    }

    /// Takes in the outcome of opening a candidate: failures, symlinks and
    /// non-regular files become warnings, a missing declaration file a
    /// warning and a missing source nothing; an opened file counts against
    /// the file limit, which stops inspection with a warning and the state
    /// once exceeded.
    pub fn after_open(&mut self, c: &TsCandidate, o: TsOpen, limits: &InspectionLimits) -> (r: TsStep)
        ensures
            same_evidence(*old(self), *final(self)),
            o is Failed || o is Unsupported ==> r == TsStep::Skip && final(self).state == old(self).state
                && ts_warning_views(final(self).warnings@) == ts_warning_views(old(self).warnings@).push(
                TsWarningV::ReadFailure(c.relative@),
            ) && final(self).considered == old(self).considered,
            o is Symlink ==> r == TsStep::Skip && final(self).state == old(self).state && ts_warning_views(
                final(self).warnings@,
            ) == ts_warning_views(old(self).warnings@).push(TsWarningV::SymlinkedFile(c.relative@))
                && final(self).considered == old(self).considered,
            o is Missing && c.kind == CandidateKind::Declaration ==> r == TsStep::Skip && final(self).state == old(
                self,
            ).state && ts_warning_views(final(self).warnings@) == ts_warning_views(old(self).warnings@).push(
                TsWarningV::MissingDeclarations(c.relative@),
            ) && final(self).considered == old(self).considered,
            o is Missing && c.kind == CandidateKind::Source ==> r == TsStep::Skip && final(self).state == old(
                self,
            ).state && final(self).warnings == old(self).warnings && final(self).considered == old(self).considered,
            o is Opened ==> final(self).considered == sat_add(old(self).considered, 1),
            o is Opened && sat_add(old(self).considered, 1) > limits.max_inspection_files ==> ({
                let l = InspectionLimit::FileCount {
                    max: limits.max_inspection_files,
                    observed: sat_add(old(self).considered, 1),
                };
                &&& r == TsStep::Stop
                &&& final(self).state == (SnapshotState::LimitExceeded { limit: l })
                &&& ts_warning_views(final(self).warnings@) == ts_warning_views(old(self).warnings@).push(
                    TsWarningV::LimitExceeded(l),
                )
            }),
            o is Opened && sat_add(old(self).considered, 1) <= limits.max_inspection_files ==> r == TsStep::Read
                && final(self).state == old(self).state && final(self).warnings == old(self).warnings,
    {
        match o {
            TsOpen::Failed | TsOpen::Unsupported => {
                self.warn(TypeScriptInspectionWarning::ReadFailure { path: c.relative.clone() });
                TsStep::Skip
            },
            TsOpen::Symlink => {
                self.warn(TypeScriptInspectionWarning::SymlinkedFile { path: c.relative.clone() });
                TsStep::Skip
            },
            TsOpen::Missing => {
                if c.kind == CandidateKind::Declaration {
                    self.warn(TypeScriptInspectionWarning::MissingDeclarations { path: c.relative.clone() });
                }
                TsStep::Skip
            },
            TsOpen::Opened => {
                self.considered = self.considered.saturating_add(1);
                if self.considered > limits.max_inspection_files {
                    let limit = InspectionLimit::FileCount { max: limits.max_inspection_files, observed: self.considered };
                    self.warn(TypeScriptInspectionWarning::LimitExceeded { limit });
                    self.state = SnapshotState::LimitExceeded { limit };
                    TsStep::Stop
                } else {
                    TsStep::Read
                }
            },
        }
    }

    /// The aggregate bytes still allowed.
    pub fn remaining_bytes(&self, limits: &InspectionLimits) -> (r: u64)
        ensures
            r == if limits.max_inspection_bytes >= self.provenance.spec_total_bytes() {
                (limits.max_inspection_bytes - self.provenance.spec_total_bytes()) as u64
            } else {
                0u64
            },
    {
        limits.max_inspection_bytes.saturating_sub(self.provenance.accepted_bytes())
    }

    fn accept_file(
        &mut self,
        c: &TsCandidate,
        bytes: Vec<u8>,
        surface: Option<&WasmSurface>,
        mappings: &[WasmCapabilityMapping],
    )
        ensures
            accepted_effect(
                *old(self),
                *final(self),
                c.relative@,
                c.kind,
                bytes@,
                match surface {
                    Some(s) => Some(*s),
                    None => None,
                },
                mappings@,
            ),
    {
        let hash = sha256_hex(bytes.as_slice());
        let source = SourceLocation { path: c.relative.clone(), line: None, column: None, content_hash: hash };
        self.provenance.accept(c.relative.as_str(), bytes.as_slice());
        let ghost files0 = self.input_files@;
        self.input_files.push(source.clone());
        assert(self.input_files@.map_values(|l: SourceLocation| l@) =~= files0.map_values(|l: SourceLocation| l@).push(
            source@,
        ));
        let ghost imports0 = import_views(self.imports@);
        let ghost runtime0 = self.runtime_signals@.map_values(|e: TypeScriptRuntimeEvidence| runtime_view(e));
        let ghost contexts0 = self.file_contexts@.map_values(|e: TypeScriptFileContext| context_view(e));
        let ghost vocab0 = self.vocabulary@.map_values(|e: TypeScriptVocabularyEvidence| vocabulary_view(e));
        let ghost exports0 = self.declaration_exports@.map_values(|e: TypeScriptDeclarationExport| export_view(e));
        let ghost caps0 = self.capabilities@.map_values(|e: TypeScriptCapabilityEvidence| capability_view(e));
        let ghost warn0 = ts_warning_views(self.warnings@);
        match utf8_text(bytes.as_slice()) {
            None => {
                let w = TypeScriptInspectionWarning::InvalidUtf8Source {
                    path: c.relative.clone(),
                    content_hash: source.content_hash.clone(),
                };
                self.warn(w);
                assert(import_views(self.imports@) =~= imports0 + Seq::<super::types::ImportV>::empty());
                assert(ts_warning_views(self.warnings@) =~= warn0 + seq![
                    TsWarningV::InvalidUtf8Source(c.relative@, spec_sha256_hex(bytes@)),
                ]);
            },
            Some(text) => {
                proof {
                    vstd::utf8::encode_utf8_decode_utf8(text@);
                }
                match c.kind {
                    CandidateKind::Source => {
                        let mut found = scan_imports(text, &source);
                        let ghost fv = import_views(found@);
                        self.imports.append(&mut found);
                        assert(import_views(self.imports@) =~= imports0 + fv);
                        let mut runtime = scan_runtime(c.relative.as_str(), text, &source);
                        let ghost rv = runtime@;
                        self.runtime_signals.append(&mut runtime);
                        assert(rv.map_values(|e: TypeScriptRuntimeEvidence| runtime_view(e)) =~= runtime_signals(
                            c.relative@,
                            text@,
                        ).map_values(|s: TypeScriptRuntimeSignal| (s, source@))) by {
                            assert(signals_of(rv) == runtime_signals(c.relative@, text@));
                            assert forall|k: int| 0 <= k < rv.len() implies #[trigger] rv[k].source@ == source@ by {}
                            assert(signals_of(rv).len() == rv.len());
                            assert forall|k: int| 0 <= k < rv.len() implies runtime_view(rv[k]) == (
                                runtime_signals(c.relative@, text@)[k],
                                source@,
                            ) by {
                                assert(signals_of(rv)[k] == rv[k].signal);
                            }
                        }
                        assert(self.runtime_signals@.map_values(|e: TypeScriptRuntimeEvidence| runtime_view(e))
                            =~= runtime0 + rv.map_values(|e: TypeScriptRuntimeEvidence| runtime_view(e)));
                        let ctx = TypeScriptFileContext { role: classify_file(c.relative.as_str()), source: source.clone() };
                        self.file_contexts.push(ctx);
                        assert(self.file_contexts@.map_values(|e: TypeScriptFileContext| context_view(e)) =~= contexts0
                            + seq![(file_role(c.relative@), source@)]);
                        let mut vocab = scan_vocabulary(text, &source);
                        let ghost vv = vocab@;
                        self.vocabulary.append(&mut vocab);
                        assert(self.vocabulary@.map_values(|e: TypeScriptVocabularyEvidence| vocabulary_view(e))
                            =~= vocab0 + vv.map_values(|e: TypeScriptVocabularyEvidence| vocabulary_view(e)));
                        assert(ts_warning_views(self.warnings@) =~= warn0 + Seq::<TsWarningV>::empty());
                    },
                    CandidateKind::Declaration => {
                        match surface {
                            Some(s) => {
                                let mut exports = scan_declaration_exports(s, &source);
                                let ghost ev = exports@;
                                self.declaration_exports.append(&mut exports);
                                assert(self.declaration_exports@.map_values(
                                    |e: TypeScriptDeclarationExport| export_view(e),
                                ) =~= exports0 + ev.map_values(|e: TypeScriptDeclarationExport| export_view(e)));
                                let mut caps = scan_declaration_capabilities(s, mappings, &source);
                                let ghost cv = caps@;
                                self.capabilities.append(&mut caps);
                                assert(self.capabilities@.map_values(|e: TypeScriptCapabilityEvidence| capability_view(e))
                                    =~= caps0 + cv.map_values(|e: TypeScriptCapabilityEvidence| capability_view(e)));
                                assert(ts_warning_views(self.warnings@) =~= warn0 + Seq::<TsWarningV>::empty());
                            },
                            None => {
                                let w = TypeScriptInspectionWarning::MalformedDeclarations {
                                    path: c.relative.clone(),
                                    reason: String::from_str("no supported generated exports could be parsed"),
                                    content_hash: source.content_hash.clone(),
                                };
                                self.warn(w);
                                assert(ts_warning_views(self.warnings@) =~= warn0 + seq![
                                    TsWarningV::MalformedDeclarations(c.relative@, malformed_reason(), spec_sha256_hex(bytes@)),
                                ]);
                            },
                        }
                    },
                }
            },
        }
    }

    /// Takes in the bounded read of an opened candidate: bytes over the
    /// remaining aggregate allowance stop inspection with the byte limit as
    /// warning and state; accepted bytes are recorded and scanned; an
    /// oversized file or a failed read is a warning. Returns whether
    /// inspection stops.
    pub fn accept_read(
        &mut self,
        c: &TsCandidate,
        read: TsRead,
        surface: Option<&WasmSurface>,
        mappings: &[WasmCapabilityMapping],
        limits: &InspectionLimits,
    ) -> (stop: bool)
        ensures
            final(self).considered == old(self).considered,
            read is Failed ==> !stop && same_evidence(*old(self), *final(self)) && final(self).state == old(self).state
                && ts_warning_views(final(self).warnings@) == ts_warning_views(old(self).warnings@).push(
                TsWarningV::ReadFailure(c.relative@),
            ),
            read is PerFileExceeded ==> !stop && same_evidence(*old(self), *final(self)) && final(self).state == old(
                self,
            ).state && ts_warning_views(final(self).warnings@) == ts_warning_views(old(self).warnings@).push(
                TsWarningV::OversizedFile(
                    c.relative@,
                    limits.max_per_file_bytes,
                    sat_add(limits.max_per_file_bytes, 1),
                ),
            ),
            read matches TsRead::Accepted(b) ==> ({
                let remaining = if limits.max_inspection_bytes >= old(self).provenance.spec_total_bytes() {
                    limits.max_inspection_bytes - old(self).provenance.spec_total_bytes()
                } else {
                    0
                };
                let l = InspectionLimit::TotalBytes {
                    max: limits.max_inspection_bytes,
                    observed: sat_add(limits.max_inspection_bytes, 1),
                };
                &&& b@.len() > remaining ==> stop && same_evidence(*old(self), *final(self)) && final(self).state == (
                SnapshotState::LimitExceeded { limit: l }) && ts_warning_views(final(self).warnings@)
                    == ts_warning_views(old(self).warnings@).push(TsWarningV::LimitExceeded(l))
                &&& b@.len() <= remaining ==> !stop && accepted_effect(
                    *old(self),
                    *final(self),
                    c.relative@,
                    c.kind,
                    b@,
                    match surface {
                        Some(s) => Some(*s),
                        None => None,
                    },
                    mappings@,
                )
            }),
    {
        match read {
            TsRead::Accepted(bytes) => {
                let remaining = self.remaining_bytes(limits);
                if bytes.len() as u64 > remaining {
                    let limit = InspectionLimit::TotalBytes {
                        max: limits.max_inspection_bytes,
                        observed: limits.max_inspection_bytes.saturating_add(1),
                    };
                    self.warn(TypeScriptInspectionWarning::LimitExceeded { limit });
                    self.state = SnapshotState::LimitExceeded { limit };
                    true
                } else {
                    self.accept_file(c, bytes, surface, mappings);
                    false
                }
            },
            TsRead::PerFileExceeded => {
                self.warn(
                    TypeScriptInspectionWarning::OversizedFile {
                        path: c.relative.clone(),
                        limit: limits.max_per_file_bytes,
                        observed: limits.max_per_file_bytes.saturating_add(1),
                    },
                );
                false
            },
            TsRead::Failed => {
                self.warn(TypeScriptInspectionWarning::ReadFailure { path: c.relative.clone() });
                false
            },
        }
    }

    /// The inspection result: every evidence list sorted by its fields with
    /// duplicates removed, warnings in the order met, the framed input hash
    /// over the accepted inputs, and the accepted file count and bytes.
    pub fn finish(self) -> (r: TypeScriptInspection)
        ensures
            sorted_unique_by(r.imports@, self.imports@, |x: TypeScriptImport| import_key(x@)),
            sorted_unique_by(r.declaration_exports@, self.declaration_exports@, |x: TypeScriptDeclarationExport| export_key(x)),
            sorted_unique_by(r.runtime_signals@, self.runtime_signals@, |x: TypeScriptRuntimeEvidence| runtime_key(x)),
            sorted_unique_by(r.file_contexts@, self.file_contexts@, |x: TypeScriptFileContext| context_key(x)),
            sorted_unique_by(r.vocabulary@, self.vocabulary@, |x: TypeScriptVocabularyEvidence| vocabulary_key(x)),
            sorted_unique_by(r.capabilities@, self.capabilities@, |x: TypeScriptCapabilityEvidence| capability_key(x)),
            sorted_unique_by(r.input_files@, self.input_files@, |x: SourceLocation| location_key(x)),
            r.warnings == self.warnings,
            r.input_hash@ == framed_hash_of(self.provenance.spec_entries()),
            r.state == self.state,
            r.inspected_file_count == r.input_files@.len() as u64,
            r.total_bytes == self.provenance.spec_total_bytes(),
    {
        let input_hash = self.provenance.compute_hash();
        let total_bytes = self.provenance.accepted_bytes();
        let input_files = sort_locations(self.input_files);
        let count = input_files.len() as u64;
        TypeScriptInspection {
            imports: sort_imports(self.imports),
            declaration_exports: sort_exports(self.declaration_exports),
            runtime_signals: sort_runtime(self.runtime_signals),
            file_contexts: sort_contexts(self.file_contexts),
            vocabulary: sort_vocabulary(self.vocabulary),
            capabilities: sort_capabilities(self.capabilities),
            warnings: self.warnings,
            input_hash,
            state: self.state,
            inspected_file_count: count,
            total_bytes,
            input_files,
        }
    }
}

} // verus!
