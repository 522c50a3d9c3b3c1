//! Composition of filesystem, Cargo, Rust-source, and platform evidence into
//! one snapshot, its compatibility verdict, and the replayable envelope.

use vstd::prelude::*;
use vstd::string::StringExecFns;

use crate::inspect::cargo::types::{AmariDependencyEvidence, CargoInspection, CargoPackage};
use crate::inspect::cargo_config::types::CargoPlatformInspection;
use crate::inspect::rust::types::RustSourceInspection;
use crate::inspect::snapshot::{ProjectKind, ProjectSnapshot, SnapshotState};
use crate::order::{is_sorted_dedup_of, sort_dedup_strings, views};
use crate::protocol::{CatalogIdentity, Compatibility, Envelope, ReplayMetadata};
use crate::text::{decimal, str_eq, u64_decimal};

verus! {

// ---------------------------------------------------------------------------
// Compatibility verdict
// ---------------------------------------------------------------------------

/// Dependencies of the workspace members, member by member.
pub open spec fn member_deps(members: Seq<CargoPackage>) -> Seq<AmariDependencyEvidence>
    decreases members.len(),
{
    if members.len() == 0 {
        seq![]
    } else {
        member_deps(members.drop_last()) + members.last().dependencies@
    }
}

/// All Amari dependencies of a Cargo inspection: the root package's, then
/// each workspace member's.
pub open spec fn all_deps(cargo: CargoInspection) -> Seq<AmariDependencyEvidence> {
    cargo.root_package.dependencies@ + member_deps(cargo.workspace_members@)
}

/// Whether a dependency's version is not known to be applicable.
pub open spec fn is_unknown(dep: AmariDependencyEvidence) -> bool {
    dep.compatibility.status@ != "applicable"@
}

/// The reasons of the dependencies whose version is not applicable, in order.
pub open spec fn unknown_reasons(deps: Seq<AmariDependencyEvidence>) -> Seq<Seq<char>>
    decreases deps.len(),
{
    if deps.len() == 0 {
        seq![]
    } else {
        unknown_reasons(deps.drop_last()) + if is_unknown(deps.last()) {
            views(deps.last().compatibility.reasons@)
        } else {
            seq![]
        }
    }
}

/// Whether some dependency's version is not applicable.
pub open spec fn has_unknown(deps: Seq<AmariDependencyEvidence>) -> bool {
    exists|i: int| 0 <= i < deps.len() && is_unknown(#[trigger] deps[i])
}

proof fn lemma_unknown_reasons_append(a: Seq<AmariDependencyEvidence>, b: Seq<AmariDependencyEvidence>)
    ensures
        unknown_reasons(a + b) == unknown_reasons(a) + unknown_reasons(b),
    decreases b.len(),
{
    if b.len() == 0 {
        assert(a + b =~= a);
        assert(unknown_reasons(a) + unknown_reasons(b) =~= unknown_reasons(a));
    } else {
        lemma_unknown_reasons_append(a, b.drop_last());
        assert((a + b).drop_last() =~= a + b.drop_last());
        assert((a + b).last() == b.last());
    }
}

/// The compatibility verdict of a snapshot, as status and reasons.
pub open spec fn compatibility_holds(c: Compatibility, snapshot: ProjectSnapshot) -> bool {
    match snapshot.cargo {
        None => c.status@ == "compatible"@ && views(c.reasons@) == seq![
            "no Rust/Cargo dependency compatibility was required"@,
        ],
        Some(cargo) => {
            let deps = all_deps(cargo);
            if has_unknown(deps) {
                &&& c.status@ == "unknown_version"@
                &&& if unknown_reasons(deps).len() == 0 {
                    views(c.reasons@) == seq!["one or more Amari dependency versions are unknown"@]
                } else {
                    is_sorted_dedup_of(views(c.reasons@), unknown_reasons(deps))
                }
            } else if deps.len() > 0 {
                c.status@ == "applicable"@ && views(c.reasons@) == seq![
                    "resolved Amari dependencies match the embedded catalog"@,
                ]
            } else {
                c.status@ == "compatible"@ && views(c.reasons@) == seq![
                    "no direct Amari dependencies were detected"@,
                ]
            }
        },
    }
}

/// Appends the reasons of the non-applicable dependencies of `deps` to `raw`.
fn collect_unknown(deps: &Vec<AmariDependencyEvidence>, raw: &mut Vec<String>, saw_unknown: &mut bool)
    ensures
        views(final(raw)@) == views(old(raw)@) + unknown_reasons(deps@),
        *final(saw_unknown) == (*old(saw_unknown) || has_unknown(deps@)),
{
    let mut i: usize = 0;
    while i < deps.len()
        invariant
            i <= deps@.len(),
            views(raw@) == views(old(raw)@) + unknown_reasons(deps@.take(i as int)),
            *saw_unknown == (*old(saw_unknown) || has_unknown(deps@.take(i as int))),
        decreases deps@.len() - i,
    {
        proof {
            assert(deps@.take(i + 1).drop_last() =~= deps@.take(i as int));
            assert(deps@.take(i + 1).last() == deps@[i as int]);
        }
        let dep = &deps[i];
        if !str_eq(dep.compatibility.status.as_str(), "applicable") {
            *saw_unknown = true;
            let ghost before = views(raw@);
            let mut k: usize = 0;
            while k < dep.compatibility.reasons.len()
                invariant
                    k <= dep.compatibility.reasons@.len(),
                    views(raw@) == before + views(dep.compatibility.reasons@.take(k as int)),
                decreases dep.compatibility.reasons@.len() - k,
            {
                let ghost prev = raw@;
                raw.push(dep.compatibility.reasons[k].clone());
                proof {
                    assert(views(raw@) =~= views(prev).push(dep.compatibility.reasons@[k as int]@));
                    assert(views(dep.compatibility.reasons@.take(k + 1)) =~= views(
                        dep.compatibility.reasons@.take(k as int),
                    ).push(dep.compatibility.reasons@[k as int]@));
                    assert(views(raw@) =~= before + views(dep.compatibility.reasons@.take(k + 1)));
                }
                k += 1;
            }
            proof {
                assert(dep.compatibility.reasons@.take(dep.compatibility.reasons@.len() as int)
                    =~= dep.compatibility.reasons@);
                assert(is_unknown(deps@.take(i + 1)[i as int]));
            }
        } else {
            proof {
                assert(views(raw@) =~= views(old(raw)@) + unknown_reasons(deps@.take(i + 1)));
                if has_unknown(deps@.take(i + 1)) {
                    let w = choose|w: int| 0 <= w < i + 1 && is_unknown(#[trigger] deps@.take(i + 1)[w]);
                    assert(w < i);
                    assert(deps@.take(i as int)[w] == deps@.take(i + 1)[w]);
                }
            }
        }
        proof {
            if has_unknown(deps@.take(i as int)) {
                let w = choose|w: int| 0 <= w < i && is_unknown(#[trigger] deps@.take(i as int)[w]);
                assert(deps@.take(i + 1)[w] == deps@.take(i as int)[w]);
            }
        }
        i += 1;
    }
    assert(deps@.take(deps@.len() as int) =~= deps@);
}

/// A one-element list holding `text`.
fn single(text: &str) -> (r: Vec<String>)
    ensures
        views(r@) == seq![text@],
{
    let mut v: Vec<String> = Vec::new();
    v.push(String::from_str(text));
    assert(views(v@) =~= seq![text@]);
    v
}

/// Aggregates dependency compatibility into one project-level verdict.
pub fn snapshot_compatibility(snapshot: &ProjectSnapshot) -> (r: Compatibility)
    ensures
        compatibility_holds(r, *snapshot),
{
    let cargo = match &snapshot.cargo {
        None => {
            return Compatibility {
                status: String::from_str("compatible"),
                reasons: single("no Rust/Cargo dependency compatibility was required"),
            };
        },
        Some(c) => c,
    };
    let mut raw: Vec<String> = Vec::new();
    let mut saw_unknown = false;
    collect_unknown(&cargo.root_package.dependencies, &mut raw, &mut saw_unknown);
    let mut saw_dependency = cargo.root_package.dependencies.len() > 0;
    let ghost root = cargo.root_package.dependencies@;
    let ghost members = cargo.workspace_members@;
    let mut m: usize = 0;
    while m < cargo.workspace_members.len()
        invariant
            m <= members.len(),
            members == cargo.workspace_members@,
            root == cargo.root_package.dependencies@,
            views(raw@) == unknown_reasons(root + member_deps(members.take(m as int))),
            saw_unknown == has_unknown(root + member_deps(members.take(m as int))),
            saw_dependency == ((root + member_deps(members.take(m as int))).len() > 0),
        decreases members.len() - m,
    {
        let ghost prefix = root + member_deps(members.take(m as int));
        let ghost deps_m = members[m as int].dependencies@;
        proof {
            assert(members.take(m + 1).drop_last() =~= members.take(m as int));
            assert(members.take(m + 1).last() == members[m as int]);
            assert(root + member_deps(members.take(m + 1)) =~= prefix + deps_m);
            lemma_unknown_reasons_append(prefix, deps_m);
            assert(views(raw@) + unknown_reasons(deps_m) == unknown_reasons(prefix + deps_m));
        }
        let ghost before_unknown = saw_unknown;
        collect_unknown(&cargo.workspace_members[m].dependencies, &mut raw, &mut saw_unknown);
        proof {
            let all = prefix + deps_m;
            if has_unknown(prefix) {
                let w = choose|w: int| 0 <= w < prefix.len() && is_unknown(#[trigger] prefix[w]);
                assert(all[w] == prefix[w]);
            }
            if has_unknown(deps_m) {
                let w = choose|w: int| 0 <= w < deps_m.len() && is_unknown(#[trigger] deps_m[w]);
                assert(all[prefix.len() + w] == deps_m[w]);
            }
            if has_unknown(all) {
                let w = choose|w: int| 0 <= w < all.len() && is_unknown(#[trigger] all[w]);
                if w < prefix.len() {
                    assert(prefix[w] == all[w]);
                } else {
                    assert(deps_m[w - prefix.len()] == all[w]);
                }
            }
        }
        if cargo.workspace_members[m].dependencies.len() > 0 {
            saw_dependency = true;
        }
        m += 1;
    }
    proof {
        assert(members.take(members.len() as int) =~= members);
        assert(root + member_deps(members) == all_deps(*cargo));
    }
    if saw_unknown {
        let mut reasons = sort_dedup_strings(raw);
        proof {
            if reasons@.len() > 0 {
                assert(views(reasons@).contains(views(reasons@)[0]));
                assert(views(raw@).contains(views(reasons@)[0]));
            }
        }
        if reasons.len() == 0 {
            proof {
                if unknown_reasons(all_deps(*cargo)).len() > 0 {
                    assert(views(raw@).contains(views(raw@)[0]));
                    assert(views(reasons@).contains(views(raw@)[0]));
                }
            }
            reasons = single("one or more Amari dependency versions are unknown");
        }
        Compatibility { status: String::from_str("unknown_version"), reasons }
    } else if saw_dependency {
        Compatibility {
            status: String::from_str("applicable"),
            reasons: single("resolved Amari dependencies match the embedded catalog"),
        }
    } else {
        Compatibility {
            status: String::from_str("compatible"),
            reasons: single("no direct Amari dependencies were detected"),
        }
    }
}

// ---------------------------------------------------------------------------
// Rust/Cargo evidence composition
// ---------------------------------------------------------------------------

/// Whether a project of this kind is enriched with Cargo, Rust-source, and
/// platform evidence.
pub fn needs_rust_evidence(kind: ProjectKind) -> (r: bool)
    ensures
        r == (kind == ProjectKind::RustCargo || kind == ProjectKind::Mixed),
{
    match kind {
        ProjectKind::RustCargo | ProjectKind::Mixed => true,
        _ => false,
    }
}

/// The state of an enriched snapshot: a complete filesystem snapshot takes
/// the first limit reported by the Cargo, Rust-source, or platform evidence,
/// in that order; a partial one keeps its own state.
pub open spec fn spec_combined_state(
    fs: SnapshotState,
    cargo: SnapshotState,
    rust: SnapshotState,
    platform: SnapshotState,
) -> SnapshotState {
    if fs is Complete {
        if cargo is LimitExceeded {
            cargo
        } else if rust is LimitExceeded {
            rust
        } else if platform is LimitExceeded {
            platform
        } else {
            SnapshotState::Complete
        }
    } else {
        fs
    }
}

/// Attaches Cargo, Rust-source, and platform evidence to a snapshot.
pub fn attach_rust_evidence(
    snapshot: ProjectSnapshot,
    cargo: CargoInspection,
    rust: RustSourceInspection,
    platform: CargoPlatformInspection,
) -> (r: ProjectSnapshot)
    ensures
        r.state == spec_combined_state(snapshot.state, cargo.state, rust.state, platform.state),
        r.cargo == Some(cargo),
        r.rust == Some(rust),
        r.platform == Some(platform),
        r.project_hash == snapshot.project_hash,
        r.project_kind == snapshot.project_kind,
        r.signals == snapshot.signals,
        r.file_count == snapshot.file_count,
        r.total_bytes == snapshot.total_bytes,
        r.warnings == snapshot.warnings,
        r.files == snapshot.files,
{
    let mut snapshot = snapshot;
    if let SnapshotState::Complete = snapshot.state {
        snapshot.state = if let SnapshotState::LimitExceeded { .. } = cargo.state {
            cargo.state
        } else if let SnapshotState::LimitExceeded { .. } = rust.state {
            rust.state
        } else if let SnapshotState::LimitExceeded { .. } = platform.state {
            platform.state
        } else {
            SnapshotState::Complete
        };
    }
    snapshot.cargo = Some(cargo);
    snapshot.rust = Some(rust);
    snapshot.platform = Some(platform);
    snapshot
}

// ---------------------------------------------------------------------------
// Envelope
// ---------------------------------------------------------------------------

/// The hash fields a replay of the snapshot must match.
pub open spec fn spec_required_hashes(snapshot: ProjectSnapshot) -> Seq<Seq<char>> {
    seq!["project_hash"@] + (if snapshot.cargo is Some {
        seq!["cargo.input_hash"@]
    } else {
        seq![]
    }) + (if snapshot.rust is Some {
        seq!["rust.input_hash"@]
    } else {
        seq![]
    }) + (if snapshot.platform is Some {
        seq!["platform.config_input.input_hash"@]
    } else {
        seq![]
    })
}

/// A summary line `"<prefix><n> warning(s)"`.
pub open spec fn count_line(prefix: Seq<char>, n: nat) -> Seq<char> {
    prefix + decimal(n) + " warning(s)"@
}

/// The snapshot's warnings, then one summary line per evidence kind that
/// reported warnings.
pub open spec fn spec_envelope_warnings(snapshot: ProjectSnapshot) -> Seq<Seq<char>> {
    views(snapshot.warnings@) + (match snapshot.cargo {
        Some(c) => if c.warnings@.len() > 0 {
            seq![count_line("Cargo inspection reported "@, c.warnings@.len())]
        } else {
            seq![]
        },
        None => seq![],
    }) + (match snapshot.rust {
        Some(c) => if c.warnings@.len() > 0 {
            seq![count_line("Rust source inspection reported "@, c.warnings@.len())]
        } else {
            seq![]
        },
        None => seq![],
    }) + (match snapshot.platform {
        Some(c) => if c.warnings@.len() > 0 {
            seq![count_line("Cargo platform inspection reported "@, c.warnings@.len())]
        } else {
            seq![]
        },
        None => seq![],
    })
}

/// Appends `"<prefix><n> warning(s)"` to `out`.
fn push_count_line(out: &mut Vec<String>, prefix: &str, n: usize)
    ensures
        views(final(out)@) == views(old(out)@).push(count_line(prefix@, n as nat)),
{
    let mut m = String::from_str(prefix);
    let d = u64_decimal(n as u64);
    m.append(d.as_str());
    m.append(" warning(s)");
    out.push(m);
    assert(views(out@) =~= views(old(out)@).push(count_line(prefix@, n as nat)));
}

/// Appends `text` to `out`.
fn push_text(out: &mut Vec<String>, text: &str)
    ensures
        views(final(out)@) == views(old(out)@).push(text@),
{
    out.push(String::from_str(text));
    assert(views(out@) =~= views(old(out)@).push(text@));
}

/// A copy of a list of strings.
fn copy_strings(v: &Vec<String>) -> (r: Vec<String>)
    ensures
        views(r@) == views(v@),
{
    let mut out: Vec<String> = Vec::new();
    let mut i: usize = 0;
    while i < v.len()
        invariant
            i <= v@.len(),
            views(out@) == views(v@.take(i as int)),
        decreases v@.len() - i,
    {
        let ghost prev = out@;
        out.push(v[i].clone());
        assert(views(out@) =~= views(prev).push(v@[i as int]@));
        assert(views(v@.take(i + 1)) =~= views(v@.take(i as int)).push(v@[i as int]@));
        i += 1;
    }
    assert(v@.take(v@.len() as int) =~= v@);
    out
}

/// The shared versioned envelope for an inspected project: bound to the
/// catalog and the project hash, with the aggregate compatibility verdict and
/// the hashes a replay must match.
pub fn project_envelope(snapshot: ProjectSnapshot, catalog: CatalogIdentity) -> (r: Envelope<ProjectSnapshot>)
    ensures
        r.data == snapshot,
        r.catalog == catalog,
        compatibility_holds(r.compatibility, snapshot),
        r.replay.replayable,
        views(r.replay.required_hashes@) == spec_required_hashes(snapshot),
        r.replay.reasons@.len() == 0,
        r.project_hash matches Some(h) && h@ == snapshot.project_hash@,
        views(r.warnings@) == spec_envelope_warnings(snapshot),
{
    let compatibility = snapshot_compatibility(&snapshot);
    let project_hash = snapshot.project_hash.clone();
    let mut required_hashes: Vec<String> = Vec::new();
    push_text(&mut required_hashes, "project_hash");
    let mut warnings = copy_strings(&snapshot.warnings);
    if let Some(cargo) = &snapshot.cargo {
        push_text(&mut required_hashes, "cargo.input_hash");
        if cargo.warnings.len() > 0 {
            push_count_line(&mut warnings, "Cargo inspection reported ", cargo.warnings.len());
        }
    }
    if let Some(rust) = &snapshot.rust {
        push_text(&mut required_hashes, "rust.input_hash");
        if rust.warnings.len() > 0 {
            push_count_line(&mut warnings, "Rust source inspection reported ", rust.warnings.len());
        }
    }
    if let Some(platform) = &snapshot.platform {
        push_text(&mut required_hashes, "platform.config_input.input_hash");
        if platform.warnings.len() > 0 {
            push_count_line(
                &mut warnings,
                "Cargo platform inspection reported ",
                platform.warnings.len(),
            );
        }
    }
    proof {
        assert(views(required_hashes@) =~= spec_required_hashes(snapshot));
        assert(views(warnings@) =~= spec_envelope_warnings(snapshot));
    }
    let mut envelope = Envelope::new(
        snapshot,
        catalog,
        compatibility,
        ReplayMetadata { replayable: true, required_hashes, reasons: Vec::new() },
    );
    envelope.project_hash = Some(project_hash);
    envelope.warnings = warnings;
    envelope
}

} // verus!
