//! Offline Cargo manifest reading: Amari dependency evidence with workspace
//! inheritance, dependency records, system-dependency signals, benches,
//! native links, and inherited package metadata.

use vstd::prelude::*;
use vstd::string::StringExecFns;

use crate::hashing::spec_sha256_hex;
use crate::inspect::cargo::lock::{spec_malformed_reason, spec_toml_line_col, toml_line_col, toml_malformed_reason, utf8_text};
use crate::inspect::cargo::provenance::ProvenanceAccumulator;
use crate::inspect::cargo::toml_value::{
    toml_strings_opt, array_strings, dep_bool, dep_get_bool, dep_get_string, dep_get_strings, dep_get_strings_sorted,
    dep_has, dep_lookup, dep_string, dep_strings, get, is_dep_value, lookup, spec_table_at,
    spec_toml_bool, spec_toml_string, spec_toml_strings_opt, table_at, toml_bool, toml_string,
    toml_strings_sorted, TomlValue, TomlError, parse_toml, spec_parse_toml,
};
use crate::error::{DiscoveryError, DiscoveryResult};
use crate::inspect::cargo::types::{
    CargoPackage, WorkspaceMeta, spec_system_dep_kind, system_dep_kind, warning_views, AmariDependencyEvidence, CargoBench,
    CargoDependencyRecord, CargoInspectionWarning, CargoWarningV, DependencyKind, ManifestSource,
    NativeLink, SystemDependencyKind, SystemDependencySignal, WorkspaceDependencyBase,
};
use crate::order::{sort_key_view, sort_key_views, sorted_by_key, sorted_dedup, sort_dedup_strings, stable_sort_by_key, views, SortKey, SortKeyV};
use crate::protocol::Compatibility;
use crate::text::{debug_opt, debug_opt_usize, chars_contain, chars_eq, chars_of, has_prefix, opt_view, clone_opt, push_char, str_eq, str_starts_with, string_of, subrange_vec};

verus! {

// ---------------------------------------------------------------------------
// Amari packages
// ---------------------------------------------------------------------------

/// Whether `name` is an Amari package (`amari` or `amari-*`).
pub open spec fn spec_is_amari(name: Seq<char>) -> bool {
    name == "amari"@ || has_prefix(name, "amari-"@)
}

/// Whether `name` is an Amari package (`amari` or `amari-*`).
pub fn is_amari_package(name: &str) -> (r: bool)
    ensures
        r == spec_is_amari(name@),
{
    str_eq(name, "amari") || str_starts_with(name, "amari-")
}

// ---------------------------------------------------------------------------
// Workspace dependency bases
// ---------------------------------------------------------------------------

/// Whether `b` is the base that a `[workspace.dependencies]` value declares.
pub open spec fn base_matches(b: WorkspaceDependencyBase, raw: TomlValue) -> bool {
    &&& opt_view(b.package) == dep_string(raw, "package"@)
    &&& opt_view(b.version) == dep_string(raw, "version"@)
    &&& opt_view(b.path) == dep_string(raw, "path"@)
    &&& opt_view(b.git) == dep_string(raw, "git"@)
    &&& views(b.features@) == sorted_dedup(
        match dep_strings(raw, "features"@) {
            Some(w) => w,
            None => seq![],
        },
    )
    &&& b.default_features == dep_bool(raw, "default-features"@)
    &&& b.optional == match dep_bool(raw, "optional"@) {
        Some(x) => x,
        None => false,
    }
}

/// The dependency-valued entries of a table, in order.
pub open spec fn dep_entries(t: Seq<(String, TomlValue)>) -> Seq<(String, TomlValue)>
    decreases t.len(),
{
    if t.len() == 0 {
        seq![]
    } else {
        dep_entries(t.drop_last()) + if is_dep_value(t.last().1) {
            seq![t.last()]
        } else {
            seq![]
        }
    }
}

/// The base a workspace dependency value declares.
fn base_of(raw: &TomlValue) -> (r: WorkspaceDependencyBase)
    ensures
        base_matches(r, *raw),
{
    WorkspaceDependencyBase {
        package: dep_get_string(raw, "package"),
        version: dep_get_string(raw, "version"),
        path: dep_get_string(raw, "path"),
        git: dep_get_string(raw, "git"),
        features: dep_get_strings_sorted(raw, "features"),
        default_features: dep_get_bool(raw, "default-features"),
        optional: match dep_get_bool(raw, "optional") {
            Some(x) => x,
            None => false,
        },
    }
}

/// Whether `bases` are the bases of the dependency entries of a
/// `[workspace]` table's `dependencies` table, in key order.
pub open spec fn bases_of(bases: Seq<(String, WorkspaceDependencyBase)>, ws: Seq<(String, TomlValue)>) -> bool {
    let entries = match spec_table_at(ws, "dependencies"@) {
        Some(t) => dep_entries(t),
        None => seq![],
    };
    &&& bases.len() == entries.len()
    &&& forall|i: int|
        0 <= i < bases.len() ==> #[trigger] bases[i].0 == entries[i].0 && base_matches(
            bases[i].1,
            entries[i].1,
        )
}

/// Builds the workspace dependency bases from `[workspace.dependencies]`.
pub fn parse_workspace_deps(ws: &Vec<(String, TomlValue)>) -> (r: Vec<(String, WorkspaceDependencyBase)>)
    ensures
        bases_of(r@, ws@),
{
    let mut out: Vec<(String, WorkspaceDependencyBase)> = Vec::new();
    let t = match table_at(ws, "dependencies") {
        Some(t) => t,
        None => {
            return out;
        },
    };
    let ghost entries = dep_entries(t@);
    let mut i: usize = 0;
    while i < t.len()
        invariant
            i <= t@.len(),
            out@.len() == dep_entries(t@.take(i as int)).len(),
            forall|q: int|
                0 <= q < out@.len() ==> #[trigger] out@[q].0 == dep_entries(t@.take(i as int))[q].0
                    && base_matches(out@[q].1, dep_entries(t@.take(i as int))[q].1),
        decreases t@.len() - i,
    {
        proof {
            assert(t@.take(i + 1).drop_last() =~= t@.take(i as int));
            assert(t@.take(i + 1).last() == t@[i as int]);
        }
        let raw = &t[i].1;
        let ghost before = out@;
        let ghost prev_entries = dep_entries(t@.take(i as int));
        let keep = match raw {
            TomlValue::String(_) => true,
            TomlValue::Table(_, _) => true,
            _ => false,
        };
        if keep {
            out.push((t[i].0.clone(), base_of(raw)));
            proof {
                let e = dep_entries(t@.take(i + 1));
                assert(e =~= prev_entries.push(t@[i as int]));
                assert forall|q: int| 0 <= q < out@.len() implies #[trigger] out@[q].0 == e[q].0
                    && base_matches(out@[q].1, e[q].1) by {
                    if q < before.len() {
                        assert(out@[q] == before[q]);
                        assert(e[q] == prev_entries[q]);
                    }
                }
            }
        } else {
            assert(dep_entries(t@.take(i + 1)) =~= prev_entries);
        }
        i += 1;
    }
    assert(t@.take(t@.len() as int) =~= t@);
    out
}

/// The base declared for `alias`.
pub open spec fn base_lookup(bases: Seq<(String, WorkspaceDependencyBase)>, alias: Seq<char>) -> Option<
    WorkspaceDependencyBase,
>
    decreases bases.len(),
{
    if bases.len() == 0 {
        None
    } else if bases[0].0@ == alias {
        Some(bases[0].1)
    } else {
        base_lookup(bases.drop_first(), alias)
    }
}

/// The base declared for `alias`.
fn find_base<'a>(bases: &'a Vec<(String, WorkspaceDependencyBase)>, alias: &str) -> (r: Option<
    &'a WorkspaceDependencyBase,
>)
    ensures
        match (r, base_lookup(bases@, alias@)) {
            (Some(b), Some(c)) => *b == c,
            (None, None) => true,
            _ => false,
        },
{
    let mut i: usize = 0;
    assert(bases@.skip(0) =~= bases@);
    while i < bases.len()
        invariant
            i <= bases@.len(),
            base_lookup(bases@.skip(i as int), alias@) == base_lookup(bases@, alias@),
        decreases bases@.len() - i,
    {
        assert(bases@.skip(i as int).drop_first() =~= bases@.skip(i + 1));
        if str_eq(bases[i].0.as_str(), alias) {
            return Some(&bases[i].1);
        }
        i += 1;
    }
    None
}

// ---------------------------------------------------------------------------
// Workspace-inherited dependencies
// ---------------------------------------------------------------------------

/// Resolution of a workspace-inherited dependency: package name, version,
/// features, optional, default features.
pub type ResolvedWsV = (Seq<char>, Seq<char>, Seq<Seq<char>>, bool, bool);

/// Override keys an inherited member declaration may not set, in check order.
pub open spec fn illegal_keys() -> Seq<Seq<char>> {
    seq!["version"@, "path"@, "git"@, "package"@]
}

/// Warnings for the illegal overrides among the first `n` illegal keys.
pub open spec fn override_warnings(dep: TomlValue, alias: Seq<char>, pkg: Seq<char>, n: int) -> Seq<CargoWarningV>
    decreases n,
{
    if n <= 0 {
        seq![]
    } else {
        override_warnings(dep, alias, pkg, n - 1) + if dep_lookup(dep, illegal_keys()[n - 1]) is Some {
            seq![CargoWarningV::WorkspaceOverrideRejected(alias, pkg, illegal_keys()[n - 1])]
        } else {
            seq![]
        }
    }
}

/// How a `workspace = true` declaration of `alias` in package `pkg`
/// resolves against the bases, and the warnings it produces.
pub open spec fn spec_resolve_ws(
    alias: Seq<char>,
    dep: TomlValue,
    bases: Seq<(String, WorkspaceDependencyBase)>,
    pkg: Seq<char>,
) -> (ResolvedWsV, Seq<CargoWarningV>) {
    if dep_bool(dep, "workspace"@) == Some(false) {
        (
            (alias, "unknown"@, seq![], false, true),
            seq![CargoWarningV::WorkspaceFalseRejected(alias, pkg)],
        )
    } else {
        match base_lookup(bases, alias) {
            None => (
                (alias, "unknown"@, seq![], false, true),
                seq![CargoWarningV::InheritedBaseMissing(pkg, alias)],
            ),
            Some(b) => (
                (
                    match b.package {
                        Some(p) => p@,
                        None => alias,
                    },
                    match b.version {
                        Some(v) => v@,
                        None => "unknown"@,
                    },
                    sorted_dedup(
                        views(b.features@) + match dep_strings(dep, "features"@) {
                            Some(w) => w,
                            None => seq![],
                        },
                    ),
                    match dep_bool(dep, "optional"@) {
                        Some(x) => x,
                        None => b.optional,
                    },
                    match dep_bool(dep, "default-features"@) {
                        Some(x) => x,
                        None => match b.default_features {
                            Some(y) => y,
                            None => true,
                        },
                    },
                ),
                override_warnings(dep, alias, pkg, 4),
            ),
        }
    }
}

/// A resolved workspace-inherited dependency.
pub struct ResolvedWorkspaceDep {
    /// The package name after alias/package resolution.
    pub package_name: String,
    /// The resolved version string.
    pub version: String,
    /// Merged features, sorted and deduplicated.
    pub features: Vec<String>,
    /// Whether the dependency is optional.
    pub optional: bool,
    /// Whether Cargo default features are enabled.
    pub default_features: bool,
}

/// View of a resolved workspace dependency.
pub open spec fn resolved_view(r: ResolvedWorkspaceDep) -> ResolvedWsV {
    (r.package_name@, r.version@, views(r.features@), r.optional, r.default_features)
}

/// Appends a warning, keeping the view relation.
fn push_warning(warnings: &mut Vec<CargoInspectionWarning>, w: CargoInspectionWarning)
    ensures
        warning_views(final(warnings)@) == warning_views(old(warnings)@).push(w@),
{
    warnings.push(w);
    assert(warning_views(warnings@) =~= warning_views(old(warnings)@).push(w@));
}

/// The fallback resolution of an unresolvable inherited dependency.
fn unknown_resolution(alias: &str) -> (r: ResolvedWorkspaceDep)
    ensures
        resolved_view(r) == (alias@, "unknown"@, Seq::<Seq<char>>::empty(), false, true),
{
    let features: Vec<String> = Vec::new();
    assert(views(features@) =~= Seq::<Seq<char>>::empty());
    ResolvedWorkspaceDep {
        package_name: String::from_str(alias),
        version: String::from_str("unknown"),
        features,
        optional: false,
        default_features: true,
    }
}

/// Resolves a workspace-inherited dependency against its base (keyed by
/// alias), merging features and honoring member overrides of `optional`
/// and `default-features`; illegal overrides are reported.
pub fn resolve_workspace_dep(
    alias: &str,
    dep: &TomlValue,
    bases: &Vec<(String, WorkspaceDependencyBase)>,
    package_name: &str,
    warnings: &mut Vec<CargoInspectionWarning>,
) -> (r: ResolvedWorkspaceDep)
    ensures
        resolved_view(r) == spec_resolve_ws(alias@, *dep, bases@, package_name@).0,
        warning_views(final(warnings)@) == warning_views(old(warnings)@) + spec_resolve_ws(
            alias@,
            *dep,
            bases@,
            package_name@,
        ).1,
{
    if dep_get_bool(dep, "workspace") == Some(false) {
        push_warning(
            warnings,
            CargoInspectionWarning::WorkspaceFalseRejected {
                dep: String::from_str(alias),
                package: String::from_str(package_name),
            },
        );
        assert(warning_views(warnings@) =~= warning_views(old(warnings)@) + seq![
            CargoWarningV::WorkspaceFalseRejected(alias@, package_name@),
        ]);
        return unknown_resolution(alias);
    }
    let base = match find_base(bases, alias) {
        Some(b) => b,
        None => {
            push_warning(
                warnings,
                CargoInspectionWarning::InheritedBaseMissing {
                    member: String::from_str(package_name),
                    dep: String::from_str(alias),
                },
            );
            assert(warning_views(warnings@) =~= warning_views(old(warnings)@) + seq![
                CargoWarningV::InheritedBaseMissing(package_name@, alias@),
            ]);
            return unknown_resolution(alias);
        },
    };
    proof {
        reveal_strlit("version");
        reveal_strlit("path");
        reveal_strlit("git");
        reveal_strlit("package");
    }
    let keys: [&str; 4] = ["version", "path", "git", "package"];
    let ghost w0 = warning_views(old(warnings)@);
    let mut k: usize = 0;
    while k < 4
        invariant
            k <= 4,
            keys@ =~= seq!["version", "path", "git", "package"],
            warning_views(warnings@) == w0 + override_warnings(*dep, alias@, package_name@, k as int),
        decreases 4 - k,
    {
        let key = keys[k];
        assert(key@ == illegal_keys()[k as int]);
        if dep_has(dep, key) {
            let ghost before = warning_views(warnings@);
            push_warning(
                warnings,
                CargoInspectionWarning::WorkspaceOverrideRejected {
                    dep: String::from_str(alias),
                    package: String::from_str(package_name),
                    key: String::from_str(key),
                },
            );
            assert(warning_views(warnings@) =~= w0 + override_warnings(*dep, alias@, package_name@, k + 1));
        } else {
            assert(override_warnings(*dep, alias@, package_name@, k + 1) =~= override_warnings(
                *dep,
                alias@,
                package_name@,
                k as int,
            ));
        }
        k += 1;
    }
    let package = match &base.package {
        Some(p) => p.clone(),
        None => String::from_str(alias),
    };
    let version = match &base.version {
        Some(v) => v.clone(),
        None => String::from_str("unknown"),
    };
    let mut all: Vec<String> = Vec::new();
    let mut i: usize = 0;
    while i < base.features.len()
        invariant
            i <= base.features@.len(),
            views(all@) == views(base.features@.take(i as int)),
        decreases base.features@.len() - i,
    {
        let ghost prev = all@;
        all.push(base.features[i].clone());
        assert(views(all@) =~= views(prev).push(base.features@[i as int]@));
        assert(views(base.features@.take(i + 1)) =~= views(base.features@.take(i as int)).push(
            base.features@[i as int]@,
        ));
        i += 1;
    }
    assert(base.features@.take(base.features@.len() as int) =~= base.features@);
    let member = match dep_get_strings(dep, "features") {
        Some(v) => v,
        None => Vec::new(),
    };
    let ghost extra = match dep_strings(*dep, "features"@) {
        Some(w) => w,
        None => seq![],
    };
    assert(views(member@) == extra);
    let mut j: usize = 0;
    let ghost start = views(all@);
    while j < member.len()
        invariant
            j <= member@.len(),
            views(all@) == start + views(member@.take(j as int)),
        decreases member@.len() - j,
    {
        let ghost prev = all@;
        all.push(member[j].clone());
        assert(views(all@) =~= views(prev).push(member@[j as int]@));
        assert(views(member@.take(j + 1)) =~= views(member@.take(j as int)).push(member@[j as int]@));
        j += 1;
    }
    assert(member@.take(member@.len() as int) =~= member@);
    let features = sort_dedup_strings(all);
    let optional = match dep_get_bool(dep, "optional") {
        Some(x) => x,
        None => base.optional,
    };
    let default_features = match dep_get_bool(dep, "default-features") {
        Some(x) => x,
        None => match base.default_features {
            Some(y) => y,
            None => true,
        },
    };
    ResolvedWorkspaceDep { package_name: package, version, features, optional, default_features }
}

// ---------------------------------------------------------------------------
// Dependency tables
// ---------------------------------------------------------------------------

/// An Amari dependency found in a table: alias, package, declared version,
/// features, default features, optional.
pub type DepSpecV = (Seq<char>, Seq<char>, Seq<char>, Seq<Seq<char>>, bool, bool);

/// What one `alias = raw` entry of a dependency table of package `pkg`
/// contributes: an Amari dependency or nothing, and warnings.
pub open spec fn spec_dep_entry(
    alias: Seq<char>,
    raw: TomlValue,
    bases: Seq<(String, WorkspaceDependencyBase)>,
    pkg: Seq<char>,
) -> (Option<DepSpecV>, Seq<CargoWarningV>) {
    if !is_dep_value(raw) {
        (None, seq![])
    } else if dep_bool(raw, "workspace"@) == Some(false) {
        (None, seq![CargoWarningV::WorkspaceFalseRejected(alias, pkg)])
    } else {
        let is_ws = dep_bool(raw, "workspace"@) == Some(true);
        let named = match dep_string(raw, "package"@) {
            Some(p) => p,
            None => alias,
        };
        let base_amari = match base_lookup(bases, alias) {
            Some(b) => match b.package {
                Some(p) => spec_is_amari(p@),
                None => false,
            },
            None => false,
        };
        let candidate = if is_ws {
            spec_is_amari(alias) || base_amari
        } else {
            spec_is_amari(named) || spec_is_amari(alias)
        };
        let features = sorted_dedup(
            match dep_strings(raw, "features"@) {
                Some(w) => w,
                None => seq![],
            },
        );
        if !candidate {
            (None, seq![])
        } else if is_ws {
            let (res, ws) = spec_resolve_ws(alias, raw, bases, pkg);
            if !spec_is_amari(res.0) {
                (None, ws)
            } else {
                (
                    Some(
                        (
                            alias,
                            res.0,
                            res.1,
                            if res.2.len() == 0 { features } else { res.2 },
                            res.4,
                            res.3,
                        ),
                    ),
                    ws,
                )
            }
        } else if !spec_is_amari(named) {
            (None, seq![])
        } else {
            let optional = match dep_bool(raw, "optional"@) {
                Some(x) => x,
                None => false,
            };
            let df = match dep_bool(raw, "default-features"@) {
                Some(x) => x,
                None => true,
            };
            let (declared, ws) = match dep_string(raw, "version"@) {
                Some(v) => (v, seq![]),
                None => match dep_string(raw, "git"@) {
                    Some(g) => (
                        "unknown"@,
                        seq![
                            CargoWarningV::UnsupportedRequirement(
                                pkg,
                                alias,
                                "git dependency '"@ + g + "' cannot be resolved offline"@,
                            ),
                        ],
                    ),
                    None => if dep_string(raw, "path"@) is Some {
                        (
                            "unknown"@,
                            seq![
                                CargoWarningV::UnsupportedRequirement(
                                    pkg,
                                    alias,
                                    "path dependency cannot be resolved offline"@,
                                ),
                            ],
                        )
                    } else {
                        (
                            "unknown"@,
                            seq![
                                CargoWarningV::UnsupportedRequirement(
                                    pkg,
                                    alias,
                                    "dependency has no version, workspace marker, or offline-resolvable spec"@,
                                ),
                            ],
                        )
                    },
                },
            };
            (Some((alias, named, declared, features, df, optional)), ws)
        }
    }
}

/// The Amari dependencies and warnings of a dependency table, entry by entry.
pub open spec fn spec_dep_table(
    t: Seq<(String, TomlValue)>,
    bases: Seq<(String, WorkspaceDependencyBase)>,
    pkg: Seq<char>,
) -> (Seq<DepSpecV>, Seq<CargoWarningV>)
    decreases t.len(),
{
    if t.len() == 0 {
        (seq![], seq![])
    } else {
        let (d, w) = spec_dep_table(t.drop_last(), bases, pkg);
        let (e, ew) = spec_dep_entry(t.last().0@, t.last().1, bases, pkg);
        (
            match e {
                Some(x) => d.push(x),
                None => d,
            },
            w + ew,
        )
    }
}

/// Whether `e` is the not-yet-resolved evidence of `spec` found in a table
/// of kind `kind` with target `target`, sourced from `src`.
pub open spec fn evidence_is(
    e: AmariDependencyEvidence,
    spec: DepSpecV,
    kind: DependencyKind,
    target: Option<Seq<char>>,
    src: (Seq<char>, Option<usize>, Seq<char>, u64),
) -> bool {
    &&& e.alias@ == spec.0
    &&& e.package_name@ == spec.1
    &&& e.declared_version@ == spec.2
    &&& views(e.features@) == spec.3
    &&& e.default_features == spec.4
    &&& e.optional == spec.5
    &&& e.kind == kind
    &&& opt_view(e.target) == target
    &&& e.resolved_version is None
    &&& e.compatibility.status@ == "unknown_version"@
    &&& views(e.compatibility.reasons@) == seq!["not yet resolved against lock"@]
    &&& e.manifest_source@ == src
    &&& e.lock_source is None
}

/// The evidence of one entry, or `None`.
fn dep_entry(
    alias: &String,
    raw: &TomlValue,
    kind: DependencyKind,
    target: &Option<String>,
    source: &ManifestSource,
    bases: &Vec<(String, WorkspaceDependencyBase)>,
    package_name: &str,
    warnings: &mut Vec<CargoInspectionWarning>,
) -> (r: Option<AmariDependencyEvidence>)
    ensures
        match (r, spec_dep_entry(alias@, *raw, bases@, package_name@).0) {
            (Some(e), Some(sp)) => evidence_is(e, sp, kind, opt_view(*target), source@),
            (None, None) => true,
            _ => false,
        },
        warning_views(final(warnings)@) == warning_views(old(warnings)@) + spec_dep_entry(
            alias@,
            *raw,
            bases@,
            package_name@,
        ).1,
{
    let is_dep = match raw {
        TomlValue::String(_) => true,
        TomlValue::Table(_, _) => true,
        _ => false,
    };
    if !is_dep {
        assert(warning_views(warnings@) =~= warning_views(old(warnings)@) + seq![]);
        return None;
    }
    let ws_flag = dep_get_bool(raw, "workspace");
    if ws_flag == Some(false) {
        push_warning(
            warnings,
            CargoInspectionWarning::WorkspaceFalseRejected {
                dep: alias.clone(),
                package: String::from_str(package_name),
            },
        );
        assert(warning_views(warnings@) =~= warning_views(old(warnings)@) + seq![
            CargoWarningV::WorkspaceFalseRejected(alias@, package_name@),
        ]);
        return None;
    }
    let is_ws = ws_flag == Some(true);
    let named = match dep_get_string(raw, "package") {
        Some(p) => p,
        None => alias.clone(),
    };
    let base_amari = match find_base(bases, alias.as_str()) {
        Some(b) => match &b.package {
            Some(p) => is_amari_package(p.as_str()),
            None => false,
        },
        None => false,
    };
    let candidate = if is_ws {
        is_amari_package(alias.as_str()) || base_amari
    } else {
        is_amari_package(named.as_str()) || is_amari_package(alias.as_str())
    };
    if !candidate {
        assert(warning_views(warnings@) =~= warning_views(old(warnings)@) + seq![]);
        return None;
    }
    let features = dep_get_strings_sorted(raw, "features");
    let compatibility = unresolved();
    if is_ws {
        let res = resolve_workspace_dep(alias.as_str(), raw, bases, package_name, warnings);
        if !is_amari_package(res.package_name.as_str()) {
            return None;
        }
        let final_features = if res.features.len() == 0 {
            features
        } else {
            res.features
        };
        return Some(
            AmariDependencyEvidence {
                alias: alias.clone(),
                package_name: res.package_name,
                kind,
                declared_version: res.version,
                resolved_version: None,
                compatibility,
                target: clone_opt(target),
                features: final_features,
                default_features: res.default_features,
                optional: res.optional,
                manifest_source: source.clone(),
                lock_source: None,
            },
        );
    }
    if !is_amari_package(named.as_str()) {
        assert(warning_views(warnings@) =~= warning_views(old(warnings)@) + seq![]);
        return None;
    }
    let optional = match dep_get_bool(raw, "optional") {
        Some(x) => x,
        None => false,
    };
    let default_features = match dep_get_bool(raw, "default-features") {
        Some(x) => x,
        None => true,
    };
    let declared = match dep_get_string(raw, "version") {
        Some(v) => {
            assert(warning_views(warnings@) =~= warning_views(old(warnings)@) + seq![]);
            v
        },
        None => {
            let reason = match dep_get_string(raw, "git") {
                Some(g) => {
                    let mut m = String::from_str("git dependency '");
                    m.append(g.as_str());
                    m.append("' cannot be resolved offline");
                    m
                },
                None => {
                    if dep_get_string(raw, "path").is_some() {
                        String::from_str("path dependency cannot be resolved offline")
                    } else {
                        String::from_str(
                            "dependency has no version, workspace marker, or offline-resolvable spec",
                        )
                    }
                },
            };
            let ghost rv = reason@;
            push_warning(
                warnings,
                CargoInspectionWarning::UnsupportedRequirement {
                    package: String::from_str(package_name),
                    dep: alias.clone(),
                    reason,
                },
            );
            assert(warning_views(warnings@) =~= warning_views(old(warnings)@) + seq![
                CargoWarningV::UnsupportedRequirement(package_name@, alias@, rv),
            ]);
            String::from_str("unknown")
        },
    };
    Some(
        AmariDependencyEvidence {
            alias: alias.clone(),
            package_name: named,
            kind,
            declared_version: declared,
            resolved_version: None,
            compatibility,
            target: clone_opt(target),
            features,
            default_features,
            optional,
            manifest_source: source.clone(),
            lock_source: None,
        },
    )
}

/// The placeholder verdict of a dependency not yet resolved against a lock.
fn unresolved() -> (r: Compatibility)
    ensures
        r.status@ == "unknown_version"@,
        views(r.reasons@) == seq!["not yet resolved against lock"@],
{
    let mut reasons: Vec<String> = Vec::new();
    reasons.push(String::from_str("not yet resolved against lock"));
    assert(views(reasons@) =~= seq!["not yet resolved against lock"@]);
    Compatibility { status: String::from_str("unknown_version"), reasons }
}

/// Parses one dependency table (e.g. `[dependencies]`) into Amari
/// dependency evidence; `target` is the selector of a
/// `[target.<selector>.dependencies]` table.
pub fn parse_dep_table(
    table: &Vec<(String, TomlValue)>,
    kind: DependencyKind,
    target: &Option<String>,
    source: &ManifestSource,
    bases: &Vec<(String, WorkspaceDependencyBase)>,
    package_name: &str,
    warnings: &mut Vec<CargoInspectionWarning>,
) -> (r: Vec<AmariDependencyEvidence>)
    ensures
        r@.len() == spec_dep_table(table@, bases@, package_name@).0.len(),
        forall|i: int|
            0 <= i < r@.len() ==> evidence_is(
                #[trigger] r@[i],
                spec_dep_table(table@, bases@, package_name@).0[i],
                kind,
                opt_view(*target),
                source@,
            ),
        warning_views(final(warnings)@) == warning_views(old(warnings)@) + spec_dep_table(
            table@,
            bases@,
            package_name@,
        ).1,
{
    let mut deps: Vec<AmariDependencyEvidence> = Vec::new();
    let ghost w0 = warning_views(old(warnings)@);
    let mut i: usize = 0;
    while i < table.len()
        invariant
            i <= table@.len(),
            deps@.len() == spec_dep_table(table@.take(i as int), bases@, package_name@).0.len(),
            forall|q: int|
                0 <= q < deps@.len() ==> evidence_is(
                    #[trigger] deps@[q],
                    spec_dep_table(table@.take(i as int), bases@, package_name@).0[q],
                    kind,
                    opt_view(*target),
                    source@,
                ),
            warning_views(warnings@) == w0 + spec_dep_table(table@.take(i as int), bases@, package_name@).1,
        decreases table@.len() - i,
    {
        proof {
            assert(table@.take(i + 1).drop_last() =~= table@.take(i as int));
            assert(table@.take(i + 1).last() == table@[i as int]);
        }
        let ghost prev = spec_dep_table(table@.take(i as int), bases@, package_name@);
        let ghost before = deps@;
        let ghost wb = warning_views(warnings@);
        let e = dep_entry(
            &table[i].0,
            &table[i].1,
            kind,
            target,
            source,
            bases,
            package_name,
            warnings,
        );
        proof {
            assert(warning_views(warnings@) =~= w0 + spec_dep_table(table@.take(i + 1), bases@, package_name@).1);
        }
        match e {
            Some(x) => {
                deps.push(x);
                proof {
                    let cur = spec_dep_table(table@.take(i + 1), bases@, package_name@).0;
                    assert forall|q: int| 0 <= q < deps@.len() implies evidence_is(
                        #[trigger] deps@[q],
                        cur[q],
                        kind,
                        opt_view(*target),
                        source@,
                    ) by {
                        if q < before.len() {
                            assert(deps@[q] == before[q]);
                            assert(cur[q] == prev.0[q]);
                        }
                    }
                }
            },
            None => {},
        }
        i += 1;
    }
    assert(table@.take(table@.len() as int) =~= table@);
    deps
}

// ---------------------------------------------------------------------------
// Dependency records and system dependencies
// ---------------------------------------------------------------------------

/// The canonical package of a dependency entry: through the workspace base
/// (never a member `package` override) for `workspace = true`, otherwise the
/// entry's `package` rename, else the alias.
pub open spec fn record_package(alias: Seq<char>, raw: TomlValue, bases: Seq<(String, WorkspaceDependencyBase)>) -> Seq<char> {
    if dep_bool(raw, "workspace"@) == Some(true) {
        match base_lookup(bases, alias) {
            Some(b) => match b.package {
                Some(p) => p@,
                None => alias,
            },
            None => alias,
        }
    } else {
        match dep_string(raw, "package"@) {
            Some(p) => p,
            None => alias,
        }
    }
}

/// Whether `r` records the dependency `alias` with package `pkg`.
pub open spec fn record_is(
    r: CargoDependencyRecord,
    alias: Seq<char>,
    pkg: Seq<char>,
    kind: DependencyKind,
    target: Option<Seq<char>>,
    src: (Seq<char>, Option<usize>, Seq<char>, u64),
) -> bool {
    r.alias@ == alias && r.package@ == pkg && r.kind == kind && opt_view(r.target) == target
        && r.source@ == src
}

/// A record of every dependency of a table (Amari or not), in table order.
pub fn collect_dependency_records(
    table: &Vec<(String, TomlValue)>,
    kind: DependencyKind,
    target: &Option<String>,
    source: &ManifestSource,
    bases: &Vec<(String, WorkspaceDependencyBase)>,
) -> (r: Vec<CargoDependencyRecord>)
    ensures
        r@.len() == dep_entries(table@).len(),
        forall|i: int|
            0 <= i < r@.len() ==> record_is(
                #[trigger] r@[i],
                dep_entries(table@)[i].0@,
                record_package(dep_entries(table@)[i].0@, dep_entries(table@)[i].1, bases@),
                kind,
                opt_view(*target),
                source@,
            ),
{
    let mut out: Vec<CargoDependencyRecord> = Vec::new();
    let mut i: usize = 0;
    while i < table.len()
        invariant
            i <= table@.len(),
            out@.len() == dep_entries(table@.take(i as int)).len(),
            forall|q: int|
                0 <= q < out@.len() ==> record_is(
                    #[trigger] out@[q],
                    dep_entries(table@.take(i as int))[q].0@,
                    record_package(
                        dep_entries(table@.take(i as int))[q].0@,
                        dep_entries(table@.take(i as int))[q].1,
                        bases@,
                    ),
                    kind,
                    opt_view(*target),
                    source@,
                ),
        decreases table@.len() - i,
    {
        proof {
            assert(table@.take(i + 1).drop_last() =~= table@.take(i as int));
            assert(table@.take(i + 1).last() == table@[i as int]);
        }
        let alias = &table[i].0;
        let raw = &table[i].1;
        let keep = match raw {
            TomlValue::String(_) => true,
            TomlValue::Table(_, _) => true,
            _ => false,
        };
        let ghost before = out@;
        let ghost prev_entries = dep_entries(table@.take(i as int));
        if keep {
            let package = if dep_get_bool(raw, "workspace") == Some(true) {
                match find_base(bases, alias.as_str()) {
                    Some(b) => match &b.package {
                        Some(p) => p.clone(),
                        None => alias.clone(),
                    },
                    None => alias.clone(),
                }
            } else {
                match dep_get_string(raw, "package") {
                    Some(p) => p,
                    None => alias.clone(),
                }
            };
            out.push(
                CargoDependencyRecord {
                    alias: alias.clone(),
                    package,
                    kind,
                    target: clone_opt(target),
                    source: source.clone(),
                },
            );
            proof {
                let e = dep_entries(table@.take(i + 1));
                assert(e =~= prev_entries.push(table@[i as int]));
                assert forall|q: int| 0 <= q < out@.len() implies record_is(
                    #[trigger] out@[q],
                    e[q].0@,
                    record_package(e[q].0@, e[q].1, bases@),
                    kind,
                    opt_view(*target),
                    source@,
                ) by {
                    if q < before.len() {
                        assert(out@[q] == before[q]);
                        assert(e[q] == prev_entries[q]);
                    }
                }
            }
        } else {
            assert(dep_entries(table@.take(i + 1)) =~= prev_entries);
        }
        i += 1;
    }
    assert(table@.take(table@.len() as int) =~= table@);
    out
}

/// The system-dependency signal of one entry: by its package, else by its
/// alias; `(alias, package, kind)`.
pub open spec fn system_signal(alias: Seq<char>, raw: TomlValue) -> Option<(Seq<char>, Seq<char>, SystemDependencyKind)> {
    if !is_dep_value(raw) {
        None
    } else {
        let pkg = match dep_string(raw, "package"@) {
            Some(p) => p,
            None => alias,
        };
        match spec_system_dep_kind(pkg) {
            Some(k) => Some((alias, pkg, k)),
            None => match spec_system_dep_kind(alias) {
                Some(k) => Some((alias, alias, k)),
                None => None,
            },
        }
    }
}

/// The system-dependency signals of a table, in order.
pub open spec fn system_signals(t: Seq<(String, TomlValue)>) -> Seq<(Seq<char>, Seq<char>, SystemDependencyKind)>
    decreases t.len(),
{
    if t.len() == 0 {
        seq![]
    } else {
        system_signals(t.drop_last()) + match system_signal(t.last().0@, t.last().1) {
            Some(x) => seq![x],
            None => seq![],
        }
    }
}

/// Whether `s` is the signal `sig` found in a table of kind `kind`.
pub open spec fn signal_is(
    s: SystemDependencySignal,
    sig: (Seq<char>, Seq<char>, SystemDependencyKind),
    kind: DependencyKind,
    target: Option<Seq<char>>,
    src: (Seq<char>, Option<usize>, Seq<char>, u64),
) -> bool {
    s.alias@ == sig.0 && s.package@ == sig.1 && s.system_kind == sig.2 && s.dependency_kind == kind
        && opt_view(s.target) == target && s.manifest_source@ == src
}

/// Scans a dependency table for known native-build helper packages.
pub fn scan_system_deps(
    table: &Vec<(String, TomlValue)>,
    kind: DependencyKind,
    target: &Option<String>,
    source: &ManifestSource,
) -> (r: Vec<SystemDependencySignal>)
    ensures
        r@.len() == system_signals(table@).len(),
        forall|i: int|
            0 <= i < r@.len() ==> signal_is(
                #[trigger] r@[i],
                system_signals(table@)[i],
                kind,
                opt_view(*target),
                source@,
            ),
{
    let mut out: Vec<SystemDependencySignal> = Vec::new();
    let mut i: usize = 0;
    while i < table.len()
        invariant
            i <= table@.len(),
            out@.len() == system_signals(table@.take(i as int)).len(),
            forall|q: int|
                0 <= q < out@.len() ==> signal_is(
                    #[trigger] out@[q],
                    system_signals(table@.take(i as int))[q],
                    kind,
                    opt_view(*target),
                    source@,
                ),
        decreases table@.len() - i,
    {
        proof {
            assert(table@.take(i + 1).drop_last() =~= table@.take(i as int));
            assert(table@.take(i + 1).last() == table@[i as int]);
        }
        let alias = &table[i].0;
        let raw = &table[i].1;
        let ghost before = out@;
        let ghost prev = system_signals(table@.take(i as int));
        let keep = match raw {
            TomlValue::String(_) => true,
            TomlValue::Table(_, _) => true,
            _ => false,
        };
        let mut found: Option<(String, SystemDependencyKind)> = None;
        if keep {
            let pkg = match dep_get_string(raw, "package") {
                Some(p) => p,
                None => alias.clone(),
            };
            match system_dep_kind(pkg.as_str()) {
                Some(k) => {
                    found = Some((pkg, k));
                },
                None => match system_dep_kind(alias.as_str()) {
                    Some(k) => {
                        found = Some((alias.clone(), k));
                    },
                    None => {},
                },
            }
        }
        match found {
            Some((package, system_kind)) => {
                out.push(
                    SystemDependencySignal {
                        alias: alias.clone(),
                        package,
                        dependency_kind: kind,
                        system_kind,
                        target: clone_opt(target),
                        manifest_source: source.clone(),
                    },
                );
                proof {
                    let e = system_signals(table@.take(i + 1));
                    assert forall|q: int| 0 <= q < out@.len() implies signal_is(
                        #[trigger] out@[q],
                        e[q],
                        kind,
                        opt_view(*target),
                        source@,
                    ) by {
                        if q < before.len() {
                            assert(out@[q] == before[q]);
                            assert(e[q] == prev[q]);
                        }
                    }
                }
            },
            None => {
                assert(system_signals(table@.take(i + 1)) =~= prev);
            },
        }
        i += 1;
    }
    assert(table@.take(table@.len() as int) =~= table@);
    out
}

// ---------------------------------------------------------------------------
// Bench paths
// ---------------------------------------------------------------------------

/// A path separator (either platform form).
pub open spec fn is_sep(c: char) -> bool {
    c == '/' || c == '\\'
}

/// Whether `p[i..j]` is one component: bounded by separators or the ends,
/// with no separator inside.
pub open spec fn is_component(p: Seq<char>, i: int, j: int) -> bool {
    &&& 0 <= i <= j <= p.len()
    &&& i == 0 || is_sep(p[i - 1])
    &&& j == p.len() || is_sep(p[j])
    &&& forall|k: int| i <= k < j ==> !is_sep(#[trigger] p[k])
}

/// A component that is not empty, `.`, or `..`, and holds no NUL.
pub open spec fn good_component(c: Seq<char>) -> bool {
    c.len() > 0 && c != "."@ && c != ".."@ && !c.contains('\0')
}

/// Whether `p` is a normalized package-relative path: not absolute, no
/// drive prefix, and every component good.
pub open spec fn spec_is_normal_relative_path(p: Seq<char>) -> bool {
    &&& p.len() > 0
    &&& !is_sep(p[0])
    &&& !(p.len() >= 2 && (('a' <= p[0] && p[0] <= 'z') || ('A' <= p[0] && p[0] <= 'Z')) && p[1] == ':')
    &&& forall|i: int, j: int| #[trigger] is_component(p, i, j) ==> good_component(p.subrange(i, j))
}

/// Whether the component `c` is good.
fn is_good_component(c: &[char]) -> (r: bool)
    ensures
        r == good_component(c@),
{
    if c.len() == 0 {
        return false;
    }
    let dot = chars_of(".");
    let dotdot = chars_of("..");
    !chars_eq(c, dot.as_slice()) && !chars_eq(c, dotdot.as_slice()) && !chars_contain(c, '\0')
}

/// Whether `path` is a normalized package-relative path.
pub fn is_normal_relative_path(path: &str) -> (r: bool)
    ensures
        r == spec_is_normal_relative_path(path@),
{
    let p = chars_of(path);
    let n = p.len();
    if n == 0 || p[0] == '/' || p[0] == '\\' {
        return false;
    }
    if n >= 2 && (('a' <= p[0] && p[0] <= 'z') || ('A' <= p[0] && p[0] <= 'Z')) && p[1] == ':' {
        return false;
    }
    let mut start: usize = 0;
    let mut k: usize = 0;
    while k < n
        invariant
            n == p@.len(),
            p@ == path@,
            start <= k <= n,
            start == 0 || is_sep(p@[start - 1]),
            forall|q: int| start <= q < k ==> !is_sep(#[trigger] p@[q]),
            forall|i: int, j: int|
                #[trigger] is_component(p@, i, j) && j < k ==> good_component(p@.subrange(i, j)),
        decreases n - k,
    {
        if p[k] == '/' || p[k] == '\\' {
            let c = subrange_vec(p.as_slice(), start, k);
            if !is_good_component(c.as_slice()) {
                assert(is_component(p@, start as int, k as int));
                return false;
            }
            proof {
                assert forall|i: int, j: int| #[trigger] is_component(p@, i, j) && j < k + 1 implies good_component(
                    p@.subrange(i, j),
                ) by {
                    if j == k {
                        if i < start {
                            assert(!is_sep(p@[start - 1]));
                        }
                        if i > start {
                            assert(!is_sep(p@[i - 1]));
                        }
                    }
                }
            }
            start = k + 1;
        }
        k += 1;
    }
    let c = subrange_vec(p.as_slice(), start, n);
    let ok = is_good_component(c.as_slice());
    proof {
        if ok {
            assert forall|i: int, j: int| #[trigger] is_component(p@, i, j) implies good_component(
                p@.subrange(i, j),
            ) by {
                if j == n {
                    if i < start {
                        assert(!is_sep(p@[start - 1]));
                    }
                    if i > start {
                        assert(!is_sep(p@[i - 1]));
                    }
                }
            }
        } else {
            assert(is_component(p@, start as int, n as int));
        }
    }
    ok
}

/// `s` with every backslash replaced by `/`.
pub open spec fn forward_slashes(s: Seq<char>) -> Seq<char> {
    s.map_values(|c: char| if c == '\\' { '/' } else { c })
}

/// `s` with every backslash replaced by `/`.
fn to_forward_slashes(s: &str) -> (r: String)
    ensures
        r@ == forward_slashes(s@),
{
    let cs = chars_of(s);
    let mut out = String::new();
    let mut i: usize = 0;
    while i < cs.len()
        invariant
            i <= cs@.len(),
            cs@ == s@,
            out@ == forward_slashes(cs@.take(i as int)),
        decreases cs@.len() - i,
    {
        let c = if cs[i] == '\\' {
            '/'
        } else {
            cs[i]
        };
        push_char(&mut out, c);
        assert(forward_slashes(cs@.take(i + 1)) =~= forward_slashes(cs@.take(i as int)).push(c));
        i += 1;
    }
    assert(cs@.take(cs@.len() as int) =~= cs@);
    out
}

// ---------------------------------------------------------------------------
// Benches
// ---------------------------------------------------------------------------

/// A declared bench: name, normalized path, harness, required features.
pub type BenchV = (Seq<char>, Seq<char>, bool, Seq<Seq<char>>);

/// What one `[[bench]]` entry of package `pkg` contributes.
pub open spec fn bench_entry(v: TomlValue, pkg: Seq<char>) -> (Option<BenchV>, Seq<CargoWarningV>) {
    match v {
        TomlValue::Table(t, _) => match spec_toml_string(t@, "name"@) {
            None => (None, seq![]),
            Some(name) => {
                let path = match spec_toml_string(t@, "path"@) {
                    Some(p) => p,
                    None => "benches/"@ + name + ".rs"@,
                };
                if !spec_is_normal_relative_path(path) {
                    (None, seq![CargoWarningV::InvalidBenchPath(name, pkg)])
                } else {
                    (
                        Some(
                            (
                                name,
                                forward_slashes(path),
                                match spec_toml_bool(t@, "harness"@) {
                                    Some(h) => h,
                                    None => true,
                                },
                                sorted_dedup(
                                    match spec_toml_strings_opt(t@, "required-features"@) {
                                        Some(w) => w,
                                        None => seq![],
                                    },
                                ),
                            ),
                        ),
                        seq![],
                    )
                }
            },
        },
        _ => (None, seq![]),
    }
}

/// The benches and warnings of a list of `[[bench]]` entries.
pub open spec fn bench_entries(a: Seq<TomlValue>, pkg: Seq<char>) -> (Seq<BenchV>, Seq<CargoWarningV>)
    decreases a.len(),
{
    if a.len() == 0 {
        (seq![], seq![])
    } else {
        let (b, w) = bench_entries(a.drop_last(), pkg);
        let (e, ew) = bench_entry(a.last(), pkg);
        (
            match e {
                Some(x) => b.push(x),
                None => b,
            },
            w + ew,
        )
    }
}

/// The `[[bench]]` entries of a manifest.
pub open spec fn bench_array(manifest: Seq<(String, TomlValue)>) -> Seq<TomlValue> {
    match lookup(manifest, "bench"@) {
        Some(TomlValue::Array(a, _)) => a@,
        _ => seq![],
    }
}

/// Whether `b` is the bench `v` sourced from `src`.
pub open spec fn bench_is(b: CargoBench, v: BenchV, src: (Seq<char>, Option<usize>, Seq<char>, u64)) -> bool {
    b.name@ == v.0 && b.path@ == v.1 && b.harness == v.2 && views(b.required_features@) == v.3
        && b.manifest_source@ == src
}

/// One bench entry.
fn bench_of(
    v: &TomlValue,
    source: &ManifestSource,
    pkg_name: &str,
    warnings: &mut Vec<CargoInspectionWarning>,
) -> (r: Option<CargoBench>)
    ensures
        match (r, bench_entry(*v, pkg_name@).0) {
            (Some(b), Some(x)) => bench_is(b, x, source@),
            (None, None) => true,
            _ => false,
        },
        warning_views(final(warnings)@) == warning_views(old(warnings)@) + bench_entry(*v, pkg_name@).1,
{
    let t = match v {
        TomlValue::Table(t, _) => t,
        _ => {
            assert(warning_views(warnings@) =~= warning_views(old(warnings)@) + seq![]);
            return None;
        },
    };
    let name = match toml_string(t, "name") {
        Some(n) => n,
        None => {
            assert(warning_views(warnings@) =~= warning_views(old(warnings)@) + seq![]);
            return None;
        },
    };
    let path = match toml_string(t, "path") {
        Some(p) => p,
        None => {
            let mut p = String::from_str("benches/");
            p.append(name.as_str());
            p.append(".rs");
            p
        },
    };
    if !is_normal_relative_path(path.as_str()) {
        let ghost nv = name@;
        push_warning(
            warnings,
            CargoInspectionWarning::InvalidBenchPath { bench_name: name, package: String::from_str(pkg_name) },
        );
        assert(warning_views(warnings@) =~= warning_views(old(warnings)@) + seq![
            CargoWarningV::InvalidBenchPath(nv, pkg_name@),
        ]);
        return None;
    }
    assert(warning_views(warnings@) =~= warning_views(old(warnings)@) + seq![]);
    let harness = match toml_bool(t, "harness") {
        Some(h) => h,
        None => true,
    };
    Some(
        CargoBench {
            name,
            path: to_forward_slashes(path.as_str()),
            harness,
            required_features: toml_strings_sorted(t, "required-features"),
            manifest_source: source.clone(),
        },
    )
}

/// Parses the `[[bench]]` declarations of a manifest; a bench whose path is
/// not a normalized relative path is omitted with a warning naming only the
/// bench.
pub fn parse_benches(
    manifest: &Vec<(String, TomlValue)>,
    source: &ManifestSource,
    pkg_name: &str,
    warnings: &mut Vec<CargoInspectionWarning>,
) -> (r: Vec<CargoBench>)
    ensures
        r@.len() == bench_entries(bench_array(manifest@), pkg_name@).0.len(),
        forall|i: int|
            0 <= i < r@.len() ==> bench_is(
                #[trigger] r@[i],
                bench_entries(bench_array(manifest@), pkg_name@).0[i],
                source@,
            ),
        warning_views(final(warnings)@) == warning_views(old(warnings)@) + bench_entries(
            bench_array(manifest@),
            pkg_name@,
        ).1,
{
    let mut out: Vec<CargoBench> = Vec::new();
    let a = match get(manifest, "bench") {
        Some(TomlValue::Array(a, _)) => a,
        _ => {
            assert(warning_views(warnings@) =~= warning_views(old(warnings)@) + seq![]);
            return out;
        },
    };
    let ghost w0 = warning_views(old(warnings)@);
    let mut i: usize = 0;
    while i < a.len()
        invariant
            i <= a@.len(),
            a@ == bench_array(manifest@),
            out@.len() == bench_entries(a@.take(i as int), pkg_name@).0.len(),
            forall|q: int|
                0 <= q < out@.len() ==> bench_is(
                    #[trigger] out@[q],
                    bench_entries(a@.take(i as int), pkg_name@).0[q],
                    source@,
                ),
            warning_views(warnings@) == w0 + bench_entries(a@.take(i as int), pkg_name@).1,
        decreases a@.len() - i,
    {
        proof {
            assert(a@.take(i + 1).drop_last() =~= a@.take(i as int));
            assert(a@.take(i + 1).last() == a@[i as int]);
        }
        let ghost before = out@;
        let ghost prev = bench_entries(a@.take(i as int), pkg_name@);
        let b = bench_of(&a[i], source, pkg_name, warnings);
        proof {
            assert(warning_views(warnings@) =~= w0 + bench_entries(a@.take(i + 1), pkg_name@).1);
        }
        match b {
            Some(x) => {
                out.push(x);
                proof {
                    let cur = bench_entries(a@.take(i + 1), pkg_name@).0;
                    assert forall|q: int| 0 <= q < out@.len() implies bench_is(#[trigger] out@[q], cur[q], source@) by {
                        if q < before.len() {
                            assert(out@[q] == before[q]);
                            assert(cur[q] == prev.0[q]);
                        }
                    }
                }
            },
            None => {},
        }
        i += 1;
    }
    assert(a@.take(a@.len() as int) =~= a@);
    out
}

// ---------------------------------------------------------------------------
// Package fields
// ---------------------------------------------------------------------------

/// `[package].links` evidence.
pub fn parse_native_link(package_table: &Vec<(String, TomlValue)>, source: &ManifestSource) -> (r: Option<NativeLink>)
    ensures
        match (r, spec_toml_string(package_table@, "links"@)) {
            (Some(l), Some(k)) => l.links_key@ == k && l.manifest_source@ == source@,
            (None, None) => true,
            _ => false,
        },
{
    match toml_string(package_table, "links") {
        Some(key) => Some(NativeLink { links_key: key, manifest_source: source.clone() }),
        None => None,
    }
}

/// The value of the first field named `key`.
pub open spec fn field_lookup(f: Seq<(String, String)>, key: Seq<char>) -> Option<Seq<char>>
    decreases f.len(),
{
    if f.len() == 0 {
        None
    } else if f[0].0@ == key {
        Some(f[0].1@)
    } else {
        field_lookup(f.drop_first(), key)
    }
}

/// The value of the first field named `key`.
fn find_field<'a>(f: &'a Vec<(String, String)>, key: &str) -> (r: Option<&'a String>)
    ensures
        match (r, field_lookup(f@, key@)) {
            (Some(a), Some(b)) => a@ == b,
            (None, None) => true,
            _ => false,
        },
{
    let mut i: usize = 0;
    assert(f@.skip(0) =~= f@);
    while i < f.len()
        invariant
            i <= f@.len(),
            field_lookup(f@.skip(i as int), key@) == field_lookup(f@, key@),
        decreases f@.len() - i,
    {
        assert(f@.skip(i as int).drop_first() =~= f@.skip(i + 1));
        if str_eq(f[i].0.as_str(), key) {
            return Some(&f[i].1);
        }
        i += 1;
    }
    None
}

/// The recorded text of one `[workspace.package]` value: a string as is,
/// an array or table as its TOML text; other values are not recorded.
pub open spec fn field_text(v: TomlValue) -> Option<Seq<char>> {
    match v {
        TomlValue::String(s) => Some(s@),
        TomlValue::Array(_, text) => Some(text@),
        TomlValue::Table(_, text) => Some(text@),
        _ => None,
    }
}

/// The recorded fields of a table, in order.
pub open spec fn field_entries(t: Seq<(String, TomlValue)>) -> Seq<(Seq<char>, Seq<char>)>
    decreases t.len(),
{
    if t.len() == 0 {
        seq![]
    } else {
        field_entries(t.drop_last()) + match field_text(t.last().1) {
            Some(x) => seq![(t.last().0@, x)],
            None => seq![],
        }
    }
}

/// Views of recorded fields.
pub open spec fn fields_view(f: Seq<(String, String)>) -> Seq<(Seq<char>, Seq<char>)> {
    f.map_values(|e: (String, String)| (e.0@, e.1@))
}

/// The `[workspace.package]` fields of a `[workspace]` table.
pub fn parse_workspace_package_fields(ws: &Vec<(String, TomlValue)>) -> (r: Vec<(String, String)>)
    ensures
        fields_view(r@) == match spec_table_at(ws@, "package"@) {
            Some(t) => field_entries(t),
            None => seq![],
        },
{
    let mut out: Vec<(String, String)> = Vec::new();
    let t = match table_at(ws, "package") {
        Some(t) => t,
        None => {
            assert(fields_view(out@) =~= seq![]);
            return out;
        },
    };
    let mut i: usize = 0;
    while i < t.len()
        invariant
            i <= t@.len(),
            fields_view(out@) == field_entries(t@.take(i as int)),
        decreases t@.len() - i,
    {
        proof {
            assert(t@.take(i + 1).drop_last() =~= t@.take(i as int));
            assert(t@.take(i + 1).last() == t@[i as int]);
        }
        let text = match &t[i].1 {
            TomlValue::String(s) => Some(s.clone()),
            TomlValue::Array(_, text) => Some(text.clone()),
            TomlValue::Table(_, text) => Some(text.clone()),
            _ => None,
        };
        let ghost prev = out@;
        match text {
            Some(x) => {
                out.push((t[i].0.clone(), x));
                assert(fields_view(out@) =~= fields_view(prev).push((t@[i as int].0@, field_text(t@[i as int].1).unwrap())));
            },
            None => {},
        }
        i += 1;
    }
    assert(t@.take(t@.len() as int) =~= t@);
    out
}

/// The package version: a string `version`, or the workspace version when
/// inherited (`version.workspace = true`), else `unknown`.
pub open spec fn spec_package_version(pt: Seq<(String, TomlValue)>, fields: Seq<(String, String)>) -> Seq<char> {
    match spec_toml_string(pt, "version"@) {
        Some(v) => v,
        None => match lookup(pt, "version"@) {
            Some(TomlValue::Table(t, _)) => if spec_toml_bool(t@, "workspace"@) == Some(true) {
                match field_lookup(fields, "version"@) {
                    Some(v) => v,
                    None => "unknown"@,
                }
            } else {
                "unknown"@
            },
            _ => "unknown"@,
        },
    }
}

/// A package whose `version` is a string has that version.
pub proof fn lemma_package_version_own(pt: Seq<(String, TomlValue)>, fields: Seq<(String, String)>, s: String)
    requires
        lookup(pt, "version"@) == Some(TomlValue::String(s)),
    ensures
        spec_package_version(pt, fields) == s@,
{
}

/// A package without a `version` key, or whose `version` is neither a string
/// nor a table, has the version `unknown`.
pub proof fn lemma_package_version_missing(pt: Seq<(String, TomlValue)>, fields: Seq<(String, String)>)
    requires
        !(lookup(pt, "version"@) matches Some(TomlValue::String(_))),
        !(lookup(pt, "version"@) matches Some(TomlValue::Table(_, _))),
    ensures
        spec_package_version(pt, fields) == "unknown"@,
{
}

/// A package whose `version` is a table with `workspace = true` takes the
/// workspace package's `version` field, when the workspace has one.
pub proof fn lemma_package_version_inherited(
    pt: Seq<(String, TomlValue)>,
    fields: Seq<(String, String)>,
    t: Vec<(String, TomlValue)>,
    text: String,
    v: Seq<char>,
)
    requires
        lookup(pt, "version"@) == Some(TomlValue::Table(t, text)),
        lookup(t@, "workspace"@) == Some(TomlValue::Boolean(true)),
        field_lookup(fields, "version"@) == Some(v),
    ensures
        spec_package_version(pt, fields) == v,
{
}

/// Resolves the package version.
pub fn resolve_package_version(pt: &Vec<(String, TomlValue)>, fields: &Vec<(String, String)>) -> (r: String)
    ensures
        r@ == spec_package_version(pt@, fields@),
        (lookup(pt@, "version"@) matches Some(TomlValue::Table(t, _)) && lookup(t@, "workspace"@) == Some(
            TomlValue::Boolean(true),
        ) && field_lookup(fields@, "version"@) is Some) ==> r@ == field_lookup(fields@, "version"@)->0,
        (lookup(pt@, "version"@) matches Some(TomlValue::String(s)) && r@ == s@) || !(lookup(
            pt@,
            "version"@,
        ) is Some && lookup(pt@, "version"@)->0 is String),
{
    proof {
        match lookup(pt@, "version"@) {
            Some(TomlValue::Table(t, text)) => {
                if lookup(t@, "workspace"@) == Some(TomlValue::Boolean(true)) && field_lookup(fields@, "version"@) is Some {
                    lemma_package_version_inherited(pt@, fields@, t, text, field_lookup(fields@, "version"@)->0);
                }
            },
            Some(TomlValue::String(s)) => {
                lemma_package_version_own(pt@, fields@, s);
            },
            _ => {},
        }
    }
    if let Some(v) = toml_string(pt, "version") {
        return v;
    }
    if let Some(TomlValue::Table(t, _)) = get(pt, "version") {
        if toml_bool(t, "workspace") == Some(true) {
            return match find_field(fields, "version") {
                Some(v) => v.clone(),
                None => String::from_str("unknown"),
            };
        }
    }
    String::from_str("unknown")
}

/// Package keys a member may inherit from `[workspace.package]`, in check
/// order.
pub open spec fn inheritable_keys() -> Seq<Seq<char>> {
    seq![
        "version"@,
        "authors"@,
        "edition"@,
        "license"@,
        "rust-version"@,
        "description"@,
        "homepage"@,
        "repository"@,
        "documentation"@,
        "readme"@,
        "keywords"@,
        "categories"@,
        "exclude"@,
        "include"@,
    ]
}

/// Whether the package declares `key.workspace = true`.
pub open spec fn inherits(pt: Seq<(String, TomlValue)>, key: Seq<char>) -> bool {
    match lookup(pt, key) {
        Some(TomlValue::Table(t, _)) => spec_toml_bool(t@, "workspace"@) == Some(true),
        _ => false,
    }
}

/// The inherited keys and missing-field warnings among the first `n`
/// inheritable keys.
pub open spec fn inherited_scan(
    pt: Seq<(String, TomlValue)>,
    fields: Seq<(String, String)>,
    pkg: Seq<char>,
    n: int,
) -> (Seq<Seq<char>>, Seq<CargoWarningV>)
    decreases n,
{
    if n <= 0 {
        (seq![], seq![])
    } else {
        let (ks, ws) = inherited_scan(pt, fields, pkg, n - 1);
        let key = inheritable_keys()[n - 1];
        if inherits(pt, key) {
            if field_lookup(fields, key) is Some {
                (ks.push(key), ws)
            } else {
                (ks, ws.push(CargoWarningV::WorkspaceFieldNotFound(key, pkg)))
            }
        } else {
            (ks, ws)
        }
    }
}

/// The package fields inherited from the workspace (sorted), warning for
/// each inherited field the workspace does not declare.
pub fn parse_inherited_metadata(
    pt: &Vec<(String, TomlValue)>,
    fields: &Vec<(String, String)>,
    pkg_name: &str,
    warnings: &mut Vec<CargoInspectionWarning>,
) -> (r: Vec<String>)
    ensures
        views(r@) == sorted_dedup(inherited_scan(pt@, fields@, pkg_name@, 14).0),
        warning_views(final(warnings)@) == warning_views(old(warnings)@) + inherited_scan(
            pt@,
            fields@,
            pkg_name@,
            14,
        ).1,
{
    proof {
        reveal_strlit("version");
    }
    let keys: [&str; 14] = [
        "version",
        "authors",
        "edition",
        "license",
        "rust-version",
        "description",
        "homepage",
        "repository",
        "documentation",
        "readme",
        "keywords",
        "categories",
        "exclude",
        "include",
    ];
    let ghost w0 = warning_views(old(warnings)@);
    let mut inherited: Vec<String> = Vec::new();
    let mut k: usize = 0;
    while k < 14
        invariant
            k <= 14,
            keys@.map_values(|x: &str| x@) =~= inheritable_keys(),
            views(inherited@) == inherited_scan(pt@, fields@, pkg_name@, k as int).0,
            warning_views(warnings@) == w0 + inherited_scan(pt@, fields@, pkg_name@, k as int).1,
        decreases 14 - k,
    {
        let key = keys[k];
        assert(key@ == keys@.map_values(|x: &str| x@)[k as int]);
        let is_inherited = match get(pt, key) {
            Some(TomlValue::Table(t, _)) => toml_bool(t, "workspace") == Some(true),
            _ => false,
        };
        if is_inherited {
            if find_field(fields, key).is_some() {
                let ghost prev = inherited@;
                inherited.push(String::from_str(key));
                assert(views(inherited@) =~= views(prev).push(key@));
            } else {
                let ghost wb = warning_views(warnings@);
                push_warning(
                    warnings,
                    CargoInspectionWarning::WorkspaceFieldNotFound {
                        field: String::from_str(key),
                        package: String::from_str(pkg_name),
                    },
                );
                assert(warning_views(warnings@) =~= w0 + inherited_scan(pt@, fields@, pkg_name@, k + 1).1);
            }
        }
        k += 1;
    }
    sort_dedup_strings(inherited)
}

// ---------------------------------------------------------------------------
// Whole manifests
// ---------------------------------------------------------------------------

/// The dependency table of section `k`: `dependencies`, `dev-dependencies`,
/// `build-dependencies`.
pub open spec fn section_name(k: int) -> Seq<char> {
    if k == 0 {
        "dependencies"@
    } else if k == 1 {
        "dev-dependencies"@
    } else {
        "build-dependencies"@
    }
}

/// The dependency kind of section `k`.
pub open spec fn section_kind(k: int) -> DependencyKind {
    if k == 0 {
        DependencyKind::Normal
    } else if k == 1 {
        DependencyKind::Dev
    } else {
        DependencyKind::Build
    }
}

/// An Amari dependency with its table kind and target selector.
pub type TaggedDep = (DepSpecV, DependencyKind, Option<Seq<char>>);

/// A system-dependency signal with its table kind and target selector.
pub type TaggedSys = ((Seq<char>, Seq<char>, SystemDependencyKind), DependencyKind, Option<Seq<char>>);

/// A dependency record: alias, package, table kind, target selector.
pub type TaggedRec = (Seq<char>, Seq<char>, DependencyKind, Option<Seq<char>>);

/// Everything the dependency tables of a manifest contribute, in scan
/// order, with the warnings.
pub type ScanV = (Seq<TaggedDep>, Seq<TaggedSys>, Seq<TaggedRec>, Seq<CargoWarningV>);

/// Two scans, one after the other.
pub open spec fn cat_scan(a: ScanV, b: ScanV) -> ScanV {
    (a.0 + b.0, a.1 + b.1, a.2 + b.2, a.3 + b.3)
}

/// The empty scan.
pub open spec fn empty_scan() -> ScanV {
    (seq![], seq![], seq![], seq![])
}

/// What one dependency table contributes.
pub open spec fn table_scan(
    t: Seq<(String, TomlValue)>,
    bases: Seq<(String, WorkspaceDependencyBase)>,
    pkg: Seq<char>,
    kind: DependencyKind,
    target: Option<Seq<char>>,
) -> ScanV {
    (
        spec_dep_table(t, bases, pkg).0.map_values(|d: DepSpecV| (d, kind, target)),
        system_signals(t).map_values(|x: (Seq<char>, Seq<char>, SystemDependencyKind)| (x, kind, target)),
        dep_entries(t).map_values(|e: (String, TomlValue)| (e.0@, record_package(e.0@, e.1, bases), kind, target)),
        spec_dep_table(t, bases, pkg).1,
    )
}

/// What the first `k` dependency sections of a table contribute.
pub open spec fn container_scan(
    c: Seq<(String, TomlValue)>,
    bases: Seq<(String, WorkspaceDependencyBase)>,
    pkg: Seq<char>,
    target: Option<Seq<char>>,
    k: int,
) -> ScanV
    decreases k,
{
    if k <= 0 {
        empty_scan()
    } else {
        let prev = container_scan(c, bases, pkg, target, k - 1);
        match spec_table_at(c, section_name(k - 1)) {
            Some(t) => cat_scan(prev, table_scan(t, bases, pkg, section_kind(k - 1), target)),
            None => prev,
        }
    }
}

/// What the `[target.<selector>]` tables contribute, selector by selector.
pub open spec fn targets_scan(
    tt: Seq<(String, TomlValue)>,
    bases: Seq<(String, WorkspaceDependencyBase)>,
    pkg: Seq<char>,
) -> ScanV
    decreases tt.len(),
{
    if tt.len() == 0 {
        empty_scan()
    } else {
        let prev = targets_scan(tt.drop_last(), bases, pkg);
        match tt.last().1 {
            TomlValue::Table(ct, _) => cat_scan(
                prev,
                container_scan(
                    ct@,
                    bases,
                    pkg,
                    Some(crate::inspect::cargo_config::target_key::trim_matches(tt.last().0@, '\'')),
                    3,
                ),
            ),
            _ => prev,
        }
    }
}

/// What all dependency tables of a manifest contribute.
pub open spec fn manifest_scan(
    m: Seq<(String, TomlValue)>,
    bases: Seq<(String, WorkspaceDependencyBase)>,
    pkg: Seq<char>,
) -> ScanV {
    cat_scan(
        container_scan(m, bases, pkg, None, 3),
        match spec_table_at(m, "target"@) {
            Some(tt) => targets_scan(tt, bases, pkg),
            None => empty_scan(),
        },
    )
}

/// Sort keys of Amari dependencies: package, alias, kind.
pub open spec fn dep_keys(d: Seq<TaggedDep>) -> Seq<SortKeyV> {
    d.map_values(|x: TaggedDep| (x.0.1, x.0.0, x.1.spec_rank() as int, None::<Seq<char>>))
}

/// Sort keys of system signals: package, alias, kind.
pub open spec fn sys_keys(d: Seq<TaggedSys>) -> Seq<SortKeyV> {
    d.map_values(|x: TaggedSys| (x.0.1, x.0.0, x.1.spec_rank() as int, None::<Seq<char>>))
}

/// Sort keys of dependency records: package, alias, kind, target.
pub open spec fn rec_keys(d: Seq<TaggedRec>) -> Seq<SortKeyV> {
    d.map_values(|x: TaggedRec| (x.1, x.0, x.2.spec_rank() as int, x.3))
}

/// Appends `b` to `a`.
fn append_all<T>(a: &mut Vec<T>, b: Vec<T>)
    ensures
        final(a)@ == old(a)@ + b@,
{
    let mut b = b;
    let ghost orig = b@;
    let ghost start = a@;
    let total = b.len();
    let mut i: usize = 0;
    while b.len() > 0
        invariant
            b@ == orig.skip(i as int),
            a@ == start + orig.take(i as int),
            i <= orig.len(),
            total == orig.len(),
        decreases b@.len(),
    {
        let x = b.remove(0);
        a.push(x);
        assert(orig.take(i + 1) =~= orig.take(i as int).push(orig[i as int]));
        assert(b@ =~= orig.skip(i + 1));
        i += 1;
    }
    assert(orig.take(orig.len() as int) =~= orig);
}

/// The collected (unsorted) evidence of a manifest.
pub struct Collected {
    /// Amari dependencies.
    pub deps: Vec<AmariDependencyEvidence>,
    /// System-dependency signals.
    pub sys: Vec<SystemDependencySignal>,
    /// Dependency records.
    pub recs: Vec<CargoDependencyRecord>,
}

/// Whether `c` holds exactly the scan `sc`, sourced from `src`.
pub open spec fn collected_is(c: Collected, sc: ScanV, src: (Seq<char>, Option<usize>, Seq<char>, u64)) -> bool {
    &&& c.deps@.len() == sc.0.len()
    &&& forall|i: int| 0 <= i < c.deps@.len() ==> evidence_is(#[trigger] c.deps@[i], sc.0[i].0, sc.0[i].1, sc.0[i].2, src)
    &&& c.sys@.len() == sc.1.len()
    &&& forall|i: int| 0 <= i < c.sys@.len() ==> signal_is(#[trigger] c.sys@[i], sc.1[i].0, sc.1[i].1, sc.1[i].2, src)
    &&& c.recs@.len() == sc.2.len()
    &&& forall|i: int| 0 <= i < c.recs@.len() ==> record_is(#[trigger] c.recs@[i], sc.2[i].0, sc.2[i].1, sc.2[i].2, sc.2[i].3, src)
}

proof fn lemma_collected_cat(c: Collected, a: ScanV, d: Collected, b: ScanV, e: Collected, src: (Seq<char>, Option<usize>, Seq<char>, u64))
    requires
        collected_is(c, a, src),
        collected_is(d, b, src),
        e.deps@ == c.deps@ + d.deps@,
        e.sys@ == c.sys@ + d.sys@,
        e.recs@ == c.recs@ + d.recs@,
    ensures
        collected_is(e, cat_scan(a, b), src),
{
    let s = cat_scan(a, b);
    assert forall|i: int| 0 <= i < e.deps@.len() implies evidence_is(#[trigger] e.deps@[i], s.0[i].0, s.0[i].1, s.0[i].2, src) by {
        if i < c.deps@.len() {
            assert(e.deps@[i] == c.deps@[i]);
        } else {
            assert(e.deps@[i] == d.deps@[i - c.deps@.len()]);
        }
    }
    assert forall|i: int| 0 <= i < e.sys@.len() implies signal_is(#[trigger] e.sys@[i], s.1[i].0, s.1[i].1, s.1[i].2, src) by {
        if i < c.sys@.len() {
            assert(e.sys@[i] == c.sys@[i]);
        } else {
            assert(e.sys@[i] == d.sys@[i - c.sys@.len()]);
        }
    }
    assert forall|i: int| 0 <= i < e.recs@.len() implies record_is(#[trigger] e.recs@[i], s.2[i].0, s.2[i].1, s.2[i].2, s.2[i].3, src) by {
        if i < c.recs@.len() {
            assert(e.recs@[i] == c.recs@[i]);
        } else {
            assert(e.recs@[i] == d.recs@[i - c.recs@.len()]);
        }
    }
}

/// Merges `b` into `a`.
fn merge_collected(a: &mut Collected, b: Collected)
    ensures
        final(a).deps@ == old(a).deps@ + b.deps@,
        final(a).sys@ == old(a).sys@ + b.sys@,
        final(a).recs@ == old(a).recs@ + b.recs@,
{
    append_all(&mut a.deps, b.deps);
    append_all(&mut a.sys, b.sys);
    append_all(&mut a.recs, b.recs);
}

/// What one dependency table contributes.
fn scan_table(
    t: &Vec<(String, TomlValue)>,
    kind: DependencyKind,
    target: &Option<String>,
    source: &ManifestSource,
    bases: &Vec<(String, WorkspaceDependencyBase)>,
    pkg: &str,
    warnings: &mut Vec<CargoInspectionWarning>,
) -> (r: Collected)
    ensures
        collected_is(r, table_scan(t@, bases@, pkg@, kind, opt_view(*target)), source@),
        warning_views(final(warnings)@) == warning_views(old(warnings)@) + table_scan(t@, bases@, pkg@, kind, opt_view(*target)).3,
{
    let deps = parse_dep_table(t, kind, target, source, bases, pkg, warnings);
    let sys = scan_system_deps(t, kind, target, source);
    let recs = collect_dependency_records(t, kind, target, source, bases);
    Collected { deps, sys, recs }
}

/// What the three dependency sections of a table contribute.
fn scan_container(
    c: &Vec<(String, TomlValue)>,
    target: &Option<String>,
    source: &ManifestSource,
    bases: &Vec<(String, WorkspaceDependencyBase)>,
    pkg: &str,
    warnings: &mut Vec<CargoInspectionWarning>,
) -> (r: Collected)
    ensures
        collected_is(r, container_scan(c@, bases@, pkg@, opt_view(*target), 3), source@),
        warning_views(final(warnings)@) == warning_views(old(warnings)@) + container_scan(c@, bases@, pkg@, opt_view(*target), 3).3,
{
    proof {
        reveal_strlit("dependencies");
    }
    let names: [&str; 3] = ["dependencies", "dev-dependencies", "build-dependencies"];
    let kinds: [DependencyKind; 3] = [DependencyKind::Normal, DependencyKind::Dev, DependencyKind::Build];
    let mut acc = Collected { deps: Vec::new(), sys: Vec::new(), recs: Vec::new() };
    let ghost w0 = warning_views(old(warnings)@);
    let mut k: usize = 0;
    while k < 3
        invariant
            k <= 3,
            names@.map_values(|x: &str| x@) =~= seq![section_name(0), section_name(1), section_name(2)],
            kinds@ =~= seq![section_kind(0), section_kind(1), section_kind(2)],
            collected_is(acc, container_scan(c@, bases@, pkg@, opt_view(*target), k as int), source@),
            warning_views(warnings@) == w0 + container_scan(c@, bases@, pkg@, opt_view(*target), k as int).3,
        decreases 3 - k,
    {
        let name = names[k];
        let kind = kinds[k];
        assert(name@ == names@.map_values(|x: &str| x@)[k as int]);
        let ghost prev = container_scan(c@, bases@, pkg@, opt_view(*target), k as int);
        match table_at(c, name) {
            Some(t) => {
                let part = scan_table(t, kind, target, source, bases, pkg, warnings);
                let ghost accb = acc;
                let ghost partg = part;
                merge_collected(&mut acc, part);
                proof {
                    lemma_collected_cat(accb, prev, partg, table_scan(t@, bases@, pkg@, kind, opt_view(*target)), acc, source@);
                }
            },
            None => {},
        }
        k += 1;
    }
    acc
}

/// What the `[target.<selector>]` tables contribute.
fn scan_targets(
    tt: &Vec<(String, TomlValue)>,
    source: &ManifestSource,
    bases: &Vec<(String, WorkspaceDependencyBase)>,
    pkg: &str,
    warnings: &mut Vec<CargoInspectionWarning>,
) -> (r: Collected)
    ensures
        collected_is(r, targets_scan(tt@, bases@, pkg@), source@),
        warning_views(final(warnings)@) == warning_views(old(warnings)@) + targets_scan(tt@, bases@, pkg@).3,
{
    let mut acc = Collected { deps: Vec::new(), sys: Vec::new(), recs: Vec::new() };
    let ghost w0 = warning_views(old(warnings)@);
    let mut i: usize = 0;
    while i < tt.len()
        invariant
            i <= tt@.len(),
            collected_is(acc, targets_scan(tt@.take(i as int), bases@, pkg@), source@),
            warning_views(warnings@) == w0 + targets_scan(tt@.take(i as int), bases@, pkg@).3,
        decreases tt@.len() - i,
    {
        proof {
            assert(tt@.take(i + 1).drop_last() =~= tt@.take(i as int));
            assert(tt@.take(i + 1).last() == tt@[i as int]);
        }
        let ghost prev = targets_scan(tt@.take(i as int), bases@, pkg@);
        if let TomlValue::Table(ct, _) = &tt[i].1 {
            let cs = chars_of(tt[i].0.as_str());
            let trimmed = crate::inspect::cargo_config::target_key::trim_matches_chars(cs.as_slice(), '\'');
            let target = Some(string_of(trimmed.as_slice()));
            let part = scan_container(ct, &target, source, bases, pkg, warnings);
            let ghost accb = acc;
            let ghost partg = part;
            merge_collected(&mut acc, part);
            proof {
                lemma_collected_cat(
                    accb,
                    prev,
                    partg,
                    container_scan(ct@, bases@, pkg@, opt_view(target), 3),
                    acc,
                    source@,
                );
            }
        }
        i += 1;
    }
    assert(tt@.take(tt@.len() as int) =~= tt@);
    acc
}

/// Whether `r` is `items` reordered by `order`, each element related to its
/// original by equality.
pub open spec fn reordered<T>(r: Seq<T>, items: Seq<T>, order: Seq<int>) -> bool {
    r == order.map_values(|i: int| items[i])
}

/// A parsed manifest.
pub struct ParsedManifest {
    /// The package.
    pub package: CargoPackage,
    /// Workspace metadata, for a root manifest declaring `[workspace]`.
    pub ws_meta: Option<WorkspaceMeta>,
    /// Whether the manifest declares a `[workspace]` table.
    pub declares_workspace: bool,
}

/// Whether `p` is the package a manifest declares, given the collected
/// evidence `c` of its dependency tables.
pub open spec fn package_is(
    p: CargoPackage,
    m: Seq<(String, TomlValue)>,
    pt: Seq<(String, TomlValue)>,
    path: Seq<char>,
    bases: Seq<(String, WorkspaceDependencyBase)>,
    fields: Seq<(String, String)>,
    src: (Seq<char>, Option<usize>, Seq<char>, u64),
    c: Collected,
) -> bool {
    let name = match spec_toml_string(pt, "name"@) {
        Some(n) => n,
        None => "unknown"@,
    };
    let sc = manifest_scan(m, bases, name);
    &&& p.name@ == name
    &&& p.version@ == spec_package_version(pt, fields)
    &&& p.manifest_path@ == path
    &&& views(p.inherited_metadata@) == sorted_dedup(inherited_scan(pt, fields, name, 14).0)
    &&& match (p.native_link, spec_toml_string(pt, "links"@)) {
        (Some(l), Some(k)) => l.links_key@ == k && l.manifest_source@ == src,
        (None, None) => true,
        _ => false,
    }
    &&& p.benches@.len() == bench_entries(bench_array(m), name).0.len()
    &&& forall|i: int| 0 <= i < p.benches@.len() ==> bench_is(#[trigger] p.benches@[i], bench_entries(bench_array(m), name).0[i], src)
    &&& p.autobenches == spec_toml_bool(pt, "autobenches"@)
    &&& collected_is(c, sc, src)
    &&& reordered(p.dependencies@, c.deps@, sorted_by_key(dep_keys(sc.0), sc.0.len() as int))
    &&& reordered(p.system_dependencies@, c.sys@, sorted_by_key(sys_keys(sc.1), sc.1.len() as int))
    &&& reordered(p.dependency_records@, c.recs@, sorted_by_key(rec_keys(sc.2), sc.2.len() as int))
}

/// The warnings parsing a manifest produces, in order.
pub open spec fn manifest_warnings(
    m: Seq<(String, TomlValue)>,
    pt: Seq<(String, TomlValue)>,
    bases: Seq<(String, WorkspaceDependencyBase)>,
    fields: Seq<(String, String)>,
) -> Seq<CargoWarningV> {
    let name = match spec_toml_string(pt, "name"@) {
        Some(n) => n,
        None => "unknown"@,
    };
    inherited_scan(pt, fields, name, 14).1 + bench_entries(bench_array(m), name).1 + manifest_scan(
        m,
        bases,
        name,
    ).3
}

/// Whether `meta` is the workspace metadata of a `[workspace]` table.
pub open spec fn ws_meta_is(meta: WorkspaceMeta, ws: Seq<(String, TomlValue)>) -> bool {
    &&& views(meta.members@) == match spec_toml_strings_opt(ws, "members"@) {
        Some(w) => w,
        None => seq![],
    }
    &&& bases_of(meta.dependency_bases@, ws)
    &&& fields_view(meta.package_fields@) == match spec_table_at(ws, "package"@) {
        Some(t) => field_entries(t),
        None => seq![],
    }
}

/// Sort keys of collected Amari dependencies.
fn dep_sort_keys(v: &Vec<AmariDependencyEvidence>) -> (r: Vec<SortKey>)
    ensures
        r@.len() == v@.len(),
        forall|i: int|
            0 <= i < v@.len() ==> sort_key_view(#[trigger] r@[i]) == (
                v@[i].package_name@,
                v@[i].alias@,
                v@[i].kind.spec_rank() as int,
                None::<Seq<char>>,
            ),
{
    let mut out: Vec<SortKey> = Vec::new();
    let mut i: usize = 0;
    while i < v.len()
        invariant
            i <= v@.len(),
            out@.len() == i,
            forall|q: int|
                0 <= q < i ==> sort_key_view(#[trigger] out@[q]) == (
                    v@[q].package_name@,
                    v@[q].alias@,
                    v@[q].kind.spec_rank() as int,
                    None::<Seq<char>>,
                ),
        decreases v@.len() - i,
    {
        out.push(
            SortKey {
                first: v[i].package_name.clone(),
                second: v[i].alias.clone(),
                rank: v[i].kind.rank(),
                last: None,
            },
        );
        i += 1;
    }
    out
}

/// Sort keys of collected system signals.
fn sys_sort_keys(v: &Vec<SystemDependencySignal>) -> (r: Vec<SortKey>)
    ensures
        r@.len() == v@.len(),
        forall|i: int|
            0 <= i < v@.len() ==> sort_key_view(#[trigger] r@[i]) == (
                v@[i].package@,
                v@[i].alias@,
                v@[i].dependency_kind.spec_rank() as int,
                None::<Seq<char>>,
            ),
{
    let mut out: Vec<SortKey> = Vec::new();
    let mut i: usize = 0;
    while i < v.len()
        invariant
            i <= v@.len(),
            out@.len() == i,
            forall|q: int|
                0 <= q < i ==> sort_key_view(#[trigger] out@[q]) == (
                    v@[q].package@,
                    v@[q].alias@,
                    v@[q].dependency_kind.spec_rank() as int,
                    None::<Seq<char>>,
                ),
        decreases v@.len() - i,
    {
        out.push(
            SortKey {
                first: v[i].package.clone(),
                second: v[i].alias.clone(),
                rank: v[i].dependency_kind.rank(),
                last: None,
            },
        );
        i += 1;
    }
    out
}

/// Sort keys of collected dependency records.
fn rec_sort_keys(v: &Vec<CargoDependencyRecord>) -> (r: Vec<SortKey>)
    ensures
        r@.len() == v@.len(),
        forall|i: int|
            0 <= i < v@.len() ==> sort_key_view(#[trigger] r@[i]) == (
                v@[i].package@,
                v@[i].alias@,
                v@[i].kind.spec_rank() as int,
                opt_view(v@[i].target),
            ),
{
    let mut out: Vec<SortKey> = Vec::new();
    let mut i: usize = 0;
    while i < v.len()
        invariant
            i <= v@.len(),
            out@.len() == i,
            forall|q: int|
                0 <= q < i ==> sort_key_view(#[trigger] out@[q]) == (
                    v@[q].package@,
                    v@[q].alias@,
                    v@[q].kind.spec_rank() as int,
                    opt_view(v@[q].target),
                ),
        decreases v@.len() - i,
    {
        out.push(
            SortKey {
                first: v[i].package.clone(),
                second: v[i].alias.clone(),
                rank: v[i].kind.rank(),
                last: clone_opt(&v[i].target),
            },
        );
        i += 1;
    }
    out
}

/// Whether `r` is what parsing the manifest table `m` gives, the warnings
/// going from `w0` to `w1`: an error naming the path when `[package]` is
/// missing, otherwise the declared package, the warnings of its tables, and
/// (for the root) the `[workspace]` metadata.
pub open spec fn parsed_manifest_is(
    r: DiscoveryResult<ParsedManifest>,
    m: Seq<(String, TomlValue)>,
    source: (Seq<char>, Option<usize>, Seq<char>, u64),
    path: Seq<char>,
    is_root: bool,
    bases: Seq<(String, WorkspaceDependencyBase)>,
    fields: Seq<(String, String)>,
    w0: Seq<CargoWarningV>,
    w1: Seq<CargoWarningV>,
) -> bool {
    &&& spec_table_at(m, "package"@) is None ==> (r matches Err(DiscoveryError::InspectionFailure(msg))
        && msg@ == "missing [package] section in "@ + path && w1 == w0)
    &&& spec_table_at(m, "package"@) matches Some(pt) ==> (r matches Ok(parsed) && (exists|c: Collected|
        package_is(parsed.package, m, pt, path, bases, fields, source, c)) && w1 == w0
        + manifest_warnings(m, pt, bases, fields) && parsed.declares_workspace == (spec_table_at(
        m,
        "workspace"@,
    ) is Some) && match (parsed.ws_meta, is_root, spec_table_at(m, "workspace"@)) {
        (Some(meta), true, Some(ws)) => ws_meta_is(meta, ws),
        (None, false, _) => true,
        (None, true, None) => true,
        _ => false,
    })
}

/// The entries of a parsed TOML document (a document is a table).
pub open spec fn doc_entries(doc: TomlValue) -> Seq<(String, TomlValue)> {
    match doc {
        TomlValue::Table(t, _) => t@,
        _ => seq![],
    }
}

/// The message of a manifest whose TOML does not parse: a stable reason,
/// the path, and the `Debug` renderings of the line and column.
pub open spec fn manifest_error_message(e: TomlError, content: Seq<u8>, path: Seq<char>) -> Seq<char> {
    spec_malformed_reason(e.message@) + " at "@ + path + " line "@ + debug_opt(spec_toml_line_col(e, content).0)
        + " col "@ + debug_opt(spec_toml_line_col(e, content).1)
}

/// Parses one manifest file: its text must be UTF-8 and valid TOML, and its
/// table is then read as [`parse_manifest_from_value`] does, with sources
/// naming `manifest_path` and this content.
///
/// # Errors
///
/// Returns [`DiscoveryError::InspectionFailure`] when the content is not
/// UTF-8, is not valid TOML, or has no `[package]` table.
pub fn parse_manifest(
    content: &[u8],
    manifest_path: &str,
    is_root: bool,
    bases: &Vec<(String, WorkspaceDependencyBase)>,
    fields: &Vec<(String, String)>,
    warnings: &mut Vec<CargoInspectionWarning>,
    provenance: &ProvenanceAccumulator,
) -> (r: DiscoveryResult<ParsedManifest>)
    requires
        content@.len() < usize::MAX,
    ensures
        !vstd::utf8::valid_utf8(content@) ==> (r matches Err(DiscoveryError::InspectionFailure(msg)) && msg@
            == "manifest "@ + manifest_path@ + " is not valid UTF-8"@ && warning_views(final(warnings)@)
            == warning_views(old(warnings)@)),
        vstd::utf8::valid_utf8(content@) ==> match spec_parse_toml(vstd::utf8::decode_utf8(content@)) {
            Err(e) => r matches Err(DiscoveryError::InspectionFailure(msg)) && msg@ == manifest_error_message(
                e,
                content@,
                manifest_path@,
            ) && warning_views(final(warnings)@) == warning_views(old(warnings)@),
            Ok(doc) => parsed_manifest_is(
                r,
                doc_entries(doc),
                (manifest_path@, None, spec_sha256_hex(content@), content@.len() as u64),
                manifest_path@,
                is_root,
                bases@,
                fields@,
                warning_views(old(warnings)@),
                warning_views(final(warnings)@),
            ),
        },
{
    let text = match utf8_text(content) {
        Some(t) => t,
        None => {
            let mut msg = String::from_str("manifest ");
            msg.append(manifest_path);
            msg.append(" is not valid UTF-8");
            return Err(DiscoveryError::InspectionFailure(msg));
        },
    };
    proof {
        vstd::utf8::encode_utf8_decode_utf8(text@);
    }
    let doc = match parse_toml(text) {
        Ok(v) => v,
        Err(e) => {
            let (line, col) = toml_line_col(&e, content);
            let mut msg = toml_malformed_reason(&e);
            msg.append(" at ");
            msg.append(manifest_path);
            msg.append(" line ");
            let l = debug_opt_usize(line);
            msg.append(l.as_str());
            msg.append(" col ");
            let c = debug_opt_usize(col);
            msg.append(c.as_str());
            return Err(DiscoveryError::InspectionFailure(msg));
        },
    };
    let source = provenance.make_source(manifest_path, content, None);
    match &doc {
        TomlValue::Table(t, _) => parse_manifest_from_value(t, &source, manifest_path, is_root, bases, fields, warnings),
        _ => {
            let empty: Vec<(String, TomlValue)> = Vec::new();
            assert(empty@ =~= doc_entries(doc));
            parse_manifest_from_value(&empty, &source, manifest_path, is_root, bases, fields, warnings)
        },
    }
}

/// Parses one manifest: its `[package]` facts, its Amari dependencies,
/// system signals, and dependency records (each sorted by package, alias,
/// and kind, records then by target), and, for the root, its `[workspace]`
/// metadata.
///
/// # Errors
///
/// Returns [`DiscoveryError::InspectionFailure`] when the manifest has no
/// `[package]` table.
pub fn parse_manifest_from_value(
    m: &Vec<(String, TomlValue)>,
    source: &ManifestSource,
    manifest_path: &str,
    is_root: bool,
    bases: &Vec<(String, WorkspaceDependencyBase)>,
    fields: &Vec<(String, String)>,
    warnings: &mut Vec<CargoInspectionWarning>,
) -> (r: DiscoveryResult<ParsedManifest>)
    ensures
        parsed_manifest_is(
            r,
            m@,
            source@,
            manifest_path@,
            is_root,
            bases@,
            fields@,
            warning_views(old(warnings)@),
            warning_views(final(warnings)@),
        ),
{
    let pt = match table_at(m, "package") {
        Some(t) => t,
        None => {
            let mut msg = String::from_str("missing [package] section in ");
            msg.append(manifest_path);
            return Err(DiscoveryError::InspectionFailure(msg));
        },
    };
    let name = match toml_string(pt, "name") {
        Some(n) => n,
        None => String::from_str("unknown"),
    };
    let version = resolve_package_version(pt, fields);
    let ghost w0 = warning_views(old(warnings)@);
    let inherited_metadata = parse_inherited_metadata(pt, fields, name.as_str(), warnings);
    let native_link = parse_native_link(pt, source);
    let benches = parse_benches(m, source, name.as_str(), warnings);
    let autobenches = toml_bool(pt, "autobenches");
    let ghost w1 = warning_views(warnings@);
    let mut collected = scan_container(m, &None, source, bases, name.as_str(), warnings);
    let ghost first = collected;
    let ghost sc0 = container_scan(m@, bases@, name@, None, 3);
    let ghost w2 = warning_views(warnings@);
    match table_at(m, "target") {
        Some(tt) => {
            let more = scan_targets(tt, source, bases, name.as_str(), warnings);
            let ghost moreg = more;
            merge_collected(&mut collected, more);
            proof {
                lemma_collected_cat(first, sc0, moreg, targets_scan(tt@, bases@, name@), collected, source@);
            }
        },
        None => {
            proof {
                let e = cat_scan(sc0, empty_scan());
                assert(e.0 =~= sc0.0);
                assert(e.1 =~= sc0.1);
                assert(e.2 =~= sc0.2);
                assert(e.3 =~= sc0.3);
            }
        },
    }
    let ghost cg = collected;
    let ghost sc = manifest_scan(m@, bases@, name@);
    proof {
        assert(warning_views(warnings@) =~= w0 + manifest_warnings(m@, pt@, bases@, fields@));
    }
    let Collected { deps, sys, recs } = collected;
    let dk = dep_sort_keys(&deps);
    let sk = sys_sort_keys(&sys);
    let rk = rec_sort_keys(&recs);
    proof {
        assert forall|i: int| 0 <= i < dk@.len() implies sort_key_views(dk@)[i] == dep_keys(sc.0)[i] by {
            assert(sort_key_views(dk@)[i] == sort_key_view(dk@[i]));
            assert(evidence_is(deps@[i], sc.0[i].0, sc.0[i].1, sc.0[i].2, source@));
        }
        assert(sort_key_views(dk@) =~= dep_keys(sc.0));
        assert forall|i: int| 0 <= i < sk@.len() implies sort_key_views(sk@)[i] == sys_keys(sc.1)[i] by {
            assert(sort_key_views(sk@)[i] == sort_key_view(sk@[i]));
            assert(signal_is(sys@[i], sc.1[i].0, sc.1[i].1, sc.1[i].2, source@));
        }
        assert(sort_key_views(sk@) =~= sys_keys(sc.1));
        assert forall|i: int| 0 <= i < rk@.len() implies sort_key_views(rk@)[i] == rec_keys(sc.2)[i] by {
            assert(sort_key_views(rk@)[i] == sort_key_view(rk@[i]));
            assert(record_is(recs@[i], sc.2[i].0, sc.2[i].1, sc.2[i].2, sc.2[i].3, source@));
        }
        assert(sort_key_views(rk@) =~= rec_keys(sc.2));
    }
    let dependencies = stable_sort_by_key(deps, dk);
    let system_dependencies = stable_sort_by_key(sys, sk);
    let dependency_records = stable_sort_by_key(recs, rk);
    let ws_meta = if is_root {
        match table_at(m, "workspace") {
            Some(ws) => Some(
                WorkspaceMeta {
                    members: match toml_strings_opt(ws, "members") {
                        Some(v) => v,
                        None => {
                            let e: Vec<String> = Vec::new();
                            assert(views(e@) =~= seq![]);
                            e
                        },
                    },
                    dependency_bases: parse_workspace_deps(ws),
                    package_fields: parse_workspace_package_fields(ws),
                },
            ),
            None => None,
        }
    } else {
        None
    };
    let package = CargoPackage {
        name,
        version,
        manifest_path: String::from_str(manifest_path),
        dependencies,
        benches,
        native_link,
        inherited_metadata,
        system_dependencies,
        dependency_records,
        autobenches,
    };
    proof {
        assert(package_is(package, m@, pt@, manifest_path@, bases@, fields@, source@, cg));
    }
    let declares_workspace = table_at(m, "workspace").is_some();
    Ok(ParsedManifest { package, ws_meta, declares_workspace })
}

} // verus!
