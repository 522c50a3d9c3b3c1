//! Platform evidence joined from Cargo manifests and Rust source evidence:
//! target cfg constraints and `no_std` packages.

use vstd::prelude::*;

use super::derive::{is_platform_cfg, normalize_cargo_cfg_selector, spec_is_platform_cfg, spec_normalize_cargo_cfg_selector};
use super::evidence::{push_source_key, source_key, SourceV};
use super::types::{NoStdEvidence, NoStdPackageEvidence, TargetCfgConstraint, TargetCfgSource};
use crate::inspect::cargo::types::{CargoInspection, CargoPackage};
use crate::inspect::npm::typescript::imports::LocV;
use crate::inspect::npm::typescript::keys::{loc_key, push_loc_key};
use crate::inspect::rust::types::{RustCfgEvidence, RustCrateAttribute, RustFileKind, RustSourceInspection};
use crate::inspect::snapshot::SourceLocation;
use crate::order::{is_sorted_dedup_of, sort_dedup_keyed, sort_dedup_strings, sorted_dedup, views};
use crate::sortkey::{
    index_key, lemma_sorted_unique, lemma_sorted_unique_views, push_index, push_text_key, sorted_unique_by, text_key,
};
use crate::text::{has_prefix, str_eq, str_starts_with, string_of};

verus! {

// ---------------------------------------------------------------------------
// Target cfg constraints
// ---------------------------------------------------------------------------

/// View of a cfg constraint source.
pub enum CfgSourceV {
    /// Cargo selector: manifest path, alias, package, manifest source.
    Cargo(Seq<char>, Seq<char>, Seq<char>, SourceV),
    /// Rust attribute: path, whether `cfg_attr`, location.
    Rust(Seq<char>, bool, LocV),
}

/// View of a cfg constraint source.
pub open spec fn cfg_source_view(s: TargetCfgSource) -> CfgSourceV {
    match s {
        TargetCfgSource::CargoDependencySelector { manifest_path, alias, package_name, source } => CfgSourceV::Cargo(
            manifest_path@,
            alias@,
            package_name@,
            source@,
        ),
        TargetCfgSource::RustAttribute { path, is_cfg_attr, source } => CfgSourceV::Rust(path@, is_cfg_attr, source@),
    }
}

/// Order key of a cfg constraint source: variant, then fields in order.
pub open spec fn cfg_source_key(s: CfgSourceV) -> Seq<char> {
    match s {
        CfgSourceV::Cargo(m, a, p, src) => index_key(0) + text_key(m) + text_key(a) + text_key(p) + source_key(src),
        CfgSourceV::Rust(path, attr, loc) => index_key(1) + text_key(path) + index_key(
            if attr {
                1
            } else {
                0
            },
        ) + loc_key(loc),
    }
}

/// Cargo `cfg(...)` dependency selectors of one package, with their
/// normalized predicates.
pub open spec fn package_selectors(p: CargoPackage) -> Seq<(Seq<char>, CfgSourceV)>
    decreases p.dependency_records@.len(),
{
    selectors_upto(p, p.dependency_records@.len() as int)
}

/// Selectors of the first `n` dependency records of a package.
pub open spec fn selectors_upto(p: CargoPackage, n: int) -> Seq<(Seq<char>, CfgSourceV)>
    decreases n,
{
    if n <= 0 || n > p.dependency_records@.len() {
        seq![]
    } else {
        let d = p.dependency_records@[n - 1];
        selectors_upto(p, n - 1) + match d.target {
            Some(t) => if has_prefix(t@, "cfg("@) {
                seq![
                    (
                        spec_normalize_cargo_cfg_selector(t@),
                        CfgSourceV::Cargo(p.manifest_path@, d.alias@, d.package@, d.source@),
                    ),
                ]
            } else {
                seq![]
            },
            None => seq![],
        }
    }
}

/// Selectors of packages, in order.
pub open spec fn packages_selectors(ps: Seq<CargoPackage>) -> Seq<(Seq<char>, CfgSourceV)>
    decreases ps.len(),
{
    if ps.len() == 0 {
        seq![]
    } else {
        packages_selectors(ps.drop_last()) + package_selectors(ps.last())
    }
}

/// Rust platform cfg predicates that carry a location.
pub open spec fn rust_platform_cfgs(cs: Seq<RustCfgEvidence>) -> Seq<(Seq<char>, CfgSourceV)>
    decreases cs.len(),
{
    if cs.len() == 0 {
        seq![]
    } else {
        let c = cs.last();
        rust_platform_cfgs(cs.drop_last()) + if spec_is_platform_cfg(c.cfg_predicate@) && c.source is Some {
            seq![(c.cfg_predicate@, CfgSourceV::Rust(c.path@, c.is_cfg_attr, c.source->0@))]
        } else {
            seq![]
        }
    }
}

/// All platform cfg constraints and their sources: Cargo selectors (root
/// package first), then Rust attributes.
pub open spec fn cfg_entries(cargo: CargoInspection, rust: RustSourceInspection) -> Seq<(Seq<char>, CfgSourceV)> {
    packages_selectors(seq![cargo.root_package] + cargo.workspace_members@) + rust_platform_cfgs(rust.cfg_evidence@)
}

/// The sources recorded for predicate `p`.
pub open spec fn cfg_sources_for(e: Seq<(Seq<char>, CfgSourceV)>, p: Seq<char>) -> Seq<CfgSourceV>
    decreases e.len(),
{
    if e.len() == 0 {
        seq![]
    } else {
        cfg_sources_for(e.drop_last(), p) + if e.last().0 == p {
            seq![e.last().1]
        } else {
            seq![]
        }
    }
}

fn copy_cfg_source(s: &TargetCfgSource) -> (r: TargetCfgSource)
    ensures
        cfg_source_view(r) == cfg_source_view(*s),
{
    match s {
        TargetCfgSource::CargoDependencySelector { manifest_path, alias, package_name, source } =>
            TargetCfgSource::CargoDependencySelector {
            manifest_path: manifest_path.clone(),
            alias: alias.clone(),
            package_name: package_name.clone(),
            source: source.clone(),
        },
        TargetCfgSource::RustAttribute { path, is_cfg_attr, source } => TargetCfgSource::RustAttribute {
            path: path.clone(),
            is_cfg_attr: *is_cfg_attr,
            source: source.clone(),
        },
    }
}

fn cfg_source_key_of(s: &TargetCfgSource) -> (r: String)
    ensures
        r@ == cfg_source_key(cfg_source_view(*s)),
{
    let mut out: Vec<char> = Vec::new();
    match s {
        TargetCfgSource::CargoDependencySelector { manifest_path, alias, package_name, source } => {
            push_index(&mut out, 0);
            push_text_key(&mut out, manifest_path.as_str());
            push_text_key(&mut out, alias.as_str());
            push_text_key(&mut out, package_name.as_str());
            push_source_key(
                &mut out,
                source.path.as_str(),
                source.line,
                source.content_hash.as_str(),
                source.byte_count,
            );
        },
        TargetCfgSource::RustAttribute { path, is_cfg_attr, source } => {
            push_index(&mut out, 1);
            push_text_key(&mut out, path.as_str());
            push_index(&mut out, if *is_cfg_attr { 1 } else { 0 });
            push_loc_key(&mut out, source);
        },
    }
    assert(out@ =~= cfg_source_key(cfg_source_view(*s)));
    string_of(out.as_slice())
}

/// Cfg sources sorted by their fields, duplicates removed.
pub fn sort_cfg_sources(v: Vec<TargetCfgSource>) -> (r: Vec<TargetCfgSource>)
    ensures
        sorted_unique_by(
            r@.map_values(|s: TargetCfgSource| cfg_source_view(s)),
            v@.map_values(|s: TargetCfgSource| cfg_source_view(s)),
            |x: CfgSourceV| cfg_source_key(x),
        ),
{
    let mut keys: Vec<String> = Vec::new();
    let mut k: usize = 0;
    while k < v.len()
        invariant
            k <= v@.len(),
            keys@.len() == k,
            forall|j: int| 0 <= j < k ==> #[trigger] keys@[j]@ == cfg_source_key(cfg_source_view(v@[j])),
        decreases v@.len() - k,
    {
        keys.push(cfg_source_key_of(&v[k]));
        k = k + 1;
    }
    let ghost items = v@;
    let ghost ks = keys@;
    let r = sort_dedup_keyed(v, keys);
    proof {
        lemma_sorted_unique(r@, items, ks, |x: TargetCfgSource| cfg_source_key(cfg_source_view(x)));
        lemma_sorted_unique_views(
            r@,
            items,
            |s: TargetCfgSource| cfg_source_view(s),
            |x: CfgSourceV| cfg_source_key(x),
            |x: TargetCfgSource| cfg_source_key(cfg_source_view(x)),
        );
    }
    r
}

/// Parallel predicate and source lists.
pub open spec fn entries_of(preds: Seq<String>, sources: Seq<TargetCfgSource>) -> Seq<(Seq<char>, CfgSourceV)> {
    Seq::new(preds.len(), |i: int| (preds[i]@, cfg_source_view(sources[i])))
}

fn push_package_selectors(p: &CargoPackage, preds: &mut Vec<String>, sources: &mut Vec<TargetCfgSource>)
    requires
        old(preds)@.len() == old(sources)@.len(),
    ensures
        final(preds)@.len() == final(sources)@.len(),
        entries_of(final(preds)@, final(sources)@) == entries_of(old(preds)@, old(sources)@) + package_selectors(*p),
{
    let ghost e0 = entries_of(preds@, sources@);
    let recs = &p.dependency_records;
    let mut k: usize = 0;
    while k < recs.len()
        invariant
            k <= recs@.len(),
            recs == &p.dependency_records,
            preds@.len() == sources@.len(),
            entries_of(preds@, sources@) == e0 + selectors_upto(*p, k as int),
        decreases recs@.len() - k,
    {
        let d = &recs[k];
        let ghost before = entries_of(preds@, sources@);
        match &d.target {
            Some(t) => {
                if str_starts_with(t.as_str(), "cfg(") {
                    preds.push(normalize_cargo_cfg_selector(t.as_str()));
                    sources.push(
                        TargetCfgSource::CargoDependencySelector {
                            manifest_path: p.manifest_path.clone(),
                            alias: d.alias.clone(),
                            package_name: d.package.clone(),
                            source: d.source.clone(),
                        },
                    );
                    assert(entries_of(preds@, sources@) =~= before.push(
                        (
                            spec_normalize_cargo_cfg_selector(t@),
                            CfgSourceV::Cargo(p.manifest_path@, d.alias@, d.package@, d.source@),
                        ),
                    ));
                }
            },
            None => {},
        }
        assert(entries_of(preds@, sources@) =~= e0 + selectors_upto(*p, k + 1));
        k = k + 1;
    }
}

fn collect_cfg_entries(cargo: &CargoInspection, rust: &RustSourceInspection) -> (r: (Vec<String>, Vec<TargetCfgSource>))
    ensures
        r.0@.len() == r.1@.len(),
        entries_of(r.0@, r.1@) == cfg_entries(*cargo, *rust),
{
    let mut preds: Vec<String> = Vec::new();
    let mut sources: Vec<TargetCfgSource> = Vec::new();
    let ghost pkgs = seq![cargo.root_package] + cargo.workspace_members@;
    assert(entries_of(preds@, sources@) =~= Seq::<(Seq<char>, CfgSourceV)>::empty());
    push_package_selectors(&cargo.root_package, &mut preds, &mut sources);
    assert(pkgs.take(1).drop_last() =~= Seq::<CargoPackage>::empty());
    assert(pkgs.take(1).last() == cargo.root_package);
    assert(packages_selectors(Seq::<CargoPackage>::empty()) =~= Seq::<(Seq<char>, CfgSourceV)>::empty());
    assert(entries_of(preds@, sources@) =~= packages_selectors(pkgs.take(1)));
    let mut k: usize = 0;
    while k < cargo.workspace_members.len()
        invariant
            k <= cargo.workspace_members@.len(),
            pkgs == seq![cargo.root_package] + cargo.workspace_members@,
            preds@.len() == sources@.len(),
            entries_of(preds@, sources@) == packages_selectors(pkgs.take(k + 1)),
        decreases cargo.workspace_members@.len() - k,
    {
        assert(pkgs.take(k + 2).drop_last() =~= pkgs.take(k + 1));
        assert(pkgs.take(k + 2).last() == cargo.workspace_members@[k as int]);
        push_package_selectors(&cargo.workspace_members[k], &mut preds, &mut sources);
        k = k + 1;
    }
    assert(pkgs.take(cargo.workspace_members@.len() + 1int) =~= pkgs);
    let ghost after = entries_of(preds@, sources@);
    let cfgs = &rust.cfg_evidence;
    let mut j: usize = 0;
    while j < cfgs.len()
        invariant
            j <= cfgs@.len(),
            cfgs == &rust.cfg_evidence,
            preds@.len() == sources@.len(),
            entries_of(preds@, sources@) == after + rust_platform_cfgs(cfgs@.take(j as int)),
        decreases cfgs@.len() - j,
    {
        assert(cfgs@.take(j + 1).drop_last() =~= cfgs@.take(j as int));
        let c = &cfgs[j];
        let ghost before = entries_of(preds@, sources@);
        if is_platform_cfg(c.cfg_predicate.as_str()) {
            match &c.source {
                Some(src) => {
                    preds.push(c.cfg_predicate.clone());
                    sources.push(
                        TargetCfgSource::RustAttribute {
                            path: c.path.clone(),
                            is_cfg_attr: c.is_cfg_attr,
                            source: src.clone(),
                        },
                    );
                    assert(entries_of(preds@, sources@) =~= before.push(
                        (c.cfg_predicate@, CfgSourceV::Rust(c.path@, c.is_cfg_attr, src@)),
                    ));
                },
                None => {},
            }
        }
        assert(entries_of(preds@, sources@) =~= after + rust_platform_cfgs(cfgs@.take(j + 1)));
        j = j + 1;
    }
    assert(cfgs@.take(cfgs@.len() as int) =~= cfgs@);
    (preds, sources)
}

fn sources_for_predicate(preds: &Vec<String>, sources: &Vec<TargetCfgSource>, p: &str) -> (r: Vec<TargetCfgSource>)
    requires
        preds@.len() == sources@.len(),
    ensures
        r@.map_values(|s: TargetCfgSource| cfg_source_view(s)) == cfg_sources_for(entries_of(preds@, sources@), p@),
{
    let ghost e = entries_of(preds@, sources@);
    let mut out: Vec<TargetCfgSource> = Vec::new();
    let mut k: usize = 0;
    while k < preds.len()
        invariant
            k <= preds@.len(),
            preds@.len() == sources@.len(),
            e == entries_of(preds@, sources@),
            out@.map_values(|s: TargetCfgSource| cfg_source_view(s)) == cfg_sources_for(e.take(k as int), p@),
        decreases preds@.len() - k,
    {
        assert(e.take(k + 1).drop_last() =~= e.take(k as int));
        let ghost prev = out@;
        if str_eq(preds[k].as_str(), p) {
            out.push(copy_cfg_source(&sources[k]));
            assert(out@.map_values(|s: TargetCfgSource| cfg_source_view(s)) =~= prev.map_values(
                |s: TargetCfgSource| cfg_source_view(s),
            ).push(cfg_source_view(sources@[k as int])));
        }
        k = k + 1;
    }
    assert(e.take(preds@.len() as int) =~= e);
    out
}

/// `r` holds one constraint per distinct platform predicate, in predicate
/// order, each with its sorted, duplicate-free sources.
pub open spec fn target_cfg_are(r: Seq<TargetCfgConstraint>, cargo: CargoInspection, rust: RustSourceInspection) -> bool {
    let e = cfg_entries(cargo, rust);
    let ps = sorted_dedup(e.map_values(|x: (Seq<char>, CfgSourceV)| x.0));
    &&& r.len() == ps.len()
    &&& forall|k: int|
        0 <= k < r.len() ==> (#[trigger] r[k]).predicate@ == ps[k] && sorted_unique_by(
            r[k].sources@.map_values(|s: TargetCfgSource| cfg_source_view(s)),
            cfg_sources_for(e, ps[k]),
            |x: CfgSourceV| cfg_source_key(x),
        )
}

/// Platform cfg constraints: Cargo `cfg(...)` dependency selectors
/// (normalized to the unwrapped predicate) and Rust platform `cfg`/`cfg_attr`
/// predicates with a location, one constraint per predicate in predicate
/// order, each with its sorted, duplicate-free sources.
pub fn derive_target_cfg(cargo: &CargoInspection, rust: &RustSourceInspection) -> (r: Vec<TargetCfgConstraint>)
    ensures
        target_cfg_are(r@, *cargo, *rust),
{
    let (preds, sources) = collect_cfg_entries(cargo, rust);
    let ghost e = cfg_entries(*cargo, *rust);
    let mut copies: Vec<String> = Vec::new();
    let mut k: usize = 0;
    while k < preds.len()
        invariant
            k <= preds@.len(),
            views(copies@) == views(preds@).take(k as int),
        decreases preds@.len() - k,
    {
        let ghost prev = copies@;
        copies.push(preds[k].clone());
        assert(views(copies@) =~= views(prev).push(preds@[k as int]@));
        assert(views(preds@).take(k + 1) =~= views(preds@).take(k as int).push(preds@[k as int]@));
        k = k + 1;
    }
    assert(views(preds@).take(preds@.len() as int) =~= views(preds@));
    assert(views(preds@) =~= e.map_values(|x: (Seq<char>, CfgSourceV)| x.0));
    let names = sort_dedup_strings(copies);
    let ghost ps = sorted_dedup(e.map_values(|x: (Seq<char>, CfgSourceV)| x.0));
    let mut out: Vec<TargetCfgConstraint> = Vec::new();
    let mut q: usize = 0;
    while q < names.len()
        invariant
            q <= names@.len(),
            views(names@) == ps,
            preds@.len() == sources@.len(),
            e == entries_of(preds@, sources@),
            out@.len() == q,
            forall|i: int|
                0 <= i < q ==> (#[trigger] out@[i]).predicate@ == ps[i] && sorted_unique_by(
                    out@[i].sources@.map_values(|s: TargetCfgSource| cfg_source_view(s)),
                    cfg_sources_for(e, ps[i]),
                    |x: CfgSourceV| cfg_source_key(x),
                ),
        decreases names@.len() - q,
    {
        assert(ps[q as int] == names@[q as int]@);
        let found = sources_for_predicate(&preds, &sources, names[q].as_str());
        let sorted = sort_cfg_sources(found);
        out.push(TargetCfgConstraint { predicate: names[q].clone(), sources: sorted });
        q = q + 1;
    }
    out
}

// ---------------------------------------------------------------------------
// no_std
// ---------------------------------------------------------------------------

/// Package and path of a file classification.
pub open spec fn kind_package_path(k: RustFileKind) -> (Seq<char>, Seq<char>) {
    match k {
        RustFileKind::Library { package, path } => (package@, path@),
        RustFileKind::Binary { package, path } => (package@, path@),
        RustFileKind::Test { package, path } => (package@, path@),
        RustFileKind::Example { package, path } => (package@, path@),
        RustFileKind::Bench { package, path } => (package@, path@),
        RustFileKind::BuildScript { package, path } => (package@, path@),
        RustFileKind::Other { package, path } => (package@, path@),
    }
}

/// The package the last classification of `path` assigns.
pub open spec fn package_of_path(ks: Seq<RustFileKind>, path: Seq<char>) -> Option<Seq<char>>
    decreases ks.len(),
{
    if ks.len() == 0 {
        None
    } else if kind_package_path(ks.last()).1 == path {
        Some(kind_package_path(ks.last()).0)
    } else {
        package_of_path(ks.drop_last(), path)
    }
}

/// The first accepted input file with `path`, without line or column.
pub open spec fn first_input(files: Seq<SourceLocation>, path: Seq<char>) -> Option<LocV>
    decreases files.len(),
{
    if files.len() == 0 {
        None
    } else {
        match first_input(files.drop_last(), path) {
            Some(l) => Some(l),
            None => if files.last().path@ == path {
                Some((path, None::<u32>, None::<u32>, files.last().content_hash@))
            } else {
                None
            },
        }
    }
}

/// `no_std` attributes attributed to a package, with the location they
/// contribute (the attribute's own, else the file's, else none).
pub open spec fn no_std_entries(rust: RustSourceInspection, attrs: Seq<RustCrateAttribute>) -> Seq<
    (Seq<char>, Option<LocV>),
>
    decreases attrs.len(),
{
    if attrs.len() == 0 {
        seq![]
    } else {
        let a = attrs.last();
        no_std_entries(rust, attrs.drop_last()) + if a.attribute@ == "no_std"@ {
            match package_of_path(rust.file_kinds@, a.path@) {
                Some(p) => seq![
                    (
                        p,
                        match a.source {
                            Some(s) => Some(s@),
                            None => first_input(rust.input_files@, a.path@),
                        },
                    ),
                ],
                None => seq![],
            }
        } else {
            seq![]
        }
    }
}

/// The locations contributed to package `p`.
pub open spec fn no_std_locations(e: Seq<(Seq<char>, Option<LocV>)>, p: Seq<char>) -> Seq<LocV>
    decreases e.len(),
{
    if e.len() == 0 {
        seq![]
    } else {
        no_std_locations(e.drop_last(), p) + if e.last().0 == p && e.last().1 is Some {
            seq![e.last().1->0]
        } else {
            seq![]
        }
    }
}

fn package_of(kinds: &Vec<RustFileKind>, path: &str) -> (r: Option<String>)
    ensures
        opt_chars(r) == package_of_path(kinds@, path@),
{
    let mut j = kinds.len();
    assert(kinds@.take(kinds@.len() as int) =~= kinds@);
    while j > 0
        invariant
            j <= kinds@.len(),
            package_of_path(kinds@.take(j as int), path@) == package_of_path(kinds@, path@),
        decreases j,
    {
        let ghost pre = kinds@.take(j as int);
        assert(pre.drop_last() =~= kinds@.take(j - 1));
        assert(pre.last() == kinds@[j - 1]);
        let (package, p) = match &kinds[j - 1] {
            RustFileKind::Library { package, path } => (package, path),
            RustFileKind::Binary { package, path } => (package, path),
            RustFileKind::Test { package, path } => (package, path),
            RustFileKind::Example { package, path } => (package, path),
            RustFileKind::Bench { package, path } => (package, path),
            RustFileKind::BuildScript { package, path } => (package, path),
            RustFileKind::Other { package, path } => (package, path),
        };
        if str_eq(p.as_str(), path) {
            return Some(package.clone());
        }
        j = j - 1;
    }
    assert(kinds@.take(0) =~= Seq::<RustFileKind>::empty());
    None
}

/// View of an optional string.
pub open spec fn opt_chars(o: Option<String>) -> Option<Seq<char>> {
    match o {
        Some(s) => Some(s@),
        None => None,
    }
}

fn first_input_of(files: &Vec<SourceLocation>, path: &str) -> (r: Option<SourceLocation>)
    ensures
        match r {
            Some(l) => first_input(files@, path@) == Some(l@),
            None => first_input(files@, path@) is None,
        },
{
    let mut k: usize = 0;
    while k < files.len()
        invariant
            k <= files@.len(),
            first_input(files@.take(k as int), path@) is None,
        decreases files@.len() - k,
    {
        let ghost nxt = files@.take(k + 1);
        assert(nxt.drop_last() =~= files@.take(k as int));
        if str_eq(files[k].path.as_str(), path) {
            proof {
                lemma_first_input_prefix(files@, path@, k + 1);
            }
            return Some(
                SourceLocation {
                    path: files[k].path.clone(),
                    line: None,
                    column: None,
                    content_hash: files[k].content_hash.clone(),
                },
            );
        }
        k = k + 1;
    }
    assert(files@.take(files@.len() as int) =~= files@);
    None
}

proof fn lemma_first_input_prefix(files: Seq<SourceLocation>, path: Seq<char>, n: int)
    requires
        0 <= n <= files.len(),
        first_input(files.take(n), path) is Some,
    ensures
        first_input(files, path) == first_input(files.take(n), path),
    decreases files.len() - n,
{
    if n < files.len() {
        let m = n + 1;
        assert(files.take(m).drop_last() =~= files.take(n));
        lemma_first_input_prefix(files, path, m);
    } else {
        assert(files.take(n) =~= files);
    }
}

/// Appends the key of a location.
fn location_key_of(l: &SourceLocation) -> (r: String)
    ensures
        r@ == loc_key(l@),
{
    let mut out: Vec<char> = Vec::new();
    push_loc_key(&mut out, l);
    string_of(out.as_slice())
}

/// Locations sorted by their fields, duplicates removed.
pub fn sort_locations(v: Vec<SourceLocation>) -> (r: Vec<SourceLocation>)
    ensures
        sorted_unique_by(
            r@.map_values(|l: SourceLocation| l@),
            v@.map_values(|l: SourceLocation| l@),
            |x: LocV| loc_key(x),
        ),
{
    let mut keys: Vec<String> = Vec::new();
    let mut k: usize = 0;
    while k < v.len()
        invariant
            k <= v@.len(),
            keys@.len() == k,
            forall|j: int| 0 <= j < k ==> #[trigger] keys@[j]@ == loc_key(v@[j]@),
        decreases v@.len() - k,
    {
        keys.push(location_key_of(&v[k]));
        k = k + 1;
    }
    let ghost items = v@;
    let ghost ks = keys@;
    let r = sort_dedup_keyed(v, keys);
    proof {
        lemma_sorted_unique(r@, items, ks, |x: SourceLocation| loc_key(x@));
        lemma_sorted_unique_views(
            r@,
            items,
            |l: SourceLocation| l@,
            |x: LocV| loc_key(x),
            |x: SourceLocation| loc_key(x@),
        );
    }
    r
}

/// Views of parallel package and location lists.
pub open spec fn no_std_of(pkgs: Seq<String>, locs: Seq<Option<SourceLocation>>) -> Seq<(Seq<char>, Option<LocV>)> {
    Seq::new(
        pkgs.len(),
        |i: int|
            (
                pkgs[i]@,
                match locs[i] {
                    Some(l) => Some(l@),
                    None => None,
                },
            ),
    )
}

fn collect_no_std(rust: &RustSourceInspection) -> (r: (Vec<String>, Vec<Option<SourceLocation>>))
    ensures
        r.0@.len() == r.1@.len(),
        no_std_of(r.0@, r.1@) == no_std_entries(*rust, rust.crate_attributes@),
{
    let mut pkgs: Vec<String> = Vec::new();
    let mut locs: Vec<Option<SourceLocation>> = Vec::new();
    let attrs = &rust.crate_attributes;
    let mut k: usize = 0;
    assert(no_std_of(pkgs@, locs@) =~= Seq::<(Seq<char>, Option<LocV>)>::empty());
    while k < attrs.len()
        invariant
            k <= attrs@.len(),
            attrs == &rust.crate_attributes,
            pkgs@.len() == locs@.len(),
            no_std_of(pkgs@, locs@) == no_std_entries(*rust, attrs@.take(k as int)),
        decreases attrs@.len() - k,
    {
        assert(attrs@.take(k + 1).drop_last() =~= attrs@.take(k as int));
        let a = &attrs[k];
        let ghost before = no_std_of(pkgs@, locs@);
        proof {
            reveal_strlit("no_std");
        }
        if str_eq(a.attribute.as_str(), "no_std") {
            match package_of(&rust.file_kinds, a.path.as_str()) {
                Some(p) => {
                    let loc = match &a.source {
                        Some(s) => Some(s.clone()),
                        None => first_input_of(&rust.input_files, a.path.as_str()),
                    };
                    pkgs.push(p);
                    locs.push(loc);
                    assert(no_std_of(pkgs@, locs@) =~= before.push(no_std_of(pkgs@, locs@).last()));
                },
                None => {},
            }
        }
        assert(no_std_of(pkgs@, locs@) =~= no_std_entries(*rust, attrs@.take(k + 1)));
        k = k + 1;
    }
    assert(attrs@.take(attrs@.len() as int) =~= attrs@);
    (pkgs, locs)
}

fn locations_for(pkgs: &Vec<String>, locs: &Vec<Option<SourceLocation>>, p: &str) -> (r: Vec<SourceLocation>)
    requires
        pkgs@.len() == locs@.len(),
    ensures
        r@.map_values(|l: SourceLocation| l@) == no_std_locations(no_std_of(pkgs@, locs@), p@),
{
    let ghost e = no_std_of(pkgs@, locs@);
    let mut out: Vec<SourceLocation> = Vec::new();
    let mut k: usize = 0;
    while k < pkgs.len()
        invariant
            k <= pkgs@.len(),
            pkgs@.len() == locs@.len(),
            e == no_std_of(pkgs@, locs@),
            out@.map_values(|l: SourceLocation| l@) == no_std_locations(e.take(k as int), p@),
        decreases pkgs@.len() - k,
    {
        assert(e.take(k + 1).drop_last() =~= e.take(k as int));
        let ghost prev = out@;
        if str_eq(pkgs[k].as_str(), p) {
            match &locs[k] {
                Some(l) => {
                    out.push(l.clone());
                    assert(out@.map_values(|l: SourceLocation| l@) =~= prev.map_values(|l: SourceLocation| l@).push(l@));
                },
                None => {},
            }
        }
        k = k + 1;
    }
    assert(e.take(pkgs@.len() as int) =~= e);
    out
}

/// `r` holds one entry per package marked `no_std`, in name order, each
/// with its sorted, duplicate-free locations.
pub open spec fn no_std_is(r: NoStdEvidence, rust: RustSourceInspection) -> bool {
    let e = no_std_entries(rust, rust.crate_attributes@);
    let ps = sorted_dedup(e.map_values(|x: (Seq<char>, Option<LocV>)| x.0));
    &&& r.packages@.len() == ps.len()
    &&& r.has_no_std == (ps.len() > 0)
    &&& forall|k: int|
        0 <= k < r.packages@.len() ==> (#[trigger] r.packages@[k]).package@ == ps[k] && sorted_unique_by(
            r.packages@[k].sources@.map_values(|l: SourceLocation| l@),
            no_std_locations(e, ps[k]),
            |x: LocV| loc_key(x),
        )
}

/// `no_std` evidence: every literal `#![no_std]` attribute whose file has a
/// package classification (the last one for its path) marks that package;
/// packages in name order, each with its sorted, duplicate-free locations
/// (the attribute's own, else the file's without line).
pub fn derive_no_std(_cargo: &CargoInspection, rust: &RustSourceInspection) -> (r: NoStdEvidence)
    ensures
        no_std_is(r, *rust),
{
    let (pkgs, locs) = collect_no_std(rust);
    let ghost e = no_std_entries(*rust, rust.crate_attributes@);
    let mut copies: Vec<String> = Vec::new();
    let mut k: usize = 0;
    while k < pkgs.len()
        invariant
            k <= pkgs@.len(),
            views(copies@) == views(pkgs@).take(k as int),
        decreases pkgs@.len() - k,
    {
        let ghost prev = copies@;
        copies.push(pkgs[k].clone());
        assert(views(copies@) =~= views(prev).push(pkgs@[k as int]@));
        assert(views(pkgs@).take(k + 1) =~= views(pkgs@).take(k as int).push(pkgs@[k as int]@));
        k = k + 1;
    }
    assert(views(pkgs@).take(pkgs@.len() as int) =~= views(pkgs@));
    assert(views(pkgs@) =~= e.map_values(|x: (Seq<char>, Option<LocV>)| x.0));
    let names = sort_dedup_strings(copies);
    let ghost ps = sorted_dedup(e.map_values(|x: (Seq<char>, Option<LocV>)| x.0));
    let mut out: Vec<NoStdPackageEvidence> = Vec::new();
    let mut q: usize = 0;
    while q < names.len()
        invariant
            q <= names@.len(),
            views(names@) == ps,
            pkgs@.len() == locs@.len(),
            e == no_std_of(pkgs@, locs@),
            out@.len() == q,
            forall|i: int|
                0 <= i < q ==> (#[trigger] out@[i]).package@ == ps[i] && sorted_unique_by(
                    out@[i].sources@.map_values(|l: SourceLocation| l@),
                    no_std_locations(e, ps[i]),
                    |x: LocV| loc_key(x),
                ),
        decreases names@.len() - q,
    {
        assert(ps[q as int] == names@[q as int]@);
        let found = locations_for(&pkgs, &locs, names[q].as_str());
        let sorted = sort_locations(found);
        out.push(NoStdPackageEvidence { package: names[q].clone(), sources: sorted });
        q = q + 1;
    }
    let has = out.len() > 0;
    NoStdEvidence { has_no_std: has, packages: out }
}

} // verus!
