//! Platform evidence derived from the parsed config settings: configured
//! WASM targets and native/linker requirements.

use vstd::prelude::*;

use super::derive::{
    is_wasm_target_triple, push_native_rustflags, scope_sort_repr, spec_is_wasm_target_triple,
    spec_scope_sort_repr, spec_target_key_sort_repr, target_key_sort_repr,
};
use super::types::{
    CargoBuildSettings, CargoTargetKey, CargoTargetSettings, ConfigSource, NativeRequirement, RustflagsEvidence,
    RustflagsScope, TargetKeyV, WasmTargetEvidence, WasmTargetOrigin,
};
use crate::inspect::cargo::types::{CargoInspection, CargoPackage, DependencyKind, SystemDependencyKind};
use crate::order::{is_sorted_dedup_of, sort_dedup_keyed, sort_dedup_strings, sorted_by_key, sorted_dedup, views};
use crate::sortkey::{
    dedup_adjacent, digits_key, index_key, lemma_sorted_unique, lemma_sorted_unique_views, push_digits, push_index,
    push_text_key, sorted_unique_by, stable_sort_by_text, text_key, text_keys,
};
use crate::text::{opt_view, str_eq, string_of};

verus! {

// ---------------------------------------------------------------------------
// Source keys
// ---------------------------------------------------------------------------

/// View of a manifest or config source: path, line, hash, size.
pub type SourceV = (Seq<char>, Option<usize>, Seq<char>, u64);

/// Order key of a source: path, line, content hash, size.
pub open spec fn source_key(v: SourceV) -> Seq<char> {
    text_key(v.0) + match v.1 {
        None => seq!['\u{0}'],
        Some(n) => seq!['\u{1}'] + digits_key(n as int, 16),
    } + text_key(v.2) + digits_key(v.3 as int, 16)
}

/// Order key of a config source.
pub open spec fn config_source_key(c: ConfigSource) -> Seq<char> {
    source_key(c@)
}

/// Appends the key of a source.
pub fn push_source_key(out: &mut Vec<char>, path: &str, line: Option<usize>, hash: &str, bytes: u64)
    ensures
        final(out)@ == old(out)@ + source_key((path@, line, hash@, bytes)),
{
    let ghost o = out@;
    push_text_key(out, path);
    let ghost mid = out@;
    match line {
        None => out.push('\u{0}'),
        Some(n) => {
            out.push('\u{1}');
            push_digits(out, n as u64, 16);
        },
    }
    let ghost after_line = out@;
    assert(after_line =~= mid + match line {
        None => seq!['\u{0}'],
        Some(n) => seq!['\u{1}'] + digits_key(n as int, 16),
    });
    push_text_key(out, hash);
    push_digits(out, bytes, 16);
    assert(out@ =~= o + source_key((path@, line, hash@, bytes)));
}

fn config_source_key_of(c: &ConfigSource) -> (r: String)
    ensures
        r@ == config_source_key(*c),
{
    let mut out: Vec<char> = Vec::new();
    push_source_key(&mut out, c.path.as_str(), c.line, c.content_hash.as_str(), c.byte_count);
    assert(out@ =~= config_source_key(*c));
    string_of(out.as_slice())
}

/// Config sources sorted by their fields, duplicates removed.
pub fn sort_config_sources(v: Vec<ConfigSource>) -> (r: Vec<ConfigSource>)
    ensures
        sorted_unique_by(
            r@.map_values(|c: ConfigSource| c@),
            v@.map_values(|c: ConfigSource| c@),
            |x: SourceV| source_key(x),
        ),
{
    let mut keys: Vec<String> = Vec::new();
    let mut k: usize = 0;
    while k < v.len()
        invariant
            k <= v@.len(),
            keys@.len() == k,
            forall|j: int| 0 <= j < k ==> #[trigger] keys@[j]@ == config_source_key(v@[j]),
        decreases v@.len() - k,
    {
        keys.push(config_source_key_of(&v[k]));
        k = k + 1;
    }
    let ghost items = v@;
    let ghost ks = keys@;
    let r = sort_dedup_keyed(v, keys);
    proof {
        lemma_sorted_unique(r@, items, ks, |x: ConfigSource| config_source_key(x));
        lemma_sorted_unique_views(
            r@,
            items,
            |c: ConfigSource| c@,
            |x: SourceV| source_key(x),
            |x: ConfigSource| config_source_key(x),
        );
    }
    r
}

// ---------------------------------------------------------------------------
// WASM targets
// ---------------------------------------------------------------------------

/// The WASM triple of a target table, if its key is one.
pub open spec fn table_wasm_triple(ts: CargoTargetSettings) -> Option<Seq<char>> {
    match ts.key {
        CargoTargetKey::Triple { triple } => if spec_is_wasm_target_triple(triple@) {
            Some(triple@)
        } else {
            None
        },
        _ => None,
    }
}

/// WASM build targets, in order.
pub open spec fn wasm_build_targets(t: Seq<String>) -> Seq<Seq<char>>
    decreases t.len(),
{
    if t.len() == 0 {
        seq![]
    } else {
        wasm_build_targets(t.drop_last()) + if spec_is_wasm_target_triple(t.last()@) {
            seq![t.last()@]
        } else {
            seq![]
        }
    }
}

/// WASM target-table triples, in order.
pub open spec fn wasm_table_triples(ts: Seq<CargoTargetSettings>) -> Seq<Seq<char>>
    decreases ts.len(),
{
    if ts.len() == 0 {
        seq![]
    } else {
        wasm_table_triples(ts.drop_last()) + match table_wasm_triple(ts.last()) {
            Some(t) => seq![t],
            None => seq![],
        }
    }
}

/// Every configured WASM triple, build targets first.
pub open spec fn wasm_names(build: CargoBuildSettings, ts: Seq<CargoTargetSettings>) -> Seq<Seq<char>> {
    wasm_build_targets(build.target@) + wasm_table_triples(ts)
}

/// Where `t` was configured, in origin order.
pub open spec fn wasm_origins(build: CargoBuildSettings, ts: Seq<CargoTargetSettings>, t: Seq<char>) -> Seq<
    WasmTargetOrigin,
> {
    (if wasm_build_targets(build.target@).contains(t) {
        seq![WasmTargetOrigin::BuildTarget]
    } else {
        seq![]
    }) + if wasm_table_triples(ts).contains(t) {
        seq![WasmTargetOrigin::TargetTable]
    } else {
        seq![]
    }
}

/// The build source once per build target equal to `t`.
pub open spec fn build_sources(targets: Seq<String>, src: Option<ConfigSource>, t: Seq<char>) -> Seq<SourceV>
    decreases targets.len(),
{
    if targets.len() == 0 {
        seq![]
    } else {
        build_sources(targets.drop_last(), src, t) + if targets.last()@ == t && src is Some {
            seq![src->0@]
        } else {
            seq![]
        }
    }
}

/// The source of every target table whose triple is `t`.
pub open spec fn table_sources(ts: Seq<CargoTargetSettings>, t: Seq<char>) -> Seq<SourceV>
    decreases ts.len(),
{
    if ts.len() == 0 {
        seq![]
    } else {
        table_sources(ts.drop_last(), t) + if table_wasm_triple(ts.last()) == Some(t) {
            seq![ts.last().source@]
        } else {
            seq![]
        }
    }
}

/// The sources recorded for WASM target `t`.
pub open spec fn wasm_sources(build: CargoBuildSettings, ts: Seq<CargoTargetSettings>, t: Seq<char>) -> Seq<SourceV> {
    build_sources(build.target@, build.source, t) + table_sources(ts, t)
}

fn clone_opt_source(o: &Option<ConfigSource>) -> (r: Option<ConfigSource>)
    ensures
        r is Some == o is Some,
        r is Some ==> r->0@ == o->0@,
{
    match o {
        Some(c) => Some(c.clone()),
        None => None,
    }
}

fn origins_and_sources(build: &CargoBuildSettings, targets: &[CargoTargetSettings], t: &str) -> (r: (
    Vec<WasmTargetOrigin>,
    Vec<ConfigSource>,
))
    requires
        spec_is_wasm_target_triple(t@),
    ensures
        r.0@ == wasm_origins(*build, targets@, t@),
        r.1@.map_values(|c: ConfigSource| c@) == wasm_sources(*build, targets@, t@),
{
    let mut sources: Vec<ConfigSource> = Vec::new();
    let mut in_build = false;
    let mut k: usize = 0;
    while k < build.target.len()
        invariant
            k <= build.target@.len(),
            spec_is_wasm_target_triple(t@),
            in_build == wasm_build_targets(build.target@.take(k as int)).contains(t@),
            sources@.map_values(|c: ConfigSource| c@) == build_sources(build.target@.take(k as int), build.source, t@),
        decreases build.target@.len() - k,
    {
        let ghost pre = build.target@.take(k as int);
        assert(build.target@.take(k + 1).drop_last() =~= pre);
        let ghost prev = sources@;
        let same = str_eq(build.target[k].as_str(), t);
        if same {
            in_build = true;
            match &build.source {
                Some(c) => {
                    sources.push(c.clone());
                    assert(sources@.map_values(|c: ConfigSource| c@) =~= prev.map_values(|c: ConfigSource| c@).push(c@));
                },
                None => {},
            }
        }
        proof {
            let nxt = build.target@.take(k + 1);
            assert(wasm_build_targets(nxt) == wasm_build_targets(pre) + if spec_is_wasm_target_triple(nxt.last()@) {
                seq![nxt.last()@]
            } else {
                seq![]
            });
            if same {
                assert(wasm_build_targets(nxt).last() == t@);
            } else {
                assert forall|x: Seq<char>| wasm_build_targets(nxt).contains(x) && x == t@ implies wasm_build_targets(pre).contains(x) by {
                    let w = choose|w: int| 0 <= w < wasm_build_targets(nxt).len() && wasm_build_targets(nxt)[w] == x;
                    assert(w < wasm_build_targets(pre).len());
                    assert(wasm_build_targets(pre)[w] == x);
                }
                if wasm_build_targets(pre).contains(t@) {
                    let w = choose|w: int| 0 <= w < wasm_build_targets(pre).len() && wasm_build_targets(pre)[w] == t@;
                    assert(wasm_build_targets(nxt)[w] == t@);
                }
            }
            if same && !wasm_build_targets(pre).contains(t@) {
                assert(wasm_build_targets(nxt)[wasm_build_targets(nxt).len() - 1] == t@);
            }
        }
        k = k + 1;
    }
    assert(build.target@.take(build.target@.len() as int) =~= build.target@);
    let ghost bs = sources@.map_values(|c: ConfigSource| c@);
    let mut in_table = false;
    let mut j: usize = 0;
    while j < targets.len()
        invariant
            j <= targets@.len(),
            spec_is_wasm_target_triple(t@),
            in_table == wasm_table_triples(targets@.take(j as int)).contains(t@),
            sources@.map_values(|c: ConfigSource| c@) == bs + table_sources(targets@.take(j as int), t@),
        decreases targets@.len() - j,
    {
        let ghost pre = targets@.take(j as int);
        let ghost nxt = targets@.take(j + 1);
        assert(nxt.drop_last() =~= pre);
        let ghost prev = sources@;
        let mut same = false;
        match &targets[j].key {
            CargoTargetKey::Triple { triple } => {
                if str_eq(triple.as_str(), t) {
                    same = true;
                }
            },
            _ => {},
        }
        assert(same == (table_wasm_triple(nxt.last()) == Some(t@)));
        if same {
            in_table = true;
            sources.push(targets[j].source.clone());
            assert(sources@.map_values(|c: ConfigSource| c@) =~= prev.map_values(|c: ConfigSource| c@).push(
                targets@[j as int].source@,
            ));
        }
        proof {
            let a = wasm_table_triples(pre);
            let b = wasm_table_triples(nxt);
            assert(b == a + match table_wasm_triple(nxt.last()) {
                Some(x) => seq![x],
                None => seq![],
            });
            if same {
                assert(b[b.len() - 1] == t@);
            } else {
                if b.contains(t@) {
                    let w = choose|w: int| 0 <= w < b.len() && b[w] == t@;
                    if w >= a.len() {
                        assert(table_wasm_triple(nxt.last()) == Some(t@));
                    }
                    assert(a[w] == t@);
                }
                if a.contains(t@) {
                    let w = choose|w: int| 0 <= w < a.len() && a[w] == t@;
                    assert(b[w] == t@);
                }
            }
            assert(sources@.map_values(|c: ConfigSource| c@) =~= bs + table_sources(nxt, t@));
        }
        j = j + 1;
    }
    assert(targets@.take(targets@.len() as int) =~= targets@);
    let mut origins: Vec<WasmTargetOrigin> = Vec::new();
    if in_build {
        origins.push(WasmTargetOrigin::BuildTarget);
    }
    if in_table {
        origins.push(WasmTargetOrigin::TargetTable);
    }
    assert(origins@ =~= wasm_origins(*build, targets@, t@));
    (origins, sources)
}

fn collect_wasm_names(build: &CargoBuildSettings, targets: &[CargoTargetSettings]) -> (r: Vec<String>)
    ensures
        views(r@) == wasm_names(*build, targets@),
{
    let mut out: Vec<String> = Vec::new();
    let mut k: usize = 0;
    while k < build.target.len()
        invariant
            k <= build.target@.len(),
            views(out@) == wasm_build_targets(build.target@.take(k as int)),
        decreases build.target@.len() - k,
    {
        assert(build.target@.take(k + 1).drop_last() =~= build.target@.take(k as int));
        let ghost prev = out@;
        if is_wasm_target_triple(build.target[k].as_str()) {
            out.push(build.target[k].clone());
            assert(views(out@) =~= views(prev).push(build.target@[k as int]@));
        }
        k = k + 1;
    }
    assert(build.target@.take(build.target@.len() as int) =~= build.target@);
    let ghost bt = views(out@);
    let mut j: usize = 0;
    while j < targets.len()
        invariant
            j <= targets@.len(),
            bt == wasm_build_targets(build.target@),
            views(out@) == bt + wasm_table_triples(targets@.take(j as int)),
        decreases targets@.len() - j,
    {
        assert(targets@.take(j + 1).drop_last() =~= targets@.take(j as int));
        let ghost prev = out@;
        match &targets[j].key {
            CargoTargetKey::Triple { triple } => {
                if is_wasm_target_triple(triple.as_str()) {
                    out.push(triple.clone());
                    assert(views(out@) =~= views(prev).push(triple@));
                }
            },
            _ => {},
        }
        assert(views(out@) =~= bt + wasm_table_triples(targets@.take(j + 1)));
        j = j + 1;
    }
    assert(targets@.take(targets@.len() as int) =~= targets@);
    out
}

/// `r` is the WASM target evidence of the settings: one entry per
/// distinct WASM triple in triple order, with its origins and its sorted,
/// duplicate-free sources.
pub open spec fn wasm_targets_are(r: Seq<WasmTargetEvidence>, build: CargoBuildSettings, ts: Seq<CargoTargetSettings>) -> bool {
    &&& r.len() == sorted_dedup(wasm_names(build, ts)).len()
    &&& forall|k: int|
        0 <= k < r.len() ==> {
            let t = sorted_dedup(wasm_names(build, ts))[k];
            &&& (#[trigger] r[k]).target@ == t
            &&& r[k].origins@ == wasm_origins(build, ts, t)
            &&& sorted_unique_by(
                r[k].sources@.map_values(|c: ConfigSource| c@),
                wasm_sources(build, ts, t),
                |x: SourceV| source_key(x),
            )
        }
}

/// Configured WASM targets: every validated `wasm32-*`/`wasm64-*` build
/// target and target-table triple once, in triple order, with its origins
/// and its sorted, duplicate-free config sources.
pub fn derive_wasm_targets(build: &CargoBuildSettings, targets: &[CargoTargetSettings]) -> (r: Vec<WasmTargetEvidence>)
    ensures
        wasm_targets_are(r@, *build, targets@),
{
    let names = sort_dedup_strings(collect_wasm_names(build, targets));
    let ghost sd = sorted_dedup(wasm_names(*build, targets@));
    let mut out: Vec<WasmTargetEvidence> = Vec::new();
    let mut k: usize = 0;
    while k < names.len()
        invariant
            k <= names@.len(),
            views(names@) == sd,
            sd == sorted_dedup(wasm_names(*build, targets@)),
            is_sorted_dedup_of(sd, wasm_names(*build, targets@)),
            out@.len() == k,
            forall|q: int|
                0 <= q < k ==> {
                    let t = sd[q];
                    &&& (#[trigger] out@[q]).target@ == t
                    &&& out@[q].origins@ == wasm_origins(*build, targets@, t)
                    &&& sorted_unique_by(
                        out@[q].sources@.map_values(|c: ConfigSource| c@),
                        wasm_sources(*build, targets@, t),
                        |x: SourceV| source_key(x),
                    )
                },
        decreases names@.len() - k,
    {
        let t = names[k].as_str();
        assert(sd[k as int] == names@[k as int]@);
        proof {
            assert(sd.contains(sd[k as int]));
            assert(wasm_names(*build, targets@).contains(t@));
            let w = choose|w: int| 0 <= w < wasm_names(*build, targets@).len() && wasm_names(*build, targets@)[w] == t@;
            lemma_wasm_names_are_wasm(*build, targets@, w);
        }
        let (origins, sources) = origins_and_sources(build, targets, t);
        let sorted = sort_config_sources(sources);
        out.push(WasmTargetEvidence { target: names[k].clone(), origins, sources: sorted });
        k = k + 1;
    }
    out
}

proof fn lemma_build_wasm(t: Seq<String>, w: int)
    requires
        0 <= w < wasm_build_targets(t).len(),
    ensures
        spec_is_wasm_target_triple(wasm_build_targets(t)[w]),
    decreases t.len(),
{
    if t.len() > 0 {
        let p = wasm_build_targets(t.drop_last());
        if w < p.len() {
            lemma_build_wasm(t.drop_last(), w);
        }
    }
}

proof fn lemma_table_wasm(ts: Seq<CargoTargetSettings>, w: int)
    requires
        0 <= w < wasm_table_triples(ts).len(),
    ensures
        spec_is_wasm_target_triple(wasm_table_triples(ts)[w]),
    decreases ts.len(),
{
    if ts.len() > 0 {
        let p = wasm_table_triples(ts.drop_last());
        if w < p.len() {
            lemma_table_wasm(ts.drop_last(), w);
        }
    }
}

proof fn lemma_wasm_names_are_wasm(build: CargoBuildSettings, ts: Seq<CargoTargetSettings>, w: int)
    requires
        0 <= w < wasm_names(build, ts).len(),
    ensures
        spec_is_wasm_target_triple(wasm_names(build, ts)[w]),
{
    let b = wasm_build_targets(build.target@);
    if w < b.len() {
        lemma_build_wasm(build.target@, w);
    } else {
        lemma_table_wasm(ts, w - b.len());
    }
}

// ---------------------------------------------------------------------------
// Native requirements
// ---------------------------------------------------------------------------

/// View of a native requirement.
pub enum NativeV {
    /// `package.links`: links key, package, manifest path, source.
    CargoLinks(Seq<char>, Seq<char>, Seq<char>, SourceV),
    /// Native-build helper: alias, package, helper kind, dependency kind,
    /// target selector, source.
    SystemDependency(Seq<char>, Seq<char>, SystemDependencyKind, DependencyKind, Option<Seq<char>>, SourceV),
    /// Configured linker: target key, basename, config source.
    ConfiguredLinker(TargetKeyV, Seq<char>, SourceV),
    /// Native rustflags: scope (`None` for `[build]`), native flag count,
    /// identity, config source.
    NativeRustflags(Option<TargetKeyV>, usize, Seq<char>, SourceV),
}

/// View of a native requirement.
pub open spec fn native_view(n: NativeRequirement) -> NativeV {
    match n {
        NativeRequirement::CargoLinks { links_key, package, manifest_path, source } => NativeV::CargoLinks(
            links_key@,
            package@,
            manifest_path@,
            source@,
        ),
        NativeRequirement::SystemDependency { alias, package, system_kind, dependency_kind, target, source } =>
            NativeV::SystemDependency(alias@, package@, system_kind, dependency_kind, opt_view(target), source@),
        NativeRequirement::ConfiguredLinker { target_key, basename, config } => NativeV::ConfiguredLinker(
            target_key@,
            basename@,
            config@,
        ),
        NativeRequirement::NativeRustflags { scope, flag_count, identity, config } => NativeV::NativeRustflags(
            match scope {
                RustflagsScope::Build => None,
                RustflagsScope::Target { key } => Some(key@),
            },
            flag_count,
            identity@,
            config@,
        ),
    }
}

/// Views of native requirements.
pub open spec fn native_views(v: Seq<NativeRequirement>) -> Seq<NativeV> {
    v.map_values(|n: NativeRequirement| native_view(n))
}

/// The requirements of one package: its `links` key, then its native-build
/// helper dependencies in order.
pub open spec fn package_native(p: CargoPackage) -> Seq<NativeV> {
    (match p.native_link {
        Some(l) => seq![NativeV::CargoLinks(l.links_key@, p.name@, p.manifest_path@, l.manifest_source@)],
        None => seq![],
    }) + p.system_dependencies@.map_values(
        |s: crate::inspect::cargo::types::SystemDependencySignal|
            NativeV::SystemDependency(
                s.alias@,
                s.package@,
                s.system_kind,
                s.dependency_kind,
                opt_view(s.target),
                s.manifest_source@,
            ),
    )
}

/// The requirements of packages, in order.
pub open spec fn packages_native(ps: Seq<CargoPackage>) -> Seq<NativeV>
    decreases ps.len(),
{
    if ps.len() == 0 {
        seq![]
    } else {
        packages_native(ps.drop_last()) + package_native(ps.last())
    }
}

/// Configured linkers of target tables, in order.
pub open spec fn linker_native(ts: Seq<CargoTargetSettings>) -> Seq<NativeV>
    decreases ts.len(),
{
    if ts.len() == 0 {
        seq![]
    } else {
        linker_native(ts.drop_last()) + match ts.last().linker {
            Some(l) => seq![NativeV::ConfiguredLinker(ts.last().key@, l.basename@, ts.last().source@)],
            None => seq![],
        }
    }
}

/// The native-rustflags requirement of a scope, when its flags link
/// natively and a config source is known.
pub open spec fn rustflags_native(rf: RustflagsEvidence, scope: Option<TargetKeyV>, config: Option<SourceV>) -> Seq<
    NativeV,
> {
    if rf.has_native_linking && rf.native_flag_count != 0 && config is Some {
        seq![NativeV::NativeRustflags(scope, rf.native_flag_count, rf.native_identity@, config->0)]
    } else {
        seq![]
    }
}

/// Native-rustflags requirements of target tables, in order.
pub open spec fn table_rustflags_native(ts: Seq<CargoTargetSettings>) -> Seq<NativeV>
    decreases ts.len(),
{
    if ts.len() == 0 {
        seq![]
    } else {
        table_rustflags_native(ts.drop_last()) + rustflags_native(
            ts.last().rustflags,
            Some(ts.last().key@),
            Some(ts.last().source@),
        )
    }
}

/// Native requirements before ordering: packages (root first), configured
/// linkers, `[build]` rustflags, then each table's rustflags.
pub open spec fn native_unsorted(cargo: CargoInspection, ts: Seq<CargoTargetSettings>, build: CargoBuildSettings) -> Seq<
    NativeV,
> {
    packages_native(seq![cargo.root_package] + cargo.workspace_members@) + linker_native(ts) + rustflags_native(
        build.rustflags,
        None,
        match build.source {
            Some(c) => Some(c@),
            None => None,
        },
    ) + table_rustflags_native(ts)
}

/// `(rank, text)` of a target key view.
pub open spec fn target_key_repr(k: TargetKeyV) -> (int, Seq<char>) {
    match k {
        TargetKeyV::Triple(t) => (0, t),
        TargetKeyV::Cfg(d, i) => (1, d + seq!['\u{1f}'] + i),
    }
}

/// Order key of a native requirement: variant, two texts, two ranks, the
/// source path, and the flag count.
pub open spec fn native_key(n: NativeV) -> Seq<char> {
    let (v, a, b, c, d, e, f) = match n {
        NativeV::CargoLinks(links, package, manifest, _) => (0int, package, links, 0int, 0int, manifest, 0int),
        NativeV::SystemDependency(alias, package, sk, dk, _, src) => (
            1,
            package,
            alias,
            super::derive::spec_system_dep_kind_rank(sk) as int,
            dk.spec_rank() as int,
            src.0,
            0,
        ),
        NativeV::ConfiguredLinker(key, basename, cfg) => (
            2,
            target_key_repr(key).1,
            basename,
            target_key_repr(key).0,
            0,
            cfg.0,
            0,
        ),
        NativeV::NativeRustflags(scope, count, _, cfg) => match scope {
            None => (3, seq![], seq![], 0, 0, cfg.0, count as int),
            Some(key) => (
                3,
                seq![if target_key_repr(key).0 == 0 { '0' } else { '1' }, '\u{1f}'] + target_key_repr(key).1,
                seq![],
                1,
                0,
                cfg.0,
                count as int,
            ),
        },
    };
    index_key(v) + text_key(a) + text_key(b) + index_key(c) + index_key(d) + text_key(e) + digits_key(f, 16)
}

/// Native requirements: package `links` keys and native-build helper
/// dependencies (root package first), configured target linkers, and
/// native-linking rustflags of `[build]` and each target table, sorted
/// stably by [`native_key`] with adjacent duplicates removed.
pub open spec fn native_requirements(
    cargo: CargoInspection,
    ts: Seq<CargoTargetSettings>,
    build: CargoBuildSettings,
) -> Seq<NativeV> {
    let u = native_unsorted(cargo, ts, build);
    dedup_adjacent(sorted_by_key(text_keys(u.map_values(|n: NativeV| native_key(n))), u.len() as int).map_values(
        |j: int| u[j],
    ))
}

fn push_package_native(p: &CargoPackage, out: &mut Vec<NativeRequirement>)
    ensures
        native_views(final(out)@) == native_views(old(out)@) + package_native(*p),
{
    let ghost o = native_views(out@);
    match &p.native_link {
        Some(l) => {
            out.push(
                NativeRequirement::CargoLinks {
                    links_key: l.links_key.clone(),
                    package: p.name.clone(),
                    manifest_path: p.manifest_path.clone(),
                    source: l.manifest_source.clone(),
                },
            );
        },
        None => {},
    }
    let ghost mid = native_views(out@);
    assert(mid =~= o + match p.native_link {
        Some(l) => seq![NativeV::CargoLinks(l.links_key@, p.name@, p.manifest_path@, l.manifest_source@)],
        None => seq![],
    });
    let deps = &p.system_dependencies;
    let mut k: usize = 0;
    while k < deps.len()
        invariant
            k <= deps@.len(),
            deps == &p.system_dependencies,
            native_views(out@) == mid + deps@.take(k as int).map_values(
                |s: crate::inspect::cargo::types::SystemDependencySignal|
                    NativeV::SystemDependency(
                        s.alias@,
                        s.package@,
                        s.system_kind,
                        s.dependency_kind,
                        opt_view(s.target),
                        s.manifest_source@,
                    ),
            ),
        decreases deps@.len() - k,
    {
        let s = &deps[k];
        let ghost prev = out@;
        out.push(
            NativeRequirement::SystemDependency {
                alias: s.alias.clone(),
                package: s.package.clone(),
                system_kind: s.system_kind,
                dependency_kind: s.dependency_kind,
                target: crate::text::clone_opt(&s.target),
                source: s.manifest_source.clone(),
            },
        );
        assert(native_views(out@) =~= mid + deps@.take(k + 1).map_values(
            |s: crate::inspect::cargo::types::SystemDependencySignal|
                NativeV::SystemDependency(
                    s.alias@,
                    s.package@,
                    s.system_kind,
                    s.dependency_kind,
                    opt_view(s.target),
                    s.manifest_source@,
                ),
        )) by {
            assert(native_views(out@) =~= native_views(prev).push(native_view(out@.last())));
        }
        k = k + 1;
    }
    assert(deps@.take(deps@.len() as int) =~= deps@);
}

fn push_rustflags(
    out: &mut Vec<NativeRequirement>,
    rf: &RustflagsEvidence,
    scope: RustflagsScope,
    config: Option<&ConfigSource>,
)
    ensures
        native_views(final(out)@) == native_views(old(out)@) + rustflags_native(
            *rf,
            match scope {
                RustflagsScope::Build => None,
                RustflagsScope::Target { key } => Some(key@),
            },
            match config {
                Some(c) => Some(c@),
                None => None,
            },
        ),
{
    let ghost o = out@;
    push_native_rustflags(out, rf, scope, config);
    if rf.has_native_linking && rf.native_flag_count != 0 && config.is_some() {
        assert(native_views(out@) =~= native_views(o).push(native_view(out@.last()))) by {
            assert(out@.take(o.len() as int) == o);
            assert forall|q: int| 0 <= q < o.len() implies out@[q] == o[q] by {
                assert(out@.take(o.len() as int)[q] == out@[q]);
            }
        }
    } else {
        assert(native_views(out@) =~= native_views(o) + Seq::<NativeV>::empty());
    }
}

fn native_key_of(n: &NativeRequirement) -> (r: String)
    ensures
        r@ == native_key(native_view(*n)),
{
    let mut out: Vec<char> = Vec::new();
    match n {
        NativeRequirement::CargoLinks { links_key, package, manifest_path, .. } => {
            push_index(&mut out, 0);
            push_text_key(&mut out, package.as_str());
            push_text_key(&mut out, links_key.as_str());
            push_index(&mut out, 0);
            push_index(&mut out, 0);
            push_text_key(&mut out, manifest_path.as_str());
            push_digits(&mut out, 0, 16);
        },
        NativeRequirement::SystemDependency { alias, package, system_kind, dependency_kind, source, .. } => {
            push_index(&mut out, 1);
            push_text_key(&mut out, package.as_str());
            push_text_key(&mut out, alias.as_str());
            push_index(&mut out, super::derive::system_dep_kind_rank(*system_kind) as u32);
            push_index(&mut out, super::derive::dep_kind_rank(*dependency_kind) as u32);
            push_text_key(&mut out, source.path.as_str());
            push_digits(&mut out, 0, 16);
        },
        NativeRequirement::ConfiguredLinker { target_key, basename, config } => {
            let (kr, ks) = target_key_sort_repr(target_key);
            push_index(&mut out, 2);
            push_text_key(&mut out, ks.as_str());
            push_text_key(&mut out, basename.as_str());
            push_index(&mut out, kr as u32);
            push_index(&mut out, 0);
            push_text_key(&mut out, config.path.as_str());
            push_digits(&mut out, 0, 16);
        },
        NativeRequirement::NativeRustflags { scope, flag_count, config, .. } => {
            let (sr, ss) = scope_sort_repr(scope);
            push_index(&mut out, 3);
            push_text_key(&mut out, ss.as_str());
            push_text_key(&mut out, "");
            push_index(&mut out, sr as u32);
            push_index(&mut out, 0);
            push_text_key(&mut out, config.path.as_str());
            push_digits(&mut out, *flag_count as u64, 16);
        },
    }
    proof {
        reveal_strlit("");
    }
    assert(out@ =~= native_key(native_view(*n)));
    string_of(out.as_slice())
}

fn opt_str_eq(a: &Option<String>, b: &Option<String>) -> (r: bool)
    ensures
        r == (opt_view(*a) == opt_view(*b)),
{
    match (a, b) {
        (None, None) => true,
        (Some(x), Some(y)) => str_eq(x.as_str(), y.as_str()),
        _ => false,
    }
}

fn source_eq(pa: &str, pb: &str, la: Option<usize>, lb: Option<usize>, ha: &str, hb: &str, na: u64, nb: u64) -> (r: bool)
    ensures
        r == ((pa@, la, ha@, na) == (pb@, lb, hb@, nb)),
{
    let lines = match (la, lb) {
        (None, None) => true,
        (Some(x), Some(y)) => x == y,
        _ => false,
    };
    str_eq(pa, pb) && lines && str_eq(ha, hb) && na == nb
}

fn key_eq(a: &CargoTargetKey, b: &CargoTargetKey) -> (r: bool)
    ensures
        r == (a@ == b@),
{
    match (a, b) {
        (CargoTargetKey::Triple { triple: x }, CargoTargetKey::Triple { triple: y }) => str_eq(x.as_str(), y.as_str()),
        (CargoTargetKey::Cfg { display: d1, identity: i1 }, CargoTargetKey::Cfg { display: d2, identity: i2 }) =>
            str_eq(d1.as_str(), d2.as_str()) && str_eq(i1.as_str(), i2.as_str()),
        _ => false,
    }
}

fn native_eq(a: &NativeRequirement, b: &NativeRequirement) -> (r: bool)
    ensures
        r == (native_view(*a) == native_view(*b)),
{
    match (a, b) {
        (
            NativeRequirement::CargoLinks { links_key: k1, package: p1, manifest_path: m1, source: s1 },
            NativeRequirement::CargoLinks { links_key: k2, package: p2, manifest_path: m2, source: s2 },
        ) => str_eq(k1.as_str(), k2.as_str()) && str_eq(p1.as_str(), p2.as_str()) && str_eq(m1.as_str(), m2.as_str())
            && source_eq(s1.path.as_str(), s2.path.as_str(), s1.line, s2.line, s1.content_hash.as_str(), s2.content_hash.as_str(), s1.byte_count, s2.byte_count),
        (
            NativeRequirement::SystemDependency { alias: a1, package: p1, system_kind: k1, dependency_kind: d1, target: t1, source: s1 },
            NativeRequirement::SystemDependency { alias: a2, package: p2, system_kind: k2, dependency_kind: d2, target: t2, source: s2 },
        ) => str_eq(a1.as_str(), a2.as_str()) && str_eq(p1.as_str(), p2.as_str()) && *k1 == *k2 && *d1 == *d2
            && opt_str_eq(t1, t2) && source_eq(s1.path.as_str(), s2.path.as_str(), s1.line, s2.line, s1.content_hash.as_str(), s2.content_hash.as_str(), s1.byte_count, s2.byte_count),
        (
            NativeRequirement::ConfiguredLinker { target_key: k1, basename: b1, config: c1 },
            NativeRequirement::ConfiguredLinker { target_key: k2, basename: b2, config: c2 },
        ) => key_eq(k1, k2) && str_eq(b1.as_str(), b2.as_str()) && source_eq(c1.path.as_str(), c2.path.as_str(), c1.line, c2.line, c1.content_hash.as_str(), c2.content_hash.as_str(), c1.byte_count, c2.byte_count),
        (
            NativeRequirement::NativeRustflags { scope: sc1, flag_count: n1, identity: i1, config: c1 },
            NativeRequirement::NativeRustflags { scope: sc2, flag_count: n2, identity: i2, config: c2 },
        ) => {
            let scopes = match (sc1, sc2) {
                (RustflagsScope::Build, RustflagsScope::Build) => true,
                (RustflagsScope::Target { key: x }, RustflagsScope::Target { key: y }) => key_eq(x, y),
                _ => false,
            };
            scopes && *n1 == *n2 && str_eq(i1.as_str(), i2.as_str()) && source_eq(c1.path.as_str(), c2.path.as_str(), c1.line, c2.line, c1.content_hash.as_str(), c2.content_hash.as_str(), c1.byte_count, c2.byte_count)
        },
        _ => false,
    }
}

fn collect_native(
    cargo: &CargoInspection,
    targets: &[CargoTargetSettings],
    build: &CargoBuildSettings,
) -> (out: Vec<NativeRequirement>)
    ensures
        native_views(out@) == native_unsorted(*cargo, targets@, *build),
{
    let mut out: Vec<NativeRequirement> = Vec::new();
    let ghost pkgs = seq![cargo.root_package] + cargo.workspace_members@;
    push_package_native(&cargo.root_package, &mut out);
    assert(pkgs.take(1).drop_last() =~= Seq::<CargoPackage>::empty());
    assert(pkgs.take(1).last() == cargo.root_package);
    assert(packages_native(Seq::<CargoPackage>::empty()) =~= Seq::<NativeV>::empty());
    assert(native_views(out@) =~= packages_native(pkgs.take(1)));
    let mut k: usize = 0;
    while k < cargo.workspace_members.len()
        invariant
            k <= cargo.workspace_members@.len(),
            pkgs == seq![cargo.root_package] + cargo.workspace_members@,
            native_views(out@) == packages_native(pkgs.take(k + 1)),
        decreases cargo.workspace_members@.len() - k,
    {
        assert(pkgs.take(k + 2).drop_last() =~= pkgs.take(k + 1));
        assert(pkgs.take(k + 2).last() == cargo.workspace_members@[k as int]);
        push_package_native(&cargo.workspace_members[k], &mut out);
        k = k + 1;
    }
    assert(pkgs.take(cargo.workspace_members@.len() + 1int) =~= pkgs);
    let ghost after_pkgs = native_views(out@);
    let mut j: usize = 0;
    while j < targets.len()
        invariant
            j <= targets@.len(),
            native_views(out@) == after_pkgs + linker_native(targets@.take(j as int)),
        decreases targets@.len() - j,
    {
        assert(targets@.take(j + 1).drop_last() =~= targets@.take(j as int));
        let ts = &targets[j];
        let ghost prev = native_views(out@);
        match &ts.linker {
            Some(l) => {
                out.push(
                    NativeRequirement::ConfiguredLinker {
                        target_key: ts.key.clone(),
                        basename: l.basename.clone(),
                        config: ts.source.clone(),
                    },
                );
                assert(native_views(out@) =~= prev.push(native_view(out@.last())));
            },
            None => {},
        }
        assert(native_views(out@) =~= after_pkgs + linker_native(targets@.take(j + 1)));
        j = j + 1;
    }
    assert(targets@.take(targets@.len() as int) =~= targets@);
    push_rustflags(&mut out, &build.rustflags, RustflagsScope::Build, build.source.as_ref());
    let ghost after_build = native_views(out@);
    let mut j: usize = 0;
    while j < targets.len()
        invariant
            j <= targets@.len(),
            native_views(out@) == after_build + table_rustflags_native(targets@.take(j as int)),
        decreases targets@.len() - j,
    {
        assert(targets@.take(j + 1).drop_last() =~= targets@.take(j as int));
        let ts = &targets[j];
        push_rustflags(&mut out, &ts.rustflags, RustflagsScope::Target { key: ts.key.clone() }, Some(&ts.source));
        assert(native_views(out@) =~= after_build + table_rustflags_native(targets@.take(j + 1)));
        j = j + 1;
    }
    assert(targets@.take(targets@.len() as int) =~= targets@);
    assert(native_views(out@) =~= native_unsorted(*cargo, targets@, *build));
    out
}

fn sort_dedup_native(out: Vec<NativeRequirement>) -> (result: Vec<NativeRequirement>)
    ensures
        native_views(result@) == ({
            let u = native_views(out@);
            dedup_adjacent(sorted_by_key(text_keys(u.map_values(|n: NativeV| native_key(n))), u.len() as int).map_values(
                |j: int| u[j],
            ))
        }),
{
    let ghost u = native_views(out@);
    let mut keys: Vec<String> = Vec::new();
    let mut q: usize = 0;
    while q < out.len()
        invariant
            q <= out@.len(),
            u == native_views(out@),
            keys@.len() == q,
            forall|i: int| 0 <= i < q ==> #[trigger] keys@[i]@ == native_key(u[i]),
        decreases out@.len() - q,
    {
        keys.push(native_key_of(&out[q]));
        q = q + 1;
    }
    assert(views(keys@) =~= u.map_values(|n: NativeV| native_key(n)));
    let ghost items = out@;
    let sorted = stable_sort_by_text(out, keys);
    let ghost idx = sorted_by_key(text_keys(u.map_values(|n: NativeV| native_key(n))), u.len() as int);
    let ghost sv = native_views(sorted@);
    assert forall|i: int| 0 <= i < sv.len() implies sv[i] == u[idx[i]] by {
        assert(0 <= idx[i] < u.len());
        assert(sorted@[i] == items[idx[i]]);
    }
    assert(sv =~= idx.map_values(|i: int| u[i]));
    let mut rest = sorted;
    let mut result: Vec<NativeRequirement> = Vec::new();
    let mut i: usize = 0;
    let n = rest.len();
    while rest.len() > 0
        invariant
            rest@.len() + i == n,
            n == sv.len(),
            native_views(rest@) == sv.skip(i as int),
            native_views(result@) == dedup_adjacent(sv.take(i as int)),
            i > 0 ==> result@.len() > 0 && native_view(result@.last()) == sv[i - 1],
        decreases rest@.len(),
    {
        let ghost rb = rest@;
        let item = rest.remove(0);
        assert(native_view(item) == sv[i as int]) by {
            assert(native_views(rb)[0] == sv.skip(i as int)[0]);
        }
        assert forall|x: int| 0 <= x < rest@.len() implies native_views(rest@)[x] == sv.skip(i + 1)[x] by {
            assert(rest@[x] == rb[x + 1]);
            assert(native_views(rb)[x + 1] == sv.skip(i as int)[x + 1]);
        }
        assert(native_views(rest@) =~= sv.skip(i + 1));
        assert(sv.take(i + 1).drop_last() =~= sv.take(i as int));
        let ghost prev = native_views(result@);
        let dup = i > 0 && native_eq(&item, &result[result.len() - 1]);
        if !dup {
            result.push(item);
            assert(native_views(result@) =~= prev.push(sv[i as int]));
        }
        proof {
            if dup {
                assert(sv.take(i + 1)[i as int] == sv.take(i + 1)[i - 1]);
            }
        }
        i = i + 1;
    }
    assert(sv.take(n as int) =~= sv);
    result
}

/// Native/linker requirements (see [`native_requirements`]).
pub fn derive_native_requirements(
    cargo: &CargoInspection,
    targets: &[CargoTargetSettings],
    build: &CargoBuildSettings,
) -> (r: Vec<NativeRequirement>)
    ensures
        native_views(r@) == native_requirements(*cargo, targets@, *build),
{
    let out = collect_native(cargo, targets, build);
    sort_dedup_native(out)
}

} // verus!
