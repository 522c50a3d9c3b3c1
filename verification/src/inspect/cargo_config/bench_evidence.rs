//! Benchmark evidence: Cargo `[[bench]]` declarations joined with Rust
//! `benches/` source classifications.

use vstd::prelude::*;

use super::derive::{
    conventional_bench_name, join_pkg_path, package_dir, spec_conventional_bench_name, spec_join_pkg_path,
    spec_package_dir,
};
use super::evidence::{push_source_key, source_key, SourceV};
use super::source_evidence::opt_chars;
use super::types::{BenchmarkEvidence, BenchmarkStatus};
use crate::inspect::cargo::types::{CargoInspection, CargoPackage};
use crate::inspect::npm::typescript::imports::LocV;
use crate::inspect::npm::typescript::keys::{loc_key, push_loc_key};
use crate::inspect::rust::types::{RustFileKind, RustSourceInspection};
use crate::inspect::snapshot::SourceLocation;
use crate::order::{char_lex_lt, sort_dedup_keyed, sort_dedup_strings, sorted_dedup, views};
use crate::sortkey::{
    has_key, lemma_sorted_unique_covers, lemma_text_key_prefix_free, push_texts_key, texts_key,
    index_key, lemma_sorted_unique, lemma_sorted_unique_views, push_index, push_text_key, sorted_unique_by, text_key,
};
use crate::text::{str_eq, string_of};

verus! {

/// The stem of the last component of a path (`Path::file_stem`).
pub uninterp spec fn path_file_stem(p: Seq<char>) -> Option<Seq<char>>;

/// Index of the last `c` in `s`, or -1 when there is none.
pub open spec fn last_index_of(s: Seq<char>, c: char) -> int
    decreases s.len(),
{
    if s.len() == 0 {
        -1
    } else if s.last() == c {
        s.len() - 1
    } else {
        last_index_of(s.drop_last(), c)
    }
}

/// The index of the last occurrence is -1 or within the text.
pub proof fn lemma_last_index_of_bounds(s: Seq<char>, c: char)
    ensures
        -1 <= last_index_of(s, c) < s.len(),
    decreases s.len(),
{
    if s.len() > 0 {
        lemma_last_index_of_bounds(s.drop_last(), c);
    }
}

/// The file name of a `/`-separated path: its last component, where empty
/// and `.` components do not count; none when that is `..`, or when no
/// component is left (an empty path, `.`, or the root).
pub open spec fn slash_file_name(p: Seq<char>) -> Option<Seq<char>>
    decreases p.len(),
{
    let k = last_index_of(p, '/');
    let seg = p.skip(k + 1);
    if seg.len() == 0 || seg == "."@ {
        if k < 0 {
            None
        } else {
            proof {
                lemma_last_index_of_bounds(p, '/');
            }
            slash_file_name(p.take(k))
        }
    } else if seg == ".."@ {
        None
    } else {
        Some(seg)
    }
}

/// The stem of a file name: the part before its last `.`, or the whole name
/// when it has no `.` or only a leading one.
pub open spec fn name_stem(n: Seq<char>) -> Seq<char> {
    let d = last_index_of(n, '.');
    if d <= 0 {
        n
    } else {
        n.take(d)
    }
}

/// The stem of the file name of a `/`-separated path.
pub open spec fn slash_file_stem(p: Seq<char>) -> Option<Seq<char>> {
    match slash_file_name(p) {
        Some(n) => Some(name_stem(n)),
        None => None,
    }
}

/// The stem of the last component of `path`: its file name without the
/// extension (`std::path::Path::file_stem`). For a path without a backslash or `:`,
/// which every platform splits at `/` alone, the result is stated by
/// [`slash_file_stem`]; for others it follows the path rules of the target
/// the crate is built for, and is only named.
#[verifier::external_body]
fn file_stem(path: &str) -> (r: Option<String>)
    ensures
        opt_chars(r) == path_file_stem(path@),
        !path@.contains('\\') && !path@.contains(':') ==> opt_chars(r) == slash_file_stem(path@),
{
    std::path::Path::new(path).file_stem().and_then(|s| s.to_str()).map(|s| s.to_string())
}

/// View of a bench status.
pub enum StatusV {
    /// Declared, source found.
    DeclaredWithSource,
    /// Declared, source missing: the declared path.
    DeclaredMissingSource(Seq<char>),
    /// Found by convention only.
    ConventionalUndeclared,
}

/// View of benchmark evidence: package, name, path, status, harness,
/// required features, source location, declaration source.
pub type BenchV = (Seq<char>, Seq<char>, Seq<char>, StatusV, bool, Seq<Seq<char>>, Option<LocV>, Option<SourceV>);

/// View of benchmark evidence.
pub open spec fn bench_view(b: BenchmarkEvidence) -> BenchV {
    (
        b.package@,
        b.name@,
        b.path@,
        match b.status {
            BenchmarkStatus::DeclaredWithSource => StatusV::DeclaredWithSource,
            BenchmarkStatus::DeclaredMissingSource { declared_path } => StatusV::DeclaredMissingSource(declared_path@),
            BenchmarkStatus::ConventionalUndeclared => StatusV::ConventionalUndeclared,
        },
        b.harness,
        views(b.required_features@),
        match b.source {
            Some(l) => Some(l@),
            None => None,
        },
        match b.declaration_source {
            Some(s) => Some(s@),
            None => None,
        },
    )
}

/// Key of a bench status.
pub open spec fn status_key(s: StatusV) -> Seq<char> {
    match s {
        StatusV::DeclaredWithSource => index_key(0),
        StatusV::DeclaredMissingSource(p) => index_key(1) + text_key(p),
        StatusV::ConventionalUndeclared => index_key(2),
    }
}

/// Key of an optional location.
pub open spec fn opt_loc_key(o: Option<LocV>) -> Seq<char> {
    match o {
        None => seq!['\u{0}'],
        Some(l) => seq!['\u{1}'] + loc_key(l),
    }
}

/// Key of an optional manifest source.
pub open spec fn opt_source_key(o: Option<SourceV>) -> Seq<char> {
    match o {
        None => seq!['\u{0}'],
        Some(s) => seq!['\u{1}'] + source_key(s),
    }
}

/// Order key of benchmark evidence: its fields in declaration order.
pub open spec fn bench_key(b: BenchV) -> Seq<char> {
    text_key(b.0) + text_key(b.1) + text_key(b.2) + status_key(b.3) + index_key(
        if b.4 {
            1
        } else {
            0
        },
    ) + texts_key(b.5) + opt_loc_key(b.6) + opt_source_key(b.7)
}

/// The last accepted input file with `path`.
pub open spec fn last_input(files: Seq<SourceLocation>, path: Seq<char>) -> Option<LocV>
    decreases files.len(),
{
    if files.len() == 0 {
        None
    } else if files.last().path@ == path {
        Some(files.last()@)
    } else {
        last_input(files.drop_last(), path)
    }
}

/// Paths of the bench classifications of package `name`, in order.
pub open spec fn bench_kind_paths(ks: Seq<RustFileKind>, name: Seq<char>) -> Seq<Seq<char>>
    decreases ks.len(),
{
    if ks.len() == 0 {
        seq![]
    } else {
        bench_kind_paths(ks.drop_last(), name) + match ks.last() {
            RustFileKind::Bench { package, path } => if package@ == name {
                seq![path@]
            } else {
                seq![]
            },
            _ => seq![],
        }
    }
}

/// Evidence of the declared benches of a package, in declaration order.
pub open spec fn declared_benches(p: CargoPackage, files: Seq<SourceLocation>) -> Seq<BenchV> {
    let dir = spec_package_dir(p.manifest_path@);
    p.benches@.map_values(
        |b: crate::inspect::cargo::types::CargoBench|
            {
                let pp = spec_join_pkg_path(dir, b.path@);
                match last_input(files, pp) {
                    Some(l) => (
                        p.name@,
                        b.name@,
                        pp,
                        StatusV::DeclaredWithSource,
                        b.harness,
                        views(b.required_features@),
                        Some(l),
                        Some(b.manifest_source@),
                    ),
                    None => (
                        p.name@,
                        b.name@,
                        pp,
                        StatusV::DeclaredMissingSource(b.path@),
                        b.harness,
                        views(b.required_features@),
                        None::<LocV>,
                        Some(b.manifest_source@),
                    ),
                }
            },
    )
}

/// Project paths of the declared benches of a package.
pub open spec fn declared_paths(p: CargoPackage) -> Seq<Seq<char>> {
    let dir = spec_package_dir(p.manifest_path@);
    p.benches@.map_values(|b: crate::inspect::cargo::types::CargoBench| spec_join_pkg_path(dir, b.path@))
}

/// The name of an undeclared conventional bench: from its `benches/`
/// path, else its file stem, else `bench`.
pub open spec fn conventional_name(sp: Seq<char>) -> Seq<char> {
    match spec_conventional_bench_name(sp) {
        Some(n) => n,
        None => match path_file_stem(sp) {
            Some(s) => s,
            None => "bench"@,
        },
    }
}

/// Evidence of the undeclared conventional benches among `paths`.
pub open spec fn conventional_benches(
    p: CargoPackage,
    files: Seq<SourceLocation>,
    paths: Seq<Seq<char>>,
) -> Seq<BenchV>
    decreases paths.len(),
{
    if paths.len() == 0 {
        seq![]
    } else {
        let sp = paths.last();
        conventional_benches(p, files, paths.drop_last()) + if declared_paths(p).contains(sp) {
            seq![]
        } else {
            seq![
                (
                    p.name@,
                    conventional_name(sp),
                    sp,
                    StatusV::ConventionalUndeclared,
                    true,
                    Seq::<Seq<char>>::empty(),
                    last_input(files, sp),
                    None::<SourceV>,
                ),
            ]
        }
    }
}

/// The conventional bench paths of a package: its bench classifications,
/// sorted and without duplicates, unless `autobenches = false`.
pub open spec fn conventional_paths(p: CargoPackage, rust: RustSourceInspection) -> Seq<Seq<char>> {
    if p.autobenches == Some(false) {
        seq![]
    } else {
        sorted_dedup(bench_kind_paths(rust.file_kinds@, p.name@))
    }
}

/// Benchmark evidence of one package: declared benches, then undeclared
/// conventional ones.
pub open spec fn package_benches(p: CargoPackage, rust: RustSourceInspection) -> Seq<BenchV> {
    declared_benches(p, rust.input_files@) + conventional_benches(p, rust.input_files@, conventional_paths(p, rust))
}

/// Benchmark evidence of packages, in order.
pub open spec fn packages_benches(ps: Seq<CargoPackage>, rust: RustSourceInspection) -> Seq<BenchV>
    decreases ps.len(),
{
    if ps.len() == 0 {
        seq![]
    } else {
        packages_benches(ps.drop_last(), rust) + package_benches(ps.last(), rust)
    }
}

/// Benchmark evidence before ordering, root package first.
pub open spec fn all_benches(cargo: CargoInspection, rust: RustSourceInspection) -> Seq<BenchV> {
    packages_benches(seq![cargo.root_package] + cargo.workspace_members@, rust)
}

fn last_input_of(files: &Vec<SourceLocation>, path: &str) -> (r: Option<SourceLocation>)
    ensures
        match r {
            Some(l) => last_input(files@, path@) == Some(l@),
            None => last_input(files@, path@) is None,
        },
{
    let mut j = files.len();
    assert(files@.take(files@.len() as int) =~= files@);
    while j > 0
        invariant
            j <= files@.len(),
            last_input(files@.take(j as int), path@) == last_input(files@, path@),
        decreases j,
    {
        let ghost pre = files@.take(j as int);
        assert(pre.drop_last() =~= files@.take(j - 1));
        assert(pre.last() == files@[j - 1]);
        if str_eq(files[j - 1].path.as_str(), path) {
            return Some(files[j - 1].clone());
        }
        j = j - 1;
    }
    None
}

fn clone_texts(v: &Vec<String>) -> (r: Vec<String>)
    ensures
        views(r@) == views(v@),
{
    let mut out: Vec<String> = Vec::new();
    let mut k: usize = 0;
    while k < v.len()
        invariant
            k <= v@.len(),
            views(out@) == views(v@).take(k as int),
        decreases v@.len() - k,
    {
        let ghost prev = out@;
        out.push(v[k].clone());
        assert(views(out@) =~= views(prev).push(v@[k as int]@));
        assert(views(v@).take(k + 1) =~= views(v@).take(k as int).push(v@[k as int]@));
        k = k + 1;
    }
    assert(views(v@).take(v@.len() as int) =~= views(v@));
    out
}

/// Views of benchmark evidence.
pub open spec fn bench_views(v: Seq<BenchmarkEvidence>) -> Seq<BenchV> {
    v.map_values(|b: BenchmarkEvidence| bench_view(b))
}

fn push_declared(p: &CargoPackage, rust: &RustSourceInspection, out: &mut Vec<BenchmarkEvidence>) -> (paths: Vec<String>)
    ensures
        bench_views(final(out)@) == bench_views(old(out)@) + declared_benches(*p, rust.input_files@),
        views(paths@) == declared_paths(*p),
{
    let dir = package_dir(p.manifest_path.as_str());
    let ghost o = bench_views(out@);
    let mut paths: Vec<String> = Vec::new();
    let benches = &p.benches;
    let mut k: usize = 0;
    while k < benches.len()
        invariant
            k <= benches@.len(),
            benches == &p.benches,
            dir@ == spec_package_dir(p.manifest_path@),
            bench_views(out@) == o + declared_benches(*p, rust.input_files@).take(k as int),
            views(paths@) == declared_paths(*p).take(k as int),
        decreases benches@.len() - k,
    {
        let b = &benches[k];
        let pp = join_pkg_path(dir, b.path.as_str());
        let ghost prev = out@;
        let ghost prev_paths = paths@;
        let found = last_input_of(&rust.input_files, pp.as_str());
        let ev = match found {
            Some(l) => BenchmarkEvidence {
                package: p.name.clone(),
                name: b.name.clone(),
                path: pp.clone(),
                status: BenchmarkStatus::DeclaredWithSource,
                harness: b.harness,
                required_features: clone_texts(&b.required_features),
                source: Some(l),
                declaration_source: Some(b.manifest_source.clone()),
            },
            None => BenchmarkEvidence {
                package: p.name.clone(),
                name: b.name.clone(),
                path: pp.clone(),
                status: BenchmarkStatus::DeclaredMissingSource { declared_path: b.path.clone() },
                harness: b.harness,
                required_features: clone_texts(&b.required_features),
                source: None,
                declaration_source: Some(b.manifest_source.clone()),
            },
        };
        assert(bench_view(ev) == declared_benches(*p, rust.input_files@)[k as int]);
        out.push(ev);
        paths.push(pp);
        assert(bench_views(out@) =~= o + declared_benches(*p, rust.input_files@).take(k + 1)) by {
            assert(bench_views(out@) =~= bench_views(prev).push(bench_view(ev)));
        }
        assert(views(paths@) =~= declared_paths(*p).take(k + 1)) by {
            assert(views(paths@) =~= views(prev_paths).push(pp@));
        }
        k = k + 1;
    }
    assert(declared_benches(*p, rust.input_files@).take(benches@.len() as int) =~= declared_benches(
        *p,
        rust.input_files@,
    ));
    assert(declared_paths(*p).take(benches@.len() as int) =~= declared_paths(*p));
    paths
}

fn conventional_paths_of(p: &CargoPackage, rust: &RustSourceInspection) -> (r: Vec<String>)
    ensures
        views(r@) == conventional_paths(*p, *rust),
{
    match p.autobenches {
        Some(false) => {
            let r: Vec<String> = Vec::new();
            assert(views(r@) =~= Seq::<Seq<char>>::empty());
            return r;
        },
        _ => {},
    }
    let kinds = &rust.file_kinds;
    let mut found: Vec<String> = Vec::new();
    let mut k: usize = 0;
    while k < kinds.len()
        invariant
            k <= kinds@.len(),
            kinds == &rust.file_kinds,
            views(found@) == bench_kind_paths(kinds@.take(k as int), p.name@),
        decreases kinds@.len() - k,
    {
        assert(kinds@.take(k + 1).drop_last() =~= kinds@.take(k as int));
        let ghost prev = found@;
        match &kinds[k] {
            RustFileKind::Bench { package, path } => {
                if str_eq(package.as_str(), p.name.as_str()) {
                    found.push(path.clone());
                    assert(views(found@) =~= views(prev).push(path@));
                }
            },
            _ => {},
        }
        assert(views(found@) =~= bench_kind_paths(kinds@.take(k + 1), p.name@));
        k = k + 1;
    }
    assert(kinds@.take(kinds@.len() as int) =~= kinds@);
    sort_dedup_strings(found)
}

fn contains_text(v: &Vec<String>, s: &str) -> (r: bool)
    ensures
        r == views(v@).contains(s@),
{
    let mut k: usize = 0;
    while k < v.len()
        invariant
            k <= v@.len(),
            forall|j: int| 0 <= j < k ==> v@[j]@ != s@,
        decreases v@.len() - k,
    {
        if str_eq(v[k].as_str(), s) {
            assert(views(v@)[k as int] == s@);
            return true;
        }
        k = k + 1;
    }
    assert forall|j: int| 0 <= j < views(v@).len() implies views(v@)[j] != s@ by {
        assert(views(v@)[j] == v@[j]@);
    }
    false
}

fn push_conventional(
    p: &CargoPackage,
    rust: &RustSourceInspection,
    declared: &Vec<String>,
    out: &mut Vec<BenchmarkEvidence>,
)
    requires
        views(declared@) == declared_paths(*p),
    ensures
        bench_views(final(out)@) == bench_views(old(out)@) + conventional_benches(
            *p,
            rust.input_files@,
            conventional_paths(*p, *rust),
        ),
{
    let paths = conventional_paths_of(p, rust);
    let ghost ps = views(paths@);
    let ghost o = bench_views(out@);
    let mut k: usize = 0;
    while k < paths.len()
        invariant
            k <= paths@.len(),
            ps == views(paths@),
            views(declared@) == declared_paths(*p),
            bench_views(out@) == o + conventional_benches(*p, rust.input_files@, ps.take(k as int)),
        decreases paths@.len() - k,
    {
        assert(ps.take(k + 1).drop_last() =~= ps.take(k as int));
        assert(ps.take(k + 1).last() == paths@[k as int]@);
        let sp = paths[k].as_str();
        let ghost prev = out@;
        if !contains_text(declared, sp) {
            let name = match conventional_bench_name(sp) {
                Some(n) => n,
                None => match file_stem(sp) {
                    Some(s) => s,
                    None => String::from_str("bench"),
                },
            };
            let source = last_input_of(&rust.input_files, sp);
            let ev = BenchmarkEvidence {
                package: p.name.clone(),
                name,
                path: paths[k].clone(),
                status: BenchmarkStatus::ConventionalUndeclared,
                harness: true,
                required_features: Vec::new(),
                source,
                declaration_source: None,
            };
            assert(views(ev.required_features@) =~= Seq::<Seq<char>>::empty());
            out.push(ev);
            assert(bench_views(out@) =~= bench_views(prev).push(bench_view(ev)));
        }
        assert(bench_views(out@) =~= o + conventional_benches(*p, rust.input_files@, ps.take(k + 1)));
        k = k + 1;
    }
    assert(ps.take(paths@.len() as int) =~= ps);
}

fn push_status_key(out: &mut Vec<char>, s: &BenchmarkStatus)
    ensures
        final(out)@ == old(out)@ + status_key(
            match *s {
                BenchmarkStatus::DeclaredWithSource => StatusV::DeclaredWithSource,
                BenchmarkStatus::DeclaredMissingSource { declared_path } => StatusV::DeclaredMissingSource(
                    declared_path@,
                ),
                BenchmarkStatus::ConventionalUndeclared => StatusV::ConventionalUndeclared,
            },
        ),
{
    let ghost o = out@;
    match s {
        BenchmarkStatus::DeclaredWithSource => push_index(out, 0),
        BenchmarkStatus::DeclaredMissingSource { declared_path } => {
            push_index(out, 1);
            push_text_key(out, declared_path.as_str());
            assert(out@ =~= o + (index_key(1) + text_key(declared_path@)));
        },
        BenchmarkStatus::ConventionalUndeclared => push_index(out, 2),
    }
}

fn push_opt_loc_key(out: &mut Vec<char>, o: &Option<SourceLocation>)
    ensures
        final(out)@ == old(out)@ + opt_loc_key(
            match *o {
                Some(l) => Some(l@),
                None => None,
            },
        ),
{
    let ghost before = out@;
    match o {
        None => out.push('\u{0}'),
        Some(l) => {
            out.push('\u{1}');
            push_loc_key(out, l);
            assert(out@ =~= before + (seq!['\u{1}'] + loc_key(l@)));
        },
    }
}

fn push_opt_source_key(out: &mut Vec<char>, o: &Option<crate::inspect::cargo::types::ManifestSource>)
    ensures
        final(out)@ == old(out)@ + opt_source_key(
            match *o {
                Some(s) => Some(s@),
                None => None,
            },
        ),
{
    let ghost before = out@;
    match o {
        None => out.push('\u{0}'),
        Some(s) => {
            out.push('\u{1}');
            push_source_key(out, s.path.as_str(), s.line, s.content_hash.as_str(), s.byte_count);
            assert(out@ =~= before + (seq!['\u{1}'] + source_key(s@)));
        },
    }
}

fn bench_key_of(b: &BenchmarkEvidence) -> (r: String)
    ensures
        r@ == bench_key(bench_view(*b)),
{
    let mut out: Vec<char> = Vec::new();
    push_text_key(&mut out, b.package.as_str());
    push_text_key(&mut out, b.name.as_str());
    push_text_key(&mut out, b.path.as_str());
    push_status_key(&mut out, &b.status);
    push_index(&mut out, if b.harness { 1 } else { 0 });
    push_texts_key(&mut out, &b.required_features);
    push_opt_loc_key(&mut out, &b.source);
    push_opt_source_key(&mut out, &b.declaration_source);
    assert(out@ =~= bench_key(bench_view(*b)));
    string_of(out.as_slice())
}

fn sort_benches(v: Vec<BenchmarkEvidence>) -> (r: Vec<BenchmarkEvidence>)
    ensures
        sorted_unique_by(bench_views(r@), bench_views(v@), |x: BenchV| bench_key(x)),
{
    let mut keys: Vec<String> = Vec::new();
    let mut k: usize = 0;
    while k < v.len()
        invariant
            k <= v@.len(),
            keys@.len() == k,
            forall|j: int| 0 <= j < k ==> #[trigger] keys@[j]@ == bench_key(bench_view(v@[j])),
        decreases v@.len() - k,
    {
        keys.push(bench_key_of(&v[k]));
        k = k + 1;
    }
    let ghost items = v@;
    let ghost ks = keys@;
    let r = sort_dedup_keyed(v, keys);
    proof {
        lemma_sorted_unique(r@, items, ks, |x: BenchmarkEvidence| bench_key(bench_view(x)));
        lemma_sorted_unique_views(
            r@,
            items,
            |b: BenchmarkEvidence| bench_view(b),
            |x: BenchV| bench_key(x),
            |x: BenchmarkEvidence| bench_key(bench_view(x)),
        );
        assert(bench_views(r@) =~= r@.map_values(|b: BenchmarkEvidence| bench_view(b)));
        assert(bench_views(items) =~= items.map_values(|b: BenchmarkEvidence| bench_view(b)));
    }
    r
}

proof fn lemma_conventional_items(p: CargoPackage, files: Seq<SourceLocation>, paths: Seq<Seq<char>>, x: BenchV)
    requires
        conventional_benches(p, files, paths).contains(x),
    ensures
        x.0 == p.name@,
        x.3 is ConventionalUndeclared,
        paths.len() > 0,
    decreases paths.len(),
{
    let c = conventional_benches(p, files, paths);
    if paths.len() == 0 {
        assert(c.len() == 0);
    } else {
        let prev = conventional_benches(p, files, paths.drop_last());
        let k = choose|k: int| 0 <= k < c.len() && c[k] == x;
        if k < prev.len() {
            assert(c[k] == prev[k]);
            assert(prev.contains(x));
            lemma_conventional_items(p, files, paths.drop_last(), x);
        }
    }
}

proof fn lemma_packages_benches_member(ps: Seq<CargoPackage>, rust: RustSourceInspection, x: BenchV)
    requires
        packages_benches(ps, rust).contains(x),
    ensures
        exists|i: int| 0 <= i < ps.len() && (#[trigger] package_benches(ps[i], rust)).contains(x),
    decreases ps.len(),
{
    let all = packages_benches(ps, rust);
    let prev = packages_benches(ps.drop_last(), rust);
    let last = package_benches(ps.last(), rust);
    let k = choose|k: int| 0 <= k < all.len() && all[k] == x;
    if k < prev.len() {
        assert(all[k] == prev[k]);
        assert(prev.contains(x));
        lemma_packages_benches_member(ps.drop_last(), rust, x);
        let i = choose|i: int| 0 <= i < ps.drop_last().len() && (#[trigger] package_benches(ps.drop_last()[i], rust)).contains(x);
        assert(ps.drop_last()[i] == ps[i]);
    } else {
        assert(all[k] == last[k - prev.len()]);
        assert(last.contains(x));
        assert(package_benches(ps[ps.len() - 1], rust) == last);
    }
}

proof fn lemma_packages_benches_has(ps: Seq<CargoPackage>, rust: RustSourceInspection, i: int, x: BenchV)
    requires
        0 <= i < ps.len(),
        package_benches(ps[i], rust).contains(x),
    ensures
        packages_benches(ps, rust).contains(x),
    decreases ps.len(),
{
    let all = packages_benches(ps, rust);
    let prev = packages_benches(ps.drop_last(), rust);
    let pb = package_benches(ps[i], rust);
    let k = choose|k: int| 0 <= k < pb.len() && pb[k] == x;
    if i == ps.len() - 1 {
        assert(all[prev.len() + k] == x);
    } else {
        assert(ps.drop_last()[i] == ps[i]);
        lemma_packages_benches_has(ps.drop_last(), rust, i, x);
        let m = choose|m: int| 0 <= m < prev.len() && prev[m] == x;
        assert(all[m] == x);
    }
}

/// Whether some entry of `r` has the package, name, path and status of `x`.
pub open spec fn has_fields(r: Seq<BenchV>, x: BenchV) -> bool {
    exists|k: int| 0 <= k < r.len() && (#[trigger] r[k]).0 == x.0 && r[k].1 == x.1 && r[k].2 == x.2 && r[k].3 == x.3
}

/// The key fields of benchmark evidence after its status.
pub open spec fn bench_tail(b: BenchV) -> Seq<char> {
    index_key(
        if b.4 {
            1
        } else {
            0
        },
    ) + texts_key(b.5) + opt_loc_key(b.6) + opt_source_key(b.7)
}

/// The key of benchmark evidence after its path.
pub open spec fn after_path(b: BenchV) -> Seq<char> {
    status_key(b.3) + bench_tail(b)
}

/// The key of benchmark evidence after its name.
pub open spec fn after_name(b: BenchV) -> Seq<char> {
    text_key(b.2) + after_path(b)
}

/// The key of benchmark evidence after its package.
pub open spec fn after_package(b: BenchV) -> Seq<char> {
    text_key(b.1) + after_name(b)
}

proof fn lemma_bench_key_split(b: BenchV)
    ensures
        bench_key(b) == text_key(b.0) + after_package(b),
{
    assert(bench_key(b) =~= text_key(b.0) + (text_key(b.1) + (text_key(b.2) + (status_key(b.3) + bench_tail(b)))));
}

proof fn lemma_status_key_read(v: StatusV, x: Seq<char>, w: StatusV, y: Seq<char>)
    requires
        status_key(v) + x == status_key(w) + y,
    ensures
        v == w,
{
    let kv = status_key(v) + x;
    let kw = status_key(w) + y;
    assert(kv[0] == status_key(v)[0]);
    assert(kw[0] == status_key(w)[0]);
    match (v, w) {
        (StatusV::DeclaredMissingSource(p), StatusV::DeclaredMissingSource(q)) => {
            assert(kv.drop_first() =~= text_key(p) + x);
            assert(kw.drop_first() =~= text_key(q) + y);
            lemma_text_key_prefix_free(p, x, q, y);
        },
        _ => {},
    }
}

proof fn lemma_bench_key_fields(v: BenchV, w: BenchV)
    requires
        bench_key(v) == bench_key(w),
    ensures
        v.0 == w.0 && v.1 == w.1 && v.2 == w.2 && v.3 == w.3,
{
    lemma_bench_key_split(v);
    lemma_bench_key_split(w);
    lemma_text_key_prefix_free(v.0, after_package(v), w.0, after_package(w));
    lemma_text_key_prefix_free(v.1, after_name(v), w.1, after_name(w));
    lemma_text_key_prefix_free(v.2, after_path(v), w.2, after_path(w));
    lemma_status_key_read(v.3, bench_tail(v), w.3, bench_tail(w));
}

/// Benchmark evidence `r` of `cargo` and `rust` is strictly ordered by its
/// fields, has an entry with the package, name, joined path and status of
/// every declared bench of every package, and has undeclared conventional
/// entries only for packages, of the same name, that keep `autobenches`.
pub open spec fn benchmarks_law(cargo: CargoInspection, rust: RustSourceInspection, r: Seq<BenchV>) -> bool {
    &&& forall|i: int, j: int| 0 <= i < j < r.len() ==> char_lex_lt(bench_key(#[trigger] r[i]), bench_key(#[trigger] r[j]))
    &&& forall|p: int, b: int|
        0 <= p < cargo.workspace_members@.len() + 1 && 0 <= b < (seq![cargo.root_package] + cargo.workspace_members@)[p].benches@.len()
            ==> has_fields(
            r,
            #[trigger] declared_benches((seq![cargo.root_package] + cargo.workspace_members@)[p], rust.input_files@)[b],
        )
    &&& forall|k: int|
        0 <= k < r.len() && (#[trigger] r[k]).3 is ConventionalUndeclared ==> exists|p: int|
            0 <= p < cargo.workspace_members@.len() + 1 && (seq![cargo.root_package] + cargo.workspace_members@)[p].autobenches
                != Some(false) && r[k].0 == #[trigger] (seq![cargo.root_package] + cargo.workspace_members@)[p].name@
}

/// Benchmark evidence is strictly ordered and complete: entries strictly
/// increase by their field order; every declared bench of every package
/// (root first, then members) has an entry with its package, name, joined
/// path and status (declared with source when an accepted input file is at
/// that path, else declared missing with the declared path); and an
/// undeclared conventional entry only comes from a package, of the same name,
/// that does not switch `autobenches` off.
pub proof fn lemma_benchmarks_ordered_complete(cargo: CargoInspection, rust: RustSourceInspection, r: Seq<BenchV>)
    requires
        sorted_unique_by(r, all_benches(cargo, rust), |x: BenchV| bench_key(x)),
    ensures
        benchmarks_law(cargo, rust, r),
{
    let ps = seq![cargo.root_package] + cargo.workspace_members@;
    let items = all_benches(cargo, rust);
    let key = |x: BenchV| bench_key(x);
    lemma_sorted_unique_covers(r, items, key);
    assert forall|p: int, b: int|
        0 <= p < cargo.workspace_members@.len() + 1 && 0 <= b < ps[p].benches@.len() implies has_fields(
        r,
        #[trigger] declared_benches(ps[p], rust.input_files@)[b],
    ) by {
        let d = declared_benches(ps[p], rust.input_files@);
        let x = d[b];
        let pb = package_benches(ps[p], rust);
        assert(pb[b] == x);
        assert(pb.contains(x));
        lemma_packages_benches_has(ps, rust, p, x);
        let j = choose|j: int| 0 <= j < items.len() && items[j] == x;
        assert(has_key(r, key, key(items[j])));
        let k = choose|k: int| 0 <= k < r.len() && key(#[trigger] r[k]) == key(items[j]);
        lemma_bench_key_fields(r[k], x);
    }
    assert forall|k: int| 0 <= k < r.len() && (#[trigger] r[k]).3 is ConventionalUndeclared implies exists|p: int|
        0 <= p < cargo.workspace_members@.len() + 1 && ps[p].autobenches != Some(false) && r[k].0
            == #[trigger] ps[p].name@ by {
        let x = r[k];
        assert(items.contains(x));
        lemma_packages_benches_member(ps, rust, x);
        let p = choose|p: int| 0 <= p < ps.len() && (#[trigger] package_benches(ps[p], rust)).contains(x);
        let pk = ps[p];
        let d = declared_benches(pk, rust.input_files@);
        let c = conventional_benches(pk, rust.input_files@, conventional_paths(pk, rust));
        let pb = package_benches(pk, rust);
        let m = choose|m: int| 0 <= m < pb.len() && pb[m] == x;
        if m < d.len() {
            assert(pb[m] == d[m]);
            assert(!(d[m].3 is ConventionalUndeclared));
        } else {
            assert(pb[m] == c[m - d.len()]);
            assert(c.contains(x));
            lemma_conventional_items(pk, rust.input_files@, conventional_paths(pk, rust), x);
            assert(ps[p].name@ == x.0);
        }
    }
}

/// Benchmark evidence: for each package (root first), its declared benches
/// (with the accepted source at the joined path, or marked missing), then
/// its undeclared conventional benches (unless `autobenches = false`); all
/// sorted by their fields without duplicates.
pub fn derive_benchmarks(cargo: &CargoInspection, rust: &RustSourceInspection) -> (r: Vec<BenchmarkEvidence>)
    ensures
        sorted_unique_by(bench_views(r@), all_benches(*cargo, *rust), |x: BenchV| bench_key(x)),
        benchmarks_law(*cargo, *rust, bench_views(r@)),
{
    let mut out: Vec<BenchmarkEvidence> = Vec::new();
    let ghost pkgs = seq![cargo.root_package] + cargo.workspace_members@;
    let declared = push_declared(&cargo.root_package, rust, &mut out);
    push_conventional(&cargo.root_package, rust, &declared, &mut out);
    assert(pkgs.take(1).drop_last() =~= Seq::<CargoPackage>::empty());
    assert(pkgs.take(1).last() == cargo.root_package);
    assert(packages_benches(Seq::<CargoPackage>::empty(), *rust) =~= Seq::<BenchV>::empty());
    assert(bench_views(out@) =~= packages_benches(pkgs.take(1), *rust));
    let mut k: usize = 0;
    while k < cargo.workspace_members.len()
        invariant
            k <= cargo.workspace_members@.len(),
            pkgs == seq![cargo.root_package] + cargo.workspace_members@,
            bench_views(out@) == packages_benches(pkgs.take(k + 1), *rust),
        decreases cargo.workspace_members@.len() - k,
    {
        assert(pkgs.take(k + 2).drop_last() =~= pkgs.take(k + 1));
        assert(pkgs.take(k + 2).last() == cargo.workspace_members@[k as int]);
        let m = &cargo.workspace_members[k];
        let declared = push_declared(m, rust, &mut out);
        push_conventional(m, rust, &declared, &mut out);
        k = k + 1;
    }
    assert(pkgs.take(cargo.workspace_members@.len() + 1int) =~= pkgs);
    let r = sort_benches(out);
    proof {
        lemma_benchmarks_ordered_complete(*cargo, *rust, bench_views(r@));
    }
    r
}

} // verus!
