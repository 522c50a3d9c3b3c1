//! Offline `Cargo.lock` reading, ambiguity detection, and resolution of
//! Amari dependency versions against the lockfile and the catalog version.

use vstd::prelude::*;
use vstd::string::StringExecFns;

use crate::inspect::cargo::provenance::ProvenanceAccumulator;
use crate::inspect::cargo::toml_value::{
    lookup, parse_toml, spec_parse_toml, spec_toml_string, toml_string, TomlError, TomlValue,
};
use crate::inspect::cargo::types::{AmariDependencyEvidence, CargoInspectionWarning, LockedPackage, ManifestSource};
use crate::order::{is_sorted_dedup_of, sort_dedup_strings, strictly_sorted, views};
use crate::protocol::Compatibility;
use crate::text::{
    chars_of, chars_start_with, find_chars, find_from, has_prefix, leading_usize, parse_leading_usize,
    str_contains, str_eq, subrange_vec,
};

verus! {

// ---------------------------------------------------------------------------
// UTF-8 and TOML errors
// ---------------------------------------------------------------------------

/// The text of `bytes` when they are valid UTF-8 (`std::str::from_utf8`).
#[verifier::external_body]
pub fn utf8_text(bytes: &[u8]) -> (r: Option<&str>)
    ensures
        r is Some <==> vstd::utf8::valid_utf8(bytes@),
        r matches Some(s) ==> vstd::utf8::encode_utf8(s@) == bytes@,
{
    std::str::from_utf8(bytes).ok()
}

/// A stable reason for a TOML error, never holding source text.
pub open spec fn spec_malformed_reason(msg: Seq<char>) -> Seq<char> {
    if find_from(msg, "missing field"@, 0) is Some {
        "missing required field"@
    } else if find_from(msg, "invalid type"@, 0) is Some {
        "invalid type for field"@
    } else if find_from(msg, "duplicate"@, 0) is Some {
        "duplicate key"@
    } else if find_from(msg, "expected"@, 0) is Some {
        "unexpected TOML syntax"@
    } else if find_from(msg, "newline"@, 0) is Some || find_from(msg, "EOF"@, 0) is Some {
        "unterminated string or table"@
    } else {
        "invalid TOML"@
    }
}

/// A stable reason for a TOML error, never holding source text.
pub fn toml_malformed_reason(err: &TomlError) -> (r: String)
    ensures
        r@ == spec_malformed_reason(err.message@),
{
    let m = err.message.as_str();
    if str_contains(m, "missing field") {
        String::from_str("missing required field")
    } else if str_contains(m, "invalid type") {
        String::from_str("invalid type for field")
    } else if str_contains(m, "duplicate") {
        String::from_str("duplicate key")
    } else if str_contains(m, "expected") {
        String::from_str("unexpected TOML syntax")
    } else if str_contains(m, "newline") || str_contains(m, "EOF") {
        String::from_str("unterminated string or table")
    } else {
        String::from_str("invalid TOML")
    }
}

/// Number of newline bytes in `s`.
pub open spec fn count_newlines(s: Seq<u8>) -> nat
    decreases s.len(),
{
    if s.len() == 0 {
        0
    } else {
        count_newlines(s.drop_last()) + if s.last() == 10 {
            1nat
        } else {
            0nat
        }
    }
}

/// Index of the last newline byte in `s`.
pub open spec fn last_newline(s: Seq<u8>) -> Option<int>
    decreases s.len(),
{
    if s.len() == 0 {
        None
    } else if s.last() == 10 {
        Some(s.len() - 1)
    } else {
        last_newline(s.drop_last())
    }
}

/// The number after the first occurrence of `marker` in `msg`.
pub open spec fn number_after(msg: Seq<char>, marker: Seq<char>) -> Option<usize> {
    match find_from(msg, marker, 0) {
        Some(i) => leading_usize(msg.skip(i + marker.len())),
        None => None,
    }
}

/// Line and column of a TOML error: from its span over the source bytes
/// when known, otherwise from the numbers its message names.
pub open spec fn spec_toml_line_col(err: TomlError, source: Seq<u8>) -> (Option<usize>, Option<usize>) {
    match err.span_start {
        Some(pos) => {
            let n = if pos <= source.len() { pos as int } else { source.len() as int };
            let s = source.take(n);
            let col = match last_newline(s) {
                Some(k) => pos - k,
                None => if pos == usize::MAX { usize::MAX as int } else { pos + 1 },
            };
            (Some((count_newlines(s) + 1) as usize), Some(col as usize))
        },
        None => (number_after(err.message@, " at line "@), number_after(err.message@, " column "@)),
    }
}

/// The number following the first `marker` in `msg`.
pub fn number_after_marker(msg: &str, marker: &str) -> (r: Option<usize>)
    ensures
        r == number_after(msg@, marker@),
{
    let m = chars_of(msg);
    let k = chars_of(marker);
    let mlen = m.len();
    match find_chars(m.as_slice(), k.as_slice()) {
        Some(i) => {
            assert(i + k@.len() <= mlen);
            parse_leading_usize(m.as_slice(), i + k.len())
        },
        None => None,
    }
}

/// The number after the first occurrence of `marker` in `msg`, where the
/// number may be written as `Some(N)` (the `Debug` form of a present
/// optional number).
pub open spec fn optional_number_after(msg: Seq<char>, marker: Seq<char>) -> Option<usize> {
    match find_from(msg, marker, 0) {
        Some(i) => {
            let rest = msg.skip(i + marker.len());
            if has_prefix(rest, "Some("@) {
                leading_usize(rest.skip("Some("@.len() as int))
            } else {
                leading_usize(rest)
            }
        },
        None => None,
    }
}

/// The number following the first `marker` in `msg`, read inside `Some(..)`
/// when it is written that way.
pub fn optional_number_after_marker(msg: &str, marker: &str) -> (r: Option<usize>)
    ensures
        r == optional_number_after(msg@, marker@),
{
    let m = chars_of(msg);
    let k = chars_of(marker);
    let some = chars_of("Some(");
    let mlen = m.len();
    match find_chars(m.as_slice(), k.as_slice()) {
        Some(i) => {
            assert(i + k@.len() <= mlen);
            let start = i + k.len();
            let rest = subrange_vec(m.as_slice(), start, mlen);
            assert(rest@ =~= m@.skip(start as int));
            if chars_start_with(rest.as_slice(), some.as_slice()) {
                assert(m@.skip(start + some@.len()) =~= rest@.skip(some@.len() as int));
                parse_leading_usize(m.as_slice(), start + some.len())
            } else {
                parse_leading_usize(m.as_slice(), start)
            }
        },
        None => None,
    }
}

/// Line and column of a TOML error.
pub fn toml_line_col(err: &TomlError, source: &[u8]) -> (r: (Option<usize>, Option<usize>))
    requires
        source@.len() < usize::MAX,
    ensures
        r == spec_toml_line_col(*err, source@),
{
    match err.span_start {
        Some(pos) => {
            let n = if pos <= source.len() {
                pos
            } else {
                source.len()
            };
            let mut count: usize = 0;
            let mut last: Option<usize> = None;
            let mut i: usize = 0;
            while i < n
                invariant
                    n <= source@.len() < usize::MAX,
                    i <= n,
                    count == count_newlines(source@.take(i as int)),
                    count <= i,
                    last matches Some(a) ==> a < i,
                    match (last, last_newline(source@.take(i as int))) {
                        (Some(a), Some(b)) => a == b,
                        (None, None) => true,
                        _ => false,
                    },
                decreases n - i,
            {
                assert(source@.take(i + 1).drop_last() =~= source@.take(i as int));
                if source[i] == 10 {
                    count += 1;
                    last = Some(i);
                }
                i += 1;
            }
            assert(n <= pos);
            let col = match last {
                Some(k) => pos - k,
                None => pos.saturating_add(1),
            };
            (Some(count + 1), Some(col))
        },
        None => (
            number_after_marker(err.message.as_str(), " at line "),
            number_after_marker(err.message.as_str(), " column "),
        ),
    }
}

// ---------------------------------------------------------------------------
// Lockfile packages
// ---------------------------------------------------------------------------

/// View of a locked package: name, version, checksum, source.
pub type LockedV = (Seq<char>, Seq<char>, Option<Seq<char>>, Option<Seq<char>>);

/// View of a locked package.
pub open spec fn locked_view(p: LockedPackage) -> LockedV {
    (
        p.name@,
        p.version@,
        match p.checksum {
            Some(c) => Some(c@),
            None => None,
        },
        match p.source {
            Some(c) => Some(c@),
            None => None,
        },
    )
}

/// Views of locked packages.
pub open spec fn locked_views(v: Seq<LockedPackage>) -> Seq<LockedV> {
    v.map_values(|p: LockedPackage| locked_view(p))
}

/// The package of one `[[package]]` entry: a table with a string name.
pub open spec fn lock_entry(v: TomlValue) -> Option<LockedV> {
    match v {
        TomlValue::Table(t, _) => match spec_toml_string(t@, "name"@) {
            Some(n) => Some(
                (
                    n,
                    match spec_toml_string(t@, "version"@) {
                        Some(v) => v,
                        None => "unknown"@,
                    },
                    spec_toml_string(t@, "checksum"@),
                    spec_toml_string(t@, "source"@),
                ),
            ),
            None => None,
        },
        _ => None,
    }
}

/// Packages of the `[[package]]` entries, in order.
pub open spec fn lock_entries(a: Seq<TomlValue>) -> Seq<LockedV>
    decreases a.len(),
{
    if a.len() == 0 {
        seq![]
    } else {
        lock_entries(a.drop_last()) + match lock_entry(a.last()) {
            Some(p) => seq![p],
            None => seq![],
        }
    }
}

/// Packages of a parsed lockfile.
pub open spec fn spec_lock_packages(doc: TomlValue) -> Seq<LockedV> {
    match doc {
        TomlValue::Table(t, _) => match lookup(t@, "package"@) {
            Some(TomlValue::Array(a, _)) => lock_entries(a@),
            _ => seq![],
        },
        _ => seq![],
    }
}

/// Versions locked for `name`, in order, with repeats.
pub open spec fn lock_versions(pkgs: Seq<LockedV>, name: Seq<char>) -> Seq<Seq<char>>
    decreases pkgs.len(),
{
    if pkgs.len() == 0 {
        seq![]
    } else {
        lock_versions(pkgs.drop_last(), name) + if pkgs.last().0 == name {
            seq![pkgs.last().1]
        } else {
            seq![]
        }
    }
}

/// Names of locked packages, in order, with repeats.
pub open spec fn lock_names(pkgs: Seq<LockedV>) -> Seq<Seq<char>> {
    pkgs.map_values(|p: LockedV| p.0)
}

/// Parsed lockfile content.
pub struct ParsedLock {
    /// Packages in declaration order.
    pub packages: Vec<LockedPackage>,
    /// Warnings accumulated during parsing.
    pub warnings: Vec<CargoInspectionWarning>,
}

/// Whether `w` reports the lockfile as malformed with these details.
pub open spec fn is_malformed_lock(
    w: CargoInspectionWarning,
    path: Seq<char>,
    reason: Seq<char>,
    line: Option<usize>,
    column: Option<usize>,
) -> bool {
    w matches CargoInspectionWarning::MalformedLock { path: p, reason: r, line: l, column: c } && p@
        == path && r@ == reason && l == line && c == column
}

/// Whether `ws` are exactly the ambiguity warnings of `pkgs`: one per
/// locked name with more than one distinct version, in name order, each
/// with its sorted distinct versions.
pub open spec fn ambiguity_warnings(ws: Seq<CargoInspectionWarning>, pkgs: Seq<LockedV>) -> bool {
    &&& forall|i: int| 0 <= i < ws.len() ==> #[trigger] ws[i] is AmbiguousLockResolution
    &&& strictly_sorted(ws.map_values(|w: CargoInspectionWarning| warned_package(w)))
    &&& forall|i: int|
        0 <= i < ws.len() ==> {
            let n = warned_package(#[trigger] ws[i]);
            &&& lock_names(pkgs).contains(n)
            &&& is_sorted_dedup_of(warned_versions(ws[i]), lock_versions(pkgs, n))
            &&& warned_versions(ws[i]).len() > 1
        }
    &&& forall|n: Seq<char>|
        lock_names(pkgs).contains(n) && #[trigger] has_many_versions(pkgs, n) ==> ws.map_values(
            |w: CargoInspectionWarning| warned_package(w),
        ).contains(n)
}

/// Whether `name` is locked at more than one distinct version.
pub open spec fn has_many_versions(pkgs: Seq<LockedV>, name: Seq<char>) -> bool {
    exists|vs: Seq<Seq<char>>| is_sorted_dedup_of(vs, lock_versions(pkgs, name)) && vs.len() > 1
}

/// The package an ambiguity warning names.
pub open spec fn warned_package(w: CargoInspectionWarning) -> Seq<char> {
    match w {
        CargoInspectionWarning::AmbiguousLockResolution { package, .. } => package@,
        _ => seq![],
    }
}

/// The versions an ambiguity warning lists.
pub open spec fn warned_versions(w: CargoInspectionWarning) -> Seq<Seq<char>> {
    match w {
        CargoInspectionWarning::AmbiguousLockResolution { versions, .. } => views(versions@),
        _ => seq![],
    }
}

/// The package of one `[[package]]` entry.
fn parse_lock_entry(v: &TomlValue) -> (r: Option<LockedPackage>)
    ensures
        match (r, lock_entry(*v)) {
            (Some(p), Some(q)) => locked_view(p) == q,
            (None, None) => true,
            _ => false,
        },
{
    match v {
        TomlValue::Table(t, _) => match toml_string(t, "name") {
            Some(name) => {
                let version = match toml_string(t, "version") {
                    Some(v) => v,
                    None => String::from_str("unknown"),
                };
                let checksum = toml_string(t, "checksum");
                let source = toml_string(t, "source");
                Some(LockedPackage { name, version, checksum, source })
            },
            None => None,
        },
        _ => None,
    }
}

/// Versions locked for `name`, in order, with repeats.
fn versions_for(pkgs: &Vec<LockedPackage>, name: &str) -> (r: Vec<String>)
    ensures
        views(r@) == lock_versions(locked_views(pkgs@), name@),
{
    let ghost pv = locked_views(pkgs@);
    let mut out: Vec<String> = Vec::new();
    let mut i: usize = 0;
    while i < pkgs.len()
        invariant
            i <= pkgs@.len(),
            pv == locked_views(pkgs@),
            views(out@) == lock_versions(pv.take(i as int), name@),
        decreases pkgs@.len() - i,
    {
        proof {
            assert(pv.take(i + 1).drop_last() =~= pv.take(i as int));
            assert(pv.take(i + 1).last() == locked_view(pkgs@[i as int]));
        }
        if str_eq(pkgs[i].name.as_str(), name) {
            let ghost prev = out@;
            out.push(pkgs[i].version.clone());
            assert(views(out@) =~= views(prev).push(pkgs@[i as int].version@));
        } else {
            assert(views(out@) =~= lock_versions(pv.take(i + 1), name@));
        }
        i += 1;
    }
    assert(pv.take(pkgs@.len() as int) =~= pv);
    out
}

/// The ambiguity warnings of a package list.
fn ambiguity_warnings_of(pkgs: &Vec<LockedPackage>) -> (r: Vec<CargoInspectionWarning>)
    ensures
        ambiguity_warnings(r@, locked_views(pkgs@)),
{
    let ghost pv = locked_views(pkgs@);
    let mut names: Vec<String> = Vec::new();
    let mut i: usize = 0;
    while i < pkgs.len()
        invariant
            i <= pkgs@.len(),
            pv == locked_views(pkgs@),
            views(names@) == lock_names(pv).take(i as int),
        decreases pkgs@.len() - i,
    {
        let ghost prev = names@;
        names.push(pkgs[i].name.clone());
        assert(views(names@) =~= views(prev).push(pkgs@[i as int].name@));
        assert(lock_names(pv).take(i + 1) =~= lock_names(pv).take(i as int).push(pv[i as int].0));
        i += 1;
    }
    assert(lock_names(pv).take(pkgs@.len() as int) =~= lock_names(pv));
    let unique = sort_dedup_strings(names);
    let ghost un = views(unique@);
    let mut out: Vec<CargoInspectionWarning> = Vec::new();
    let mut k: usize = 0;
    while k < unique.len()
        invariant
            k <= unique@.len(),
            un == views(unique@),
            pv == locked_views(pkgs@),
            is_sorted_dedup_of(un, lock_names(pv)),
            forall|q: int| 0 <= q < out@.len() ==> #[trigger] out@[q] is AmbiguousLockResolution,
            out@.map_values(|w: CargoInspectionWarning| warned_package(w)).len() == out@.len(),
            forall|q: int|
                0 <= q < out@.len() ==> exists|u: int|
                    0 <= u < k && un[u] == warned_package(#[trigger] out@[q]),
            strictly_sorted(out@.map_values(|w: CargoInspectionWarning| warned_package(w))),
            forall|q: int|
                0 <= q < out@.len() ==> (forall|u: int|
                    k <= u < un.len() ==> crate::order::char_lex_lt(
                        warned_package(#[trigger] out@[q]),
                        un[u],
                    )),
            forall|q: int|
                0 <= q < out@.len() ==> {
                    let n = warned_package(#[trigger] out@[q]);
                    &&& lock_names(pv).contains(n)
                    &&& is_sorted_dedup_of(warned_versions(out@[q]), lock_versions(pv, n))
                    &&& warned_versions(out@[q]).len() > 1
                },
            forall|u: int|
                0 <= u < k && has_many_versions(pv, #[trigger] un[u]) ==> out@.map_values(
                    |w: CargoInspectionWarning| warned_package(w),
                ).contains(un[u]),
        decreases unique@.len() - k,
    {
        let name = unique[k].as_str();
        let vs = sort_dedup_strings(versions_for(pkgs, name));
        proof {
            assert(un.contains(un[k as int]));
        }
        let ghost before = out@;
        if vs.len() > 1 {
            out.push(
                CargoInspectionWarning::AmbiguousLockResolution {
                    package: unique[k].clone(),
                    versions: vs,
                },
            );
            proof {
                let pk = out@.map_values(|w: CargoInspectionWarning| warned_package(w));
                let pb = before.map_values(|w: CargoInspectionWarning| warned_package(w));
                assert(pk =~= pb.push(un[k as int]));
                assert forall|a: int, b: int| 0 <= a < b < pk.len() implies crate::order::char_lex_lt(
                    #[trigger] pk[a],
                    #[trigger] pk[b],
                ) by {
                    if b == pk.len() - 1 {
                        assert(pk[a] == warned_package(before[a]));
                    } else {
                        assert(pk[a] == pb[a]);
                        assert(pk[b] == pb[b]);
                    }
                }
                assert forall|q: int|
                    0 <= q < out@.len() implies (forall|u: int|
                    k + 1 <= u < un.len() ==> crate::order::char_lex_lt(
                        warned_package(#[trigger] out@[q]),
                        un[u],
                    )) by {
                    if q == out@.len() - 1 {
                        assert forall|u: int| k + 1 <= u < un.len() implies crate::order::char_lex_lt(
                            warned_package(out@[q]),
                            un[u],
                        ) by {
                            assert(crate::order::char_lex_lt(un[k as int], un[u]));
                        }
                    } else {
                        assert(out@[q] == before[q]);
                    }
                }
                assert forall|q: int|
                    0 <= q < out@.len() implies exists|u: int|
                        0 <= u < k + 1 && un[u] == warned_package(#[trigger] out@[q]) by {
                    if q == out@.len() - 1 {
                        assert(un[k as int] == warned_package(out@[q]));
                    } else {
                        assert(out@[q] == before[q]);
                    }
                }
                assert forall|u: int|
                    0 <= u < k + 1 && has_many_versions(pv, #[trigger] un[u]) implies pk.contains(un[u]) by {
                    if u == k {
                        assert(pk[pk.len() - 1] == un[u]);
                    } else {
                        assert(pb.contains(un[u]));
                        let w = choose|w: int| 0 <= w < pb.len() && pb[w] == un[u];
                        assert(pk[w] == un[u]);
                    }
                }
            }
        } else {
            proof {
                assert forall|u: int|
                    0 <= u < k + 1 && has_many_versions(pv, #[trigger] un[u]) implies out@.map_values(
                    |w: CargoInspectionWarning| warned_package(w),
                ).contains(un[u]) by {
                    if u == k {
                        let vv = choose|vv: Seq<Seq<char>>|
                            is_sorted_dedup_of(vv, lock_versions(pv, un[u])) && vv.len() > 1;
                        crate::order::lemma_sorted_dedup_unique(vv, views(vs@), lock_versions(pv, un[u]));
                    }
                }
                assert forall|q: int|
                    0 <= q < out@.len() implies (forall|u: int|
                    k + 1 <= u < un.len() ==> crate::order::char_lex_lt(
                        warned_package(#[trigger] out@[q]),
                        un[u],
                    )) by {}
                assert forall|q: int|
                    0 <= q < out@.len() implies exists|u: int|
                        0 <= u < k + 1 && un[u] == warned_package(#[trigger] out@[q]) by {}
            }
        }
        k += 1;
    }
    proof {
        let pk = out@.map_values(|w: CargoInspectionWarning| warned_package(w));
        assert forall|n: Seq<char>|
            lock_names(pv).contains(n) && #[trigger] has_many_versions(pv, n) implies pk.contains(n) by {
            assert(un.contains(n));
            let u = choose|u: int| 0 <= u < un.len() && un[u] == n;
            assert(has_many_versions(pv, un[u]));
        }
        assert forall|q: int| 0 <= q < out@.len() implies lock_names(pv).contains(
            warned_package(#[trigger] out@[q]),
        ) by {
            let u = choose|u: int| 0 <= u < k && un[u] == warned_package(out@[q]);
            assert(un.contains(un[u]));
        }
    }
    out
}

/// Whether `pk` and `ws` are the packages and warnings of a lockfile with
/// this content: a single malformed-lock warning when the content is not
/// UTF-8 or not TOML, otherwise the `[[package]]` entries and one ambiguity
/// warning per name locked at several versions.
pub open spec fn parsed_lock_is(
    pk: Seq<LockedPackage>,
    ws: Seq<CargoInspectionWarning>,
    content: Seq<u8>,
    lock_path: Seq<char>,
) -> bool {
    &&& !vstd::utf8::valid_utf8(content) ==> pk.len() == 0 && ws.len() == 1 && is_malformed_lock(
        ws[0],
        lock_path,
        "not valid UTF-8"@,
        None,
        None,
    )
    &&& vstd::utf8::valid_utf8(content) ==> match spec_parse_toml(vstd::utf8::decode_utf8(content)) {
        Err(e) => pk.len() == 0 && ws.len() == 1 && is_malformed_lock(
            ws[0],
            lock_path,
            spec_malformed_reason(e.message@),
            spec_toml_line_col(e, content).0,
            spec_toml_line_col(e, content).1,
        ),
        Ok(doc) => locked_views(pk) == spec_lock_packages(doc) && ambiguity_warnings(ws, spec_lock_packages(doc)),
    }
}

/// Parses a `Cargo.lock` file entirely offline: its `[[package]]` entries
/// and the ambiguity warnings for names locked at several versions.
pub fn parse_lock(content: &[u8], lock_path: &str) -> (r: ParsedLock)
    requires
        content@.len() < usize::MAX,
    ensures
        parsed_lock_is(r.packages@, r.warnings@, content@, lock_path@),
{
    let mut warnings: Vec<CargoInspectionWarning> = Vec::new();
    let mut packages: Vec<LockedPackage> = Vec::new();
    let text = match utf8_text(content) {
        Some(s) => s,
        None => {
            warnings.push(
                CargoInspectionWarning::MalformedLock {
                    path: String::from_str(lock_path),
                    reason: String::from_str("not valid UTF-8"),
                    line: None,
                    column: None,
                },
            );
            return ParsedLock { packages, warnings };
        },
    };
    proof {
        vstd::utf8::encode_utf8_decode_utf8(text@);
    }
    let doc = match parse_toml(text) {
        Ok(v) => v,
        Err(e) => {
            let (line, column) = toml_line_col(&e, content);
            warnings.push(
                CargoInspectionWarning::MalformedLock {
                    path: String::from_str(lock_path),
                    reason: toml_malformed_reason(&e),
                    line,
                    column,
                },
            );
            return ParsedLock { packages, warnings };
        },
    };
    if let TomlValue::Table(t, _) = &doc {
        if let Some(TomlValue::Array(a, _)) = crate::inspect::cargo::toml_value::get(t, "package") {
            let mut i: usize = 0;
            while i < a.len()
                invariant
                    i <= a@.len(),
                    locked_views(packages@) == lock_entries(a@.take(i as int)),
                decreases a@.len() - i,
            {
                proof {
                    assert(a@.take(i + 1).drop_last() =~= a@.take(i as int));
                    assert(a@.take(i + 1).last() == a@[i as int]);
                }
                let ghost prev = packages@;
                match parse_lock_entry(&a[i]) {
                    Some(p) => {
                        packages.push(p);
                        assert(locked_views(packages@) =~= locked_views(prev).push(
                            lock_entry(a@[i as int]).unwrap(),
                        ));
                    },
                    None => {},
                }
                i += 1;
            }
            assert(a@.take(a@.len() as int) =~= a@);
        } else {
            assert(locked_views(packages@) =~= seq![]);
        }
    } else {
        assert(locked_views(packages@) =~= seq![]);
    }
    let warnings = ambiguity_warnings_of(&packages);
    ParsedLock { packages, warnings }
}

// ---------------------------------------------------------------------------
// Compatibility resolution
// ---------------------------------------------------------------------------

/// The `Debug` rendering of a list of strings, as `format!("{:?}", ..)`
/// writes it.
pub uninterp spec fn spec_debug_strings(v: Seq<Seq<char>>) -> Seq<char>;

/// The `Debug` rendering of a list of strings (`format!("{:?}", v)`), a
/// function of the strings alone.
#[verifier::external_body]
fn debug_strings(v: &Vec<String>) -> (r: String)
    ensures
        r@ == spec_debug_strings(views(v@)),
{
    format!("{:?}", v)
}

/// The sorted distinct versions locked for `name`.
pub open spec fn sorted_versions(pkgs: Seq<LockedV>, name: Seq<char>) -> Seq<Seq<char>> {
    choose|vs: Seq<Seq<char>>| is_sorted_dedup_of(vs, lock_versions(pkgs, name))
}

/// Outcome of resolving one dependency: the new resolved version (`None`
/// when left unchanged), the compatibility status and reasons, and whether
/// the lockfile becomes the dependency's lock source.
pub type ResolutionV = (Option<Option<Seq<char>>>, Seq<char>, Seq<Seq<char>>, bool);

/// Resolution against the sorted distinct locked versions `vs` of the
/// dependency's package, before the unknown-declared-version override.
pub open spec fn base_resolution(name: Seq<char>, declared: Seq<char>, vs: Seq<Seq<char>>, catalog: Seq<char>) -> ResolutionV {
    if vs.len() == 0 {
        (
            Some(None),
            "unknown_version"@,
            seq!["package "@ + name + " not found in Cargo.lock"@],
            false,
        )
    } else if vs.len() == 1 {
        let v = vs[0];
        if v == catalog {
            (
                Some(Some(v)),
                "applicable"@,
                seq!["resolved version "@ + v + " equals catalog version "@ + catalog],
                true,
            )
        } else {
            (
                Some(Some(v)),
                "unknown_version"@,
                seq!["resolved version "@ + v + " differs from catalog version "@ + catalog],
                true,
            )
        }
    } else if vs.contains(declared) {
        if declared == catalog {
            (
                Some(Some(declared)),
                "applicable"@,
                seq![
                    "declared version "@ + declared + " uniquely resolves to locked version "@
                        + declared + " which equals catalog version "@ + catalog,
                ],
                true,
            )
        } else {
            (
                Some(Some(declared)),
                "unknown_version"@,
                seq![
                    "declared version "@ + declared + " uniquely resolves to locked version "@
                        + declared + " which differs from catalog version "@ + catalog,
                ],
                true,
            )
        }
    } else {
        (
            Some(None),
            "unknown_version"@,
            seq![
                "package "@ + name + " has ambiguous versions in Cargo.lock: "@ + spec_debug_strings(vs),
            ],
            false,
        )
    }
}

/// Resolution of one dependency: without a lockfile the version is unknown;
/// with one, it follows the locked versions of its package, and a declared
/// version that could not be determined always leaves it unknown.
pub open spec fn spec_resolution(
    name: Seq<char>,
    declared: Seq<char>,
    lock: Option<Seq<LockedV>>,
    catalog: Seq<char>,
) -> ResolutionV {
    match lock {
        None => (None, "unknown_version"@, seq!["Cargo.lock not available for resolution"@], false),
        Some(pkgs) => {
            let vs = sorted_versions(pkgs, name);
            let b = base_resolution(name, declared, vs, catalog);
            if vs.len() > 0 && declared == "unknown"@ {
                (b.0, "unknown_version"@, seq!["declared version could not be determined"@], b.3)
            } else {
                b
            }
        },
    }
}

/// A dependency is applicable exactly at the catalog version: when
/// resolution says `applicable`, the resolved version is the catalog
/// version; a resolved version that differs from it is never applicable; a
/// dependency resolved to the catalog version with a known declared version
/// is applicable; and without a lockfile nothing resolves.
pub proof fn lemma_applicable_only_at_catalog_version(
    name: Seq<char>,
    declared: Seq<char>,
    lock: Option<Seq<LockedV>>,
    catalog: Seq<char>,
)
    ensures
        spec_resolution(name, declared, lock, catalog).1 == "applicable"@ ==> spec_resolution(
            name,
            declared,
            lock,
            catalog,
        ).0 == Some(Some(catalog)),
        forall|v: Seq<char>|
            spec_resolution(name, declared, lock, catalog).0 == Some(Some(v)) && v != catalog
                ==> spec_resolution(name, declared, lock, catalog).1 != "applicable"@,
        spec_resolution(name, declared, lock, catalog).0 == Some(Some(catalog)) && declared != "unknown"@
            ==> spec_resolution(name, declared, lock, catalog).1 == "applicable"@,
        lock is None ==> spec_resolution(name, declared, lock, catalog).0 is None && spec_resolution(
            name,
            declared,
            lock,
            catalog,
        ).1 == "unknown_version"@,
{
    reveal_strlit("applicable");
    reveal_strlit("unknown_version");
    assert("applicable"@ != "unknown_version"@) by {
        assert("applicable"@.len() != "unknown_version"@.len());
    }
}

/// Whether `new` is `old` resolved by `res` with lock source `src`.
pub open spec fn resolved_as(
    old: AmariDependencyEvidence,
    new: AmariDependencyEvidence,
    res: ResolutionV,
    src: (Seq<char>, Option<usize>, Seq<char>, u64),
) -> bool {
    &&& new.alias == old.alias
    &&& new.package_name == old.package_name
    &&& new.kind == old.kind
    &&& new.declared_version == old.declared_version
    &&& new.target == old.target
    &&& new.features == old.features
    &&& new.default_features == old.default_features
    &&& new.optional == old.optional
    &&& new.manifest_source == old.manifest_source
    &&& match res.0 {
        None => new.resolved_version == old.resolved_version,
        Some(None) => new.resolved_version is None,
        Some(Some(v)) => new.resolved_version matches Some(x) && x@ == v,
    }
    &&& new.compatibility.status@ == res.1
    &&& views(new.compatibility.reasons@) == res.2
    &&& if res.3 {
        new.lock_source matches Some(s) && s@ == src
    } else {
        new.lock_source == old.lock_source
    }
}

/// A single-reason compatibility verdict.
fn verdict(status: &str, reason: String) -> (r: Compatibility)
    ensures
        r.status@ == status@,
        views(r.reasons@) == seq![reason@],
{
    let mut reasons: Vec<String> = Vec::new();
    reasons.push(reason);
    assert(views(reasons@) =~= seq![reason@]);
    Compatibility { status: String::from_str(status), reasons }
}

/// `a + b + c` as one string.
fn concat3(a: &str, b: &str, c: &str) -> (r: String)
    ensures
        r@ == a@ + b@ + c@,
{
    let mut m = String::from_str(a);
    m.append(b);
    m.append(c);
    m
}

/// `a + b + c + d` as one string.
fn concat4(a: &str, b: &str, c: &str, d: &str) -> (r: String)
    ensures
        r@ == a@ + b@ + c@ + d@,
{
    let mut m = concat3(a, b, c);
    m.append(d);
    m
}

/// Resolves one dependency against the lock packages.
fn resolve_one(
    dep: AmariDependencyEvidence,
    lock: Option<&Vec<LockedPackage>>,
    catalog_version: &str,
    lock_source: &ManifestSource,
) -> (r: AmariDependencyEvidence)
    ensures
        resolved_as(
            dep,
            r,
            spec_resolution(
                dep.package_name@,
                dep.declared_version@,
                match lock {
                    Some(p) => Some(locked_views(p@)),
                    None => None,
                },
                catalog_version@,
            ),
            lock_source@,
        ),
        r.compatibility.status@ == "applicable"@ ==> (r.resolved_version matches Some(v) && v@
            == catalog_version@),
{
    proof {
        lemma_applicable_only_at_catalog_version(
            dep.package_name@,
            dep.declared_version@,
            match lock {
                Some(p) => Some(locked_views(p@)),
                None => None,
            },
            catalog_version@,
        );
    }
    let mut dep = dep;
    let pkgs = match lock {
        None => {
            dep.compatibility = verdict(
                "unknown_version",
                String::from_str("Cargo.lock not available for resolution"),
            );
            return dep;
        },
        Some(p) => p,
    };
    let ghost pv = locked_views(pkgs@);
    let vs = sort_dedup_strings(versions_for(pkgs, dep.package_name.as_str()));
    proof {
        crate::order::lemma_sorted_dedup_unique(
            views(vs@),
            sorted_versions(pv, dep.package_name@),
            lock_versions(pv, dep.package_name@),
        );
    }
    let catalog = catalog_version;
    if vs.len() == 0 {
        dep.resolved_version = None;
        dep.compatibility = verdict(
            "unknown_version",
            concat3("package ", dep.package_name.as_str(), " not found in Cargo.lock"),
        );
        return dep;
    }
    if vs.len() == 1 {
        let ver = vs[0].clone();
        if str_eq(ver.as_str(), catalog) {
            dep.compatibility = verdict(
                "applicable",
                concat4("resolved version ", ver.as_str(), " equals catalog version ", catalog),
            );
        } else {
            dep.compatibility = verdict(
                "unknown_version",
                concat4("resolved version ", ver.as_str(), " differs from catalog version ", catalog),
            );
        }
        dep.resolved_version = Some(ver);
        dep.lock_source = Some(lock_source.clone());
    } else {
        let mut found = false;
        let mut j: usize = 0;
        while j < vs.len()
            invariant
                j <= vs@.len(),
                found == exists|q: int| 0 <= q < j && vs@[q]@ == dep.declared_version@,
            decreases vs@.len() - j,
        {
            if str_eq(vs[j].as_str(), dep.declared_version.as_str()) {
                found = true;
            }
            j += 1;
        }
        proof {
            if found {
                let q = choose|q: int| 0 <= q < vs@.len() && vs@[q]@ == dep.declared_version@;
                assert(views(vs@)[q] == dep.declared_version@);
            }
            if views(vs@).contains(dep.declared_version@) {
                let q = choose|q: int| 0 <= q < views(vs@).len() && views(vs@)[q] == dep.declared_version@;
                assert(vs@[q]@ == dep.declared_version@);
            }
        }
        if found {
            let declared = dep.declared_version.clone();
            let mut m = concat4(
                "declared version ",
                declared.as_str(),
                " uniquely resolves to locked version ",
                declared.as_str(),
            );
            if str_eq(declared.as_str(), catalog) {
                m.append(" which equals catalog version ");
                m.append(catalog);
                dep.compatibility = verdict("applicable", m);
            } else {
                m.append(" which differs from catalog version ");
                m.append(catalog);
                dep.compatibility = verdict("unknown_version", m);
            }
            dep.resolved_version = Some(declared);
            dep.lock_source = Some(lock_source.clone());
        } else {
            let listed = debug_strings(&vs);
            dep.resolved_version = None;
            dep.compatibility = verdict(
                "unknown_version",
                concat4(
                    "package ",
                    dep.package_name.as_str(),
                    " has ambiguous versions in Cargo.lock: ",
                    listed.as_str(),
                ),
            );
        }
    }
    if str_eq(dep.declared_version.as_str(), "unknown") {
        dep.compatibility = verdict(
            "unknown_version",
            String::from_str("declared version could not be determined"),
        );
    }
    dep
}

/// Computes compatibility for each Amari dependency by matching it against
/// the lockfile's packages and comparing resolved versions with the catalog
/// version.
///
/// A single distinct locked version resolves; several resolve only when the
/// declared version names one of them; a same-version duplicate is not
/// ambiguity.
pub fn resolve_compatibility(
    deps: &mut Vec<AmariDependencyEvidence>,
    lock: Option<&ParsedLock>,
    catalog_version: &str,
    lock_path: &str,
    lock_content: &[u8],
    provenance: &ProvenanceAccumulator,
)
    ensures
        final(deps)@.len() == old(deps)@.len(),
        forall|i: int|
            0 <= i < old(deps)@.len() ==> resolved_as(
                old(deps)@[i],
                #[trigger] final(deps)@[i],
                spec_resolution(
                    old(deps)@[i].package_name@,
                    old(deps)@[i].declared_version@,
                    match lock {
                        Some(l) => Some(locked_views(l.packages@)),
                        None => None,
                    },
                    catalog_version@,
                ),
                (lock_path@, None, crate::hashing::spec_sha256_hex(lock_content@), lock_content@.len() as u64),
            ),
        forall|i: int|
            0 <= i < final(deps)@.len() && (#[trigger] final(deps)@[i]).compatibility.status@ == "applicable"@
                ==> (final(deps)@[i].resolved_version matches Some(v) && v@ == catalog_version@),
{
    let lock_source = provenance.make_source(lock_path, lock_content, None);
    let pkgs: Option<&Vec<LockedPackage>> = match lock {
        Some(l) => Some(&l.packages),
        None => None,
    };
    let mut pending: Vec<AmariDependencyEvidence> = Vec::new();
    std::mem::swap(deps, &mut pending);
    let ghost orig = pending@;
    let mut out: Vec<AmariDependencyEvidence> = Vec::new();
    while pending.len() > 0
        invariant
            orig == old(deps)@,
            out@.len() + pending@.len() == orig.len(),
            pending@ == orig.skip(out@.len() as int),
            forall|q: int|
                0 <= q < out@.len() ==> resolved_as(
                    orig[q],
                    #[trigger] out@[q],
                    spec_resolution(
                        orig[q].package_name@,
                        orig[q].declared_version@,
                        match pkgs {
                            Some(p) => Some(locked_views(p@)),
                            None => None,
                        },
                        catalog_version@,
                    ),
                    lock_source@,
                ),
            forall|q: int|
                0 <= q < out@.len() && (#[trigger] out@[q]).compatibility.status@ == "applicable"@ ==> (
                out@[q].resolved_version matches Some(v) && v@ == catalog_version@),
        decreases pending@.len(),
    {
        let dep = pending.remove(0);
        assert(dep == orig[out@.len() as int]);
        let r = resolve_one(dep, pkgs, catalog_version, &lock_source);
        out.push(r);
        assert(pending@ =~= orig.skip(out@.len() as int));
    }
    *deps = out;
}

} // verus!
