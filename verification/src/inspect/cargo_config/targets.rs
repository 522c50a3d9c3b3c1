//! Reading `[target.<key>]` tables: normalized keys, sanitized settings,
//! and the merge of tables whose keys normalize equal.

use vstd::prelude::*;
use vstd::string::StringExecFns;

use crate::inspect::cargo::toml_value::{lookup, spec_table_at, table_at, TomlValue};
use crate::inspect::cargo_config::config::{cat_index, cat_index_of, target_key_display};
use crate::inspect::cargo_config::settings::{
    flags_evidence_is, flags_warnings, linker_is, linker_warnings, parse_linker, parse_runner,
    parse_rustflags_setting, runner_is, runner_warnings,
};
use crate::inspect::cargo_config::target_key::{normalize_target_key, spec_normalize_target_key};
use crate::inspect::cargo_config::types::{
    platform_warning_views, CargoPlatformWarning, CargoTargetKey, CargoTargetSettings, ConfigSetting,
    ConfigSource, ConfiguredLinker, ConfiguredRunner, PlatformWarningV, RustflagCategoryCount,
    RustflagsEvidence, TargetKeyV,
};
use crate::order::{
    char_lex_lt, sort_dedup_strings, sort_key_view, sort_key_views, sorted_by_key, sorted_dedup,
    stable_sort_by_key, str_lt, views, SortKey, SortKeyV,
};
use crate::text::str_eq;

verus! {

// ---------------------------------------------------------------------------
// The order of settings (field by field, as the types declare them)
// ---------------------------------------------------------------------------

/// `false` before `true`.
pub open spec fn bool_lt(a: bool, b: bool) -> bool {
    !a && b
}

/// Order of category counts: by category, then count.
pub open spec fn cat_count_lt(x: RustflagCategoryCount, y: RustflagCategoryCount) -> bool {
    cat_index(x.category) < cat_index(y.category) || (x.category == y.category && x.count < y.count)
}

/// Lexicographic order of category count lists.
pub open spec fn cats_lt(a: Seq<RustflagCategoryCount>, b: Seq<RustflagCategoryCount>) -> bool
    decreases a.len(),
{
    if a.len() == 0 {
        b.len() > 0
    } else if b.len() == 0 {
        false
    } else if a[0] != b[0] {
        cat_count_lt(a[0], b[0])
    } else {
        cats_lt(a.drop_first(), b.drop_first())
    }
}

/// Equal rustflags evidence.
pub open spec fn flags_same(a: RustflagsEvidence, b: RustflagsEvidence) -> bool {
    &&& a.flag_count == b.flag_count
    &&& a.categories@ == b.categories@
    &&& a.has_native_linking == b.has_native_linking
    &&& a.native_flag_count == b.native_flag_count
    &&& a.identity@ == b.identity@
    &&& a.native_identity@ == b.native_identity@
}

/// Order of rustflags evidence, field by field.
pub open spec fn flags_lt(a: RustflagsEvidence, b: RustflagsEvidence) -> bool {
    ||| a.flag_count < b.flag_count
    ||| a.flag_count == b.flag_count && cats_lt(a.categories@, b.categories@)
    ||| a.flag_count == b.flag_count && a.categories@ == b.categories@ && bool_lt(
        a.has_native_linking,
        b.has_native_linking,
    )
    ||| a.flag_count == b.flag_count && a.categories@ == b.categories@ && a.has_native_linking
        == b.has_native_linking && a.native_flag_count < b.native_flag_count
    ||| a.flag_count == b.flag_count && a.categories@ == b.categories@ && a.has_native_linking
        == b.has_native_linking && a.native_flag_count == b.native_flag_count && char_lex_lt(
        a.identity@,
        b.identity@,
    )
    ||| a.flag_count == b.flag_count && a.categories@ == b.categories@ && a.has_native_linking
        == b.has_native_linking && a.native_flag_count == b.native_flag_count && a.identity@ == b.identity@
        && char_lex_lt(a.native_identity@, b.native_identity@)
}

/// Equal optional linkers.
pub open spec fn linker_same(a: Option<ConfiguredLinker>, b: Option<ConfiguredLinker>) -> bool {
    match (a, b) {
        (None, None) => true,
        (Some(x), Some(y)) => x.basename@ == y.basename@ && x.identity@ == y.identity@,
        _ => false,
    }
}

/// Order of optional linkers: none first, then by basename and identity.
pub open spec fn linker_lt(a: Option<ConfiguredLinker>, b: Option<ConfiguredLinker>) -> bool {
    match (a, b) {
        (None, Some(_)) => true,
        (Some(x), Some(y)) => char_lex_lt(x.basename@, y.basename@) || (x.basename@ == y.basename@
            && char_lex_lt(x.identity@, y.identity@)),
        _ => false,
    }
}

/// Equal optional runners.
pub open spec fn runner_same(a: Option<ConfiguredRunner>, b: Option<ConfiguredRunner>) -> bool {
    match (a, b) {
        (None, None) => true,
        (Some(x), Some(y)) => x.executable_basename@ == y.executable_basename@ && x.token_count
            == y.token_count && x.identity@ == y.identity@,
        _ => false,
    }
}

/// Order of optional runners: none first, then by basename, token count,
/// and identity.
pub open spec fn runner_lt(a: Option<ConfiguredRunner>, b: Option<ConfiguredRunner>) -> bool {
    match (a, b) {
        (None, Some(_)) => true,
        (Some(x), Some(y)) => char_lex_lt(x.executable_basename@, y.executable_basename@) || (
        x.executable_basename@ == y.executable_basename@ && x.token_count < y.token_count) || (
        x.executable_basename@ == y.executable_basename@ && x.token_count == y.token_count && char_lex_lt(
            x.identity@,
            y.identity@,
        )),
        _ => false,
    }
}

/// Equal settings (flags, linker, runner).
pub open spec fn settings_same(a: CargoTargetSettings, b: CargoTargetSettings) -> bool {
    &&& flags_same(a.rustflags, b.rustflags)
    &&& flags_same(a.rustdocflags, b.rustdocflags)
    &&& linker_same(a.linker, b.linker)
    &&& runner_same(a.runner, b.runner)
}

/// Order of settings of equal keys: by `rustflags`, `rustdocflags`,
/// linker, then runner.
pub open spec fn settings_lt(a: CargoTargetSettings, b: CargoTargetSettings) -> bool {
    ||| flags_lt(a.rustflags, b.rustflags)
    ||| flags_same(a.rustflags, b.rustflags) && flags_lt(a.rustdocflags, b.rustdocflags)
    ||| flags_same(a.rustflags, b.rustflags) && flags_same(a.rustdocflags, b.rustdocflags) && linker_lt(
        a.linker,
        b.linker,
    )
    ||| flags_same(a.rustflags, b.rustflags) && flags_same(a.rustdocflags, b.rustdocflags) && linker_same(
        a.linker,
        b.linker,
    ) && runner_lt(a.runner, b.runner)
}

proof fn lemma_cats_irreflexive(a: Seq<RustflagCategoryCount>)
    ensures
        !cats_lt(a, a),
    decreases a.len(),
{
    if a.len() > 0 {
        lemma_cats_irreflexive(a.drop_first());
    }
}

fn cats_lt_exec(a: &[RustflagCategoryCount], b: &[RustflagCategoryCount]) -> (r: bool)
    ensures
        r == cats_lt(a@, b@),
{
    let mut k: usize = 0;
    assert(a@.skip(0) =~= a@);
    assert(b@.skip(0) =~= b@);
    while k < a.len() && k < b.len() && a[k].category == b[k].category && a[k].count == b[k].count
        invariant
            k <= a@.len(),
            k <= b@.len(),
            cats_lt(a@.skip(k as int), b@.skip(k as int)) == cats_lt(a@, b@),
        decreases a@.len() - k,
    {
        assert(a@.skip(k as int).drop_first() =~= a@.skip(k + 1));
        assert(b@.skip(k as int).drop_first() =~= b@.skip(k + 1));
        k += 1;
    }
    if k == a.len() {
        k < b.len()
    } else if k == b.len() {
        false
    } else {
        let x = a[k];
        let y = b[k];
        let ix = cat_index_of(x.category);
        let iy = cat_index_of(y.category);
        ix < iy || (x.category == y.category && x.count < y.count)
    }
}

fn cats_eq_exec(a: &[RustflagCategoryCount], b: &[RustflagCategoryCount]) -> (r: bool)
    ensures
        r == (a@ == b@),
{
    if a.len() != b.len() {
        return false;
    }
    let mut k: usize = 0;
    while k < a.len()
        invariant
            a@.len() == b@.len(),
            k <= a@.len(),
            forall|j: int| 0 <= j < k ==> a@[j] == b@[j],
        decreases a@.len() - k,
    {
        if !(a[k].category == b[k].category && a[k].count == b[k].count) {
            return false;
        }
        k += 1;
    }
    assert(a@ =~= b@);
    true
}

fn flags_same_exec(a: &RustflagsEvidence, b: &RustflagsEvidence) -> (r: bool)
    ensures
        r == flags_same(*a, *b),
{
    a.flag_count == b.flag_count && cats_eq_exec(a.categories.as_slice(), b.categories.as_slice())
        && a.has_native_linking == b.has_native_linking && a.native_flag_count == b.native_flag_count
        && str_eq(a.identity.as_str(), b.identity.as_str()) && str_eq(
        a.native_identity.as_str(),
        b.native_identity.as_str(),
    )
}

fn flags_lt_exec(a: &RustflagsEvidence, b: &RustflagsEvidence) -> (r: bool)
    ensures
        r == flags_lt(*a, *b),
{
    if a.flag_count != b.flag_count {
        return a.flag_count < b.flag_count;
    }
    if !cats_eq_exec(a.categories.as_slice(), b.categories.as_slice()) {
        return cats_lt_exec(a.categories.as_slice(), b.categories.as_slice());
    }
    proof {
        lemma_cats_irreflexive(a.categories@);
    }
    if a.has_native_linking != b.has_native_linking {
        return !a.has_native_linking && b.has_native_linking;
    }
    if a.native_flag_count != b.native_flag_count {
        return a.native_flag_count < b.native_flag_count;
    }
    if !str_eq(a.identity.as_str(), b.identity.as_str()) {
        return str_lt(a.identity.as_str(), b.identity.as_str());
    }
    proof {
        crate::order::lemma_char_lex_irreflexive(a.identity@);
    }
    str_lt(a.native_identity.as_str(), b.native_identity.as_str())
}

fn linker_same_exec(a: &Option<ConfiguredLinker>, b: &Option<ConfiguredLinker>) -> (r: bool)
    ensures
        r == linker_same(*a, *b),
{
    match (a, b) {
        (None, None) => true,
        (Some(x), Some(y)) => str_eq(x.basename.as_str(), y.basename.as_str()) && str_eq(
            x.identity.as_str(),
            y.identity.as_str(),
        ),
        _ => false,
    }
}

fn linker_lt_exec(a: &Option<ConfiguredLinker>, b: &Option<ConfiguredLinker>) -> (r: bool)
    ensures
        r == linker_lt(*a, *b),
{
    match (a, b) {
        (None, Some(_)) => true,
        (Some(x), Some(y)) => str_lt(x.basename.as_str(), y.basename.as_str()) || (str_eq(
            x.basename.as_str(),
            y.basename.as_str(),
        ) && str_lt(x.identity.as_str(), y.identity.as_str())),
        _ => false,
    }
}

fn runner_same_exec(a: &Option<ConfiguredRunner>, b: &Option<ConfiguredRunner>) -> (r: bool)
    ensures
        r == runner_same(*a, *b),
{
    match (a, b) {
        (None, None) => true,
        (Some(x), Some(y)) => str_eq(x.executable_basename.as_str(), y.executable_basename.as_str())
            && x.token_count == y.token_count && str_eq(x.identity.as_str(), y.identity.as_str()),
        _ => false,
    }
}

fn runner_lt_exec(a: &Option<ConfiguredRunner>, b: &Option<ConfiguredRunner>) -> (r: bool)
    ensures
        r == runner_lt(*a, *b),
{
    match (a, b) {
        (None, Some(_)) => true,
        (Some(x), Some(y)) => {
            let same_name = str_eq(x.executable_basename.as_str(), y.executable_basename.as_str());
            str_lt(x.executable_basename.as_str(), y.executable_basename.as_str()) || (same_name
                && x.token_count < y.token_count) || (same_name && x.token_count == y.token_count
                && str_lt(x.identity.as_str(), y.identity.as_str()))
        },
        _ => false,
    }
}

fn settings_same_exec(a: &CargoTargetSettings, b: &CargoTargetSettings) -> (r: bool)
    ensures
        r == settings_same(*a, *b),
{
    flags_same_exec(&a.rustflags, &b.rustflags) && flags_same_exec(&a.rustdocflags, &b.rustdocflags)
        && linker_same_exec(&a.linker, &b.linker) && runner_same_exec(&a.runner, &b.runner)
}

fn settings_lt_exec(a: &CargoTargetSettings, b: &CargoTargetSettings) -> (r: bool)
    ensures
        r == settings_lt(*a, *b),
{
    if flags_lt_exec(&a.rustflags, &b.rustflags) {
        return true;
    }
    if !flags_same_exec(&a.rustflags, &b.rustflags) {
        return false;
    }
    if flags_lt_exec(&a.rustdocflags, &b.rustdocflags) {
        return true;
    }
    if !flags_same_exec(&a.rustdocflags, &b.rustdocflags) {
        return false;
    }
    if linker_lt_exec(&a.linker, &b.linker) {
        return true;
    }
    if !linker_same_exec(&a.linker, &b.linker) {
        return false;
    }
    runner_lt_exec(&a.runner, &b.runner)
}

// ---------------------------------------------------------------------------
// Collecting the target tables
// ---------------------------------------------------------------------------

/// The reason an invalid target key gives.
pub open spec fn invalid_key_reason() -> Seq<char> {
    "invalid Cargo target triple or cfg selector"@
}

/// The warnings the settings of one target table add, in reading order.
pub open spec fn entry_warnings(et: Seq<(String, TomlValue)>) -> Seq<CargoPlatformWarning> {
    flags_warnings(lookup(et, "rustflags"@), ConfigSetting::TargetTableRustflags) + flags_warnings(
        lookup(et, "rustdocflags"@),
        ConfigSetting::TargetTableRustdocflags,
    ) + linker_warnings(lookup(et, "linker"@)) + runner_warnings(lookup(et, "runner"@), ConfigSetting::TargetTableRunner)
}

/// The warnings reading the entries of the `[target]` table adds: each
/// table entry's settings warnings, or an invalid-identifier warning for a
/// key that does not normalize. Entries that are not tables are skipped.
pub open spec fn targets_scan_warnings(ts: Seq<(String, TomlValue)>, path: Seq<char>) -> Seq<PlatformWarningV>
    decreases ts.len(),
{
    if ts.len() == 0 {
        seq![]
    } else {
        targets_scan_warnings(ts.drop_last(), path) + match ts.last().1 {
            TomlValue::Table(et, _) => match spec_normalize_target_key(ts.last().0@) {
                Some(_) => platform_warning_views(entry_warnings(et@)),
                None => seq![PlatformWarningV::InvalidTargetIdentifier(path, invalid_key_reason())],
            },
            _ => seq![],
        }
    }
}

/// The normalized key and table of each table entry whose key normalizes,
/// in order.
pub open spec fn targets_scan(ts: Seq<(String, TomlValue)>) -> Seq<(TargetKeyV, Seq<(String, TomlValue)>)>
    decreases ts.len(),
{
    if ts.len() == 0 {
        seq![]
    } else {
        targets_scan(ts.drop_last()) + match ts.last().1 {
            TomlValue::Table(et, _) => match spec_normalize_target_key(ts.last().0@) {
                Some(k) => seq![(k, et@)],
                None => seq![],
            },
            _ => seq![],
        }
    }
}

/// Whether `e` holds the settings of the target table `et` under key `k`.
pub open spec fn entry_is(
    e: CargoTargetSettings,
    k: TargetKeyV,
    et: Seq<(String, TomlValue)>,
    src: (Seq<char>, Option<usize>, Seq<char>, u64),
) -> bool {
    &&& e.key@ == k
    &&& flags_evidence_is(lookup(et, "rustflags"@), e.rustflags)
    &&& flags_evidence_is(lookup(et, "rustdocflags"@), e.rustdocflags)
    &&& linker_is(lookup(et, "linker"@), e.linker)
    &&& runner_is(lookup(et, "runner"@), e.runner)
    &&& e.source@ == src
}

/// Whether `c` holds the settings of every target table, in table order.
pub open spec fn collected_is(
    c: Seq<CargoTargetSettings>,
    ts: Seq<(String, TomlValue)>,
    src: (Seq<char>, Option<usize>, Seq<char>, u64),
) -> bool {
    &&& c.len() == targets_scan(ts).len()
    &&& forall|i: int|
        0 <= i < c.len() ==> entry_is(#[trigger] c[i], targets_scan(ts)[i].0, targets_scan(ts)[i].1, src)
}

fn value_at<'a>(t: &'a Vec<(String, TomlValue)>, key: &str) -> (r: Option<&'a TomlValue>)
    ensures
        crate::inspect::cargo_config::settings::opt_deref(r) == lookup(t@, key@),
{
    crate::inspect::cargo::toml_value::get(t, key)
}

/// The settings of one target table under a normalized key.
fn target_entry(
    key: CargoTargetKey,
    et: &Vec<(String, TomlValue)>,
    source: &ConfigSource,
    warnings: &mut Vec<CargoPlatformWarning>,
) -> (r: CargoTargetSettings)
    ensures
        entry_is(r, key@, et@, source@),
        final(warnings)@ == old(warnings)@ + entry_warnings(et@),
{
    let rustflags = parse_rustflags_setting(value_at(et, "rustflags"), ConfigSetting::TargetTableRustflags, warnings);
    let rustdocflags = parse_rustflags_setting(
        value_at(et, "rustdocflags"),
        ConfigSetting::TargetTableRustdocflags,
        warnings,
    );
    let linker = parse_linker(value_at(et, "linker"), warnings);
    let runner = parse_runner(value_at(et, "runner"), ConfigSetting::TargetTableRunner, warnings);
    assert(final(warnings)@ =~= old(warnings)@ + entry_warnings(et@));
    CargoTargetSettings { key, rustflags, rustdocflags, linker, runner, source: source.clone() }
}

/// Reads the settings of every entry of the `[target]` table, in order.
fn collect_targets(
    ts: &Vec<(String, TomlValue)>,
    source: &ConfigSource,
    warnings: &mut Vec<CargoPlatformWarning>,
) -> (r: Vec<CargoTargetSettings>)
    ensures
        collected_is(r@, ts@, source@),
        platform_warning_views(final(warnings)@) == platform_warning_views(old(warnings)@) + targets_scan_warnings(
            ts@,
            source.path@,
        ),
{
    let mut out: Vec<CargoTargetSettings> = Vec::new();
    let mut i: usize = 0;
    while i < ts.len()
        invariant
            i <= ts@.len(),
            collected_is(out@, ts@.take(i as int), source@),
            platform_warning_views(warnings@) == platform_warning_views(old(warnings)@) + targets_scan_warnings(
                ts@.take(i as int),
                source.path@,
            ),
        decreases ts@.len() - i,
    {
        proof {
            assert(ts@.take(i + 1).drop_last() =~= ts@.take(i as int));
            assert(ts@.take(i + 1).last() == ts@[i as int]);
        }
        let ghost w0 = warnings@;
        let ghost o0 = out@;
        if let TomlValue::Table(et, _) = &ts[i].1 {
            match normalize_target_key(ts[i].0.as_str()) {
                Some(key) => {
                    let ghost kv = key@;
                    let e = target_entry(key, et, source, warnings);
                    out.push(e);
                    proof {
                        assert(platform_warning_views(w0 + entry_warnings(et@)) =~= platform_warning_views(w0)
                            + platform_warning_views(entry_warnings(et@)));
                        assert(targets_scan(ts@.take(i + 1)) =~= targets_scan(ts@.take(i as int)).push(
                            (kv, et@),
                        ));
                        assert forall|q: int| 0 <= q < out@.len() implies entry_is(
                            #[trigger] out@[q],
                            targets_scan(ts@.take(i + 1))[q].0,
                            targets_scan(ts@.take(i + 1))[q].1,
                            source@,
                        ) by {
                            if q < o0.len() {
                                assert(out@[q] == o0[q]);
                            }
                        }
                    }
                },
                None => {
                    let mut path = String::new();
                    path.append(source.path.as_str());
                    warnings.push(
                        CargoPlatformWarning::InvalidTargetIdentifier {
                            path,
                            reason: String::from_str("invalid Cargo target triple or cfg selector"),
                        },
                    );
                    proof {
                        assert(platform_warning_views(warnings@) =~= platform_warning_views(w0).push(
                            PlatformWarningV::InvalidTargetIdentifier(source.path@, invalid_key_reason()),
                        ));
                        assert(targets_scan(ts@.take(i + 1)) =~= targets_scan(ts@.take(i as int)));
                    }
                },
            }
        } else {
            proof {
                assert(targets_scan(ts@.take(i + 1)) =~= targets_scan(ts@.take(i as int)));
                assert(targets_scan_warnings(ts@.take(i + 1), source.path@) =~= targets_scan_warnings(
                    ts@.take(i as int),
                    source.path@,
                ));
            }
        }
        i += 1;
    }
    assert(ts@.take(ts@.len() as int) =~= ts@);
    out
}

// ---------------------------------------------------------------------------
// Ordering by key and merging equal keys
// ---------------------------------------------------------------------------

/// The sort key of a target key: triples before cfg selectors, triples by
/// text, selectors by display then identity.
pub open spec fn target_sort_key(k: TargetKeyV) -> SortKeyV {
    match k {
        TargetKeyV::Triple(t) => ("0"@, t, 0int, None::<Seq<char>>),
        TargetKeyV::Cfg(d, i) => ("1"@, d, 0int, Some(i)),
    }
}

/// The sort keys of target settings.
pub open spec fn target_sort_keys(c: Seq<CargoTargetSettings>) -> Seq<SortKeyV> {
    c.map_values(|e: CargoTargetSettings| target_sort_key(e.key@))
}

/// Target settings ordered stably by key.
pub open spec fn sorted_targets(c: Seq<CargoTargetSettings>) -> Seq<CargoTargetSettings> {
    sorted_by_key(target_sort_keys(c), c.len() as int).map_values(|i: int| c[i])
}

fn target_sort_keys_exec(v: &Vec<CargoTargetSettings>) -> (r: Vec<SortKey>)
    ensures
        r@.len() == v@.len(),
        sort_key_views(r@) == target_sort_keys(v@),
{
    let mut out: Vec<SortKey> = Vec::new();
    let mut i: usize = 0;
    while i < v.len()
        invariant
            i <= v@.len(),
            out@.len() == i,
            sort_key_views(out@) == target_sort_keys(v@.take(i as int)),
        decreases v@.len() - i,
    {
        let ghost prev = out@;
        let k = match &v[i].key {
            CargoTargetKey::Triple { triple } => SortKey {
                first: String::from_str("0"),
                second: triple.clone(),
                rank: 0,
                last: None,
            },
            CargoTargetKey::Cfg { display, identity } => SortKey {
                first: String::from_str("1"),
                second: display.clone(),
                rank: 0,
                last: Some(identity.clone()),
            },
        };
        assert(sort_key_view(k) == target_sort_key(v@[i as int].key@));
        out.push(k);
        assert(sort_key_views(out@) =~= sort_key_views(prev).push(sort_key_view(k)));
        assert(target_sort_keys(v@.take(i + 1)) =~= target_sort_keys(v@.take(i as int)).push(
            target_sort_key(v@[i as int].key@),
        ));
        i += 1;
    }
    assert(v@.take(v@.len() as int) =~= v@);
    out
}

/// The keys of a list in order of first occurrence.
pub open spec fn first_keys(s: Seq<CargoTargetSettings>) -> Seq<TargetKeyV>
    decreases s.len(),
{
    if s.len() == 0 {
        seq![]
    } else if first_keys(s.drop_last()).contains(s.last().key@) {
        first_keys(s.drop_last())
    } else {
        first_keys(s.drop_last()).push(s.last().key@)
    }
}

/// Whether entry `q` has key `k`.
pub open spec fn in_group(s: Seq<CargoTargetSettings>, q: int, k: TargetKeyV) -> bool {
    0 <= q < s.len() && s[q].key@ == k
}

/// Whether entry `q` has key `k` and no entry with that key has settings
/// ordered before it.
pub open spec fn minimal_in_group(s: Seq<CargoTargetSettings>, q: int, k: TargetKeyV) -> bool {
    in_group(s, q, k) && forall|f: int| #[trigger] in_group(s, f, k) ==> !settings_lt(s[f], s[q])
}

/// Equal entries (key, settings, and source).
pub open spec fn entry_same(a: CargoTargetSettings, b: CargoTargetSettings) -> bool {
    a.key@ == b.key@ && settings_same(a, b) && a.source@ == b.source@
}

/// Whether `m` represents the entries of key `k`: it equals one of them,
/// and one whose settings no other entry's precede when there is such.
pub open spec fn rep_ok(s: Seq<CargoTargetSettings>, m: CargoTargetSettings, k: TargetKeyV) -> bool {
    &&& m.key@ == k
    &&& exists|q: int|
        #[trigger] in_group(s, q, k) && entry_same(m, s[q]) && ((exists|p: int| #[trigger] minimal_in_group(s, p, k))
            ==> minimal_in_group(s, q, k))
}

/// Whether `r` merges `s`: one representative per key, in order of first
/// occurrence.
pub open spec fn merged_is(r: Seq<CargoTargetSettings>, s: Seq<CargoTargetSettings>) -> bool {
    &&& r.len() == first_keys(s).len()
    &&& forall|m: int| 0 <= m < r.len() ==> rep_ok(s, #[trigger] r[m], first_keys(s)[m])
}

fn key_eq(a: &CargoTargetKey, b: &CargoTargetKey) -> (r: bool)
    ensures
        r == (a@ == b@),
{
    match (a, b) {
        (CargoTargetKey::Triple { triple: x }, CargoTargetKey::Triple { triple: y }) => str_eq(x.as_str(), y.as_str()),
        (CargoTargetKey::Cfg { display: d1, identity: i1 }, CargoTargetKey::Cfg { display: d2, identity: i2 }) =>
            str_eq(d1.as_str(), d2.as_str()) && str_eq(i1.as_str(), i2.as_str()),
        _ => false,
    }
}

fn clone_flags(f: &RustflagsEvidence) -> (r: RustflagsEvidence)
    ensures
        flags_same(r, *f),
{
    let mut categories: Vec<RustflagCategoryCount> = Vec::new();
    let mut i: usize = 0;
    while i < f.categories.len()
        invariant
            i <= f.categories@.len(),
            categories@ == f.categories@.take(i as int),
        decreases f.categories@.len() - i,
    {
        categories.push(f.categories[i]);
        assert(categories@ =~= f.categories@.take(i + 1));
        i += 1;
    }
    assert(f.categories@.take(f.categories@.len() as int) =~= f.categories@);
    RustflagsEvidence {
        flag_count: f.flag_count,
        categories,
        has_native_linking: f.has_native_linking,
        native_flag_count: f.native_flag_count,
        identity: f.identity.clone(),
        native_identity: f.native_identity.clone(),
    }
}

fn clone_settings(e: &CargoTargetSettings) -> (r: CargoTargetSettings)
    ensures
        entry_same(r, *e),
{
    CargoTargetSettings {
        key: e.key.clone(),
        rustflags: clone_flags(&e.rustflags),
        rustdocflags: clone_flags(&e.rustdocflags),
        linker: match &e.linker {
            Some(l) => Some(ConfiguredLinker { basename: l.basename.clone(), identity: l.identity.clone() }),
            None => None,
        },
        runner: match &e.runner {
            Some(x) => Some(
                ConfiguredRunner {
                    executable_basename: x.executable_basename.clone(),
                    token_count: x.token_count,
                    identity: x.identity.clone(),
                },
            ),
            None => None,
        },
        source: e.source.clone(),
    }
}

/// Whether no entry with the key of entry `q` has settings ordered before
/// it.
fn is_minimal(s: &Vec<CargoTargetSettings>, q: usize) -> (r: bool)
    requires
        q < s@.len(),
    ensures
        r == minimal_in_group(s@, q as int, s@[q as int].key@),
{
    let mut f: usize = 0;
    while f < s.len()
        invariant
            q < s@.len(),
            f <= s@.len(),
            forall|x: int| 0 <= x < f && #[trigger] in_group(s@, x, s@[q as int].key@) ==> !settings_lt(s@[x], s@[q as int]),
        decreases s@.len() - f,
    {
        if key_eq(&s[f].key, &s[q].key) && settings_lt_exec(&s[f], &s[q]) {
            assert(in_group(s@, f as int, s@[q as int].key@));
            return false;
        }
        f += 1;
    }
    true
}

/// The representative of the key of entry `j`: the first entry with that
/// key whose settings no other's precede, or `j` when there is none.
fn pick_rep(s: &Vec<CargoTargetSettings>, j: usize) -> (q: usize)
    requires
        j < s@.len(),
    ensures
        in_group(s@, q as int, s@[j as int].key@),
        (exists|p: int| #[trigger] minimal_in_group(s@, p, s@[j as int].key@)) ==> minimal_in_group(
            s@,
            q as int,
            s@[j as int].key@,
        ),
{
    let ghost k = s@[j as int].key@;
    let mut q: usize = 0;
    while q < s.len()
        invariant
            j < s@.len(),
            k == s@[j as int].key@,
            q <= s@.len(),
            forall|x: int| 0 <= x < q ==> !#[trigger] minimal_in_group(s@, x, k),
        decreases s@.len() - q,
    {
        if key_eq(&s[q].key, &s[j].key) && is_minimal(s, q) {
            return q;
        }
        q += 1;
    }
    proof {
        if exists|p: int| #[trigger] minimal_in_group(s@, p, k) {
            let p = choose|p: int| #[trigger] minimal_in_group(s@, p, k);
            assert(!minimal_in_group(s@, p, k));
        }
    }
    j
}

/// The keys of a list of target settings.
pub open spec fn keys_of(v: Seq<CargoTargetSettings>) -> Seq<TargetKeyV> {
    v.map_values(|e: CargoTargetSettings| e.key@)
}

/// Whether key `k` is among the keys of `out`.
fn key_seen(out: &Vec<CargoTargetSettings>, k: &CargoTargetKey) -> (r: bool)
    ensures
        r == keys_of(out@).contains(k@),
{
    let mut i: usize = 0;
    while i < out.len()
        invariant
            i <= out@.len(),
            forall|x: int| 0 <= x < i ==> out@[x].key@ != k@,
        decreases out@.len() - i,
    {
        if key_eq(&out[i].key, k) {
            assert(keys_of(out@)[i as int] == k@);
            return true;
        }
        i += 1;
    }
    proof {
        if keys_of(out@).contains(k@) {
            let x = choose|x: int|
                0 <= x < out@.len() && #[trigger] keys_of(out@)[x] == k@;
            assert(out@[x].key@ == k@);
        }
    }
    false
}

/// One representative per key, in order of first occurrence.
fn merge_targets(s: &Vec<CargoTargetSettings>) -> (r: Vec<CargoTargetSettings>)
    ensures
        merged_is(r@, s@),
{
    let mut out: Vec<CargoTargetSettings> = Vec::new();
    let mut j: usize = 0;
    while j < s.len()
        invariant
            j <= s@.len(),
            keys_of(out@) == first_keys(s@.take(j as int)),
            forall|m: int| 0 <= m < out@.len() ==> rep_ok(s@, #[trigger] out@[m], first_keys(s@.take(j as int))[m]),
        decreases s@.len() - j,
    {
        proof {
            assert(s@.take(j + 1).drop_last() =~= s@.take(j as int));
            assert(s@.take(j + 1).last() == s@[j as int]);
        }
        let ghost o0 = out@;
        if !key_seen(&out, &s[j].key) {
            let q = pick_rep(s, j);
            let m = clone_settings(&s[q]);
            out.push(m);
            proof {
                let k = s@[j as int].key@;
                assert(keys_of(out@) =~= keys_of(o0).push(k));
                assert(rep_ok(s@, m, k)) by {
                    assert(in_group(s@, q as int, k));
                }
                assert forall|x: int| 0 <= x < out@.len() implies rep_ok(
                    s@,
                    #[trigger] out@[x],
                    first_keys(s@.take(j + 1))[x],
                ) by {
                    if x < o0.len() {
                        assert(out@[x] == o0[x]);
                    }
                }
            }
        }
        j += 1;
    }
    assert(s@.take(s@.len() as int) =~= s@);
    out
}

// ---------------------------------------------------------------------------
// Conflicting duplicates
// ---------------------------------------------------------------------------

/// The display form of a target key.
pub open spec fn key_display(k: TargetKeyV) -> Seq<char> {
    match k {
        TargetKeyV::Triple(t) => t,
        TargetKeyV::Cfg(d, _) => d,
    }
}

/// The first entry of `r` with key `k`.
pub open spec fn rep_of(r: Seq<CargoTargetSettings>, k: TargetKeyV) -> Option<CargoTargetSettings>
    decreases r.len(),
{
    if r.len() == 0 {
        None
    } else if r[0].key@ == k {
        Some(r[0])
    } else {
        rep_of(r.drop_first(), k)
    }
}

/// The displays of the entries of `s` whose settings differ from their
/// key's representative in `r`, in order.
pub open spec fn conflict_displays(s: Seq<CargoTargetSettings>, r: Seq<CargoTargetSettings>) -> Seq<Seq<char>>
    decreases s.len(),
{
    if s.len() == 0 {
        seq![]
    } else {
        conflict_displays(s.drop_last(), r) + match rep_of(r, s.last().key@) {
            Some(m) => if settings_same(s.last(), m) {
                seq![]
            } else {
                seq![key_display(s.last().key@)]
            },
            None => seq![],
        }
    }
}

/// Occurrences of `d` in `v`.
pub open spec fn seq_count(v: Seq<Seq<char>>, d: Seq<char>) -> nat
    decreases v.len(),
{
    if v.len() == 0 {
        0
    } else {
        seq_count(v.drop_last(), d) + if v.last() == d {
            1nat
        } else {
            0nat
        }
    }
}

/// One warning per display with conflicting duplicates, in display order,
/// counting the conflicting entries.
pub open spec fn duplicate_warnings(s: Seq<CargoTargetSettings>, r: Seq<CargoTargetSettings>) -> Seq<PlatformWarningV> {
    let cd = conflict_displays(s, r);
    sorted_dedup(cd).map_values(|d: Seq<char>| PlatformWarningV::DuplicateTargetSetting(d, seq_count(cd, d) as usize))
}

fn find_rep<'a>(r: &'a Vec<CargoTargetSettings>, k: &CargoTargetKey) -> (m: Option<&'a CargoTargetSettings>)
    ensures
        match (m, rep_of(r@, k@)) {
            (Some(x), Some(y)) => *x == y,
            (None, None) => true,
            _ => false,
        },
{
    let mut i: usize = 0;
    assert(r@.skip(0) =~= r@);
    while i < r.len()
        invariant
            i <= r@.len(),
            rep_of(r@, k@) == rep_of(r@.skip(i as int), k@),
        decreases r@.len() - i,
    {
        assert(r@.skip(i as int).drop_first() =~= r@.skip(i + 1));
        if key_eq(&r[i].key, k) {
            return Some(&r[i]);
        }
        i += 1;
    }
    None
}

fn conflict_display_list(s: &Vec<CargoTargetSettings>, r: &Vec<CargoTargetSettings>) -> (d: Vec<String>)
    ensures
        views(d@) == conflict_displays(s@, r@),
        d@.len() <= s@.len(),
{
    let mut out: Vec<String> = Vec::new();
    let mut i: usize = 0;
    while i < s.len()
        invariant
            i <= s@.len(),
            views(out@) == conflict_displays(s@.take(i as int), r@),
            out@.len() <= i,
        decreases s@.len() - i,
    {
        proof {
            assert(s@.take(i + 1).drop_last() =~= s@.take(i as int));
            assert(s@.take(i + 1).last() == s@[i as int]);
        }
        let ghost prev = views(out@);
        match find_rep(r, &s[i].key) {
            Some(m) => {
                if !settings_same_exec(&s[i], m) {
                    out.push(target_key_display(&s[i].key));
                    assert(views(out@) =~= prev.push(key_display(s@[i as int].key@)));
                } else {
                    assert(views(out@) =~= prev + Seq::<Seq<char>>::empty());
                }
            },
            None => {
                assert(views(out@) =~= prev + Seq::<Seq<char>>::empty());
            },
        }
        i += 1;
    }
    assert(s@.take(s@.len() as int) =~= s@);
    out
}

fn count_of(v: &Vec<String>, d: &String) -> (n: usize)
    ensures
        n == seq_count(views(v@), d@),
{
    let mut n: usize = 0;
    let mut i: usize = 0;
    while i < v.len()
        invariant
            i <= v@.len(),
            n == seq_count(views(v@).take(i as int), d@),
            n <= i,
        decreases v@.len() - i,
    {
        assert(views(v@).take(i + 1).drop_last() =~= views(v@).take(i as int));
        if str_eq(v[i].as_str(), d.as_str()) {
            n += 1;
        }
        i += 1;
    }
    assert(views(v@).take(v@.len() as int) =~= views(v@));
    n
}

fn push_duplicate_warnings(
    s: &Vec<CargoTargetSettings>,
    r: &Vec<CargoTargetSettings>,
    warnings: &mut Vec<CargoPlatformWarning>,
)
    ensures
        platform_warning_views(final(warnings)@) == platform_warning_views(old(warnings)@) + duplicate_warnings(
            s@,
            r@,
        ),
{
    let displays = conflict_display_list(s, r);
    let mut copy: Vec<String> = Vec::new();
    let mut i: usize = 0;
    while i < displays.len()
        invariant
            i <= displays@.len(),
            views(copy@) == views(displays@).take(i as int),
        decreases displays@.len() - i,
    {
        let ghost prev = copy@;
        let c = displays[i].clone();
        copy.push(c);
        assert(views(copy@) =~= views(prev).push(c@));
        assert(views(displays@).take(i + 1) =~= views(displays@).take(i as int).push(displays@[i as int]@));
        i += 1;
    }
    assert(views(displays@).take(displays@.len() as int) =~= views(displays@));
    let uniq = sort_dedup_strings(copy);
    let ghost cd = conflict_displays(s@, r@);
    let ghost w0 = platform_warning_views(warnings@);
    let mut k: usize = 0;
    while k < uniq.len()
        invariant
            k <= uniq@.len(),
            views(uniq@) == sorted_dedup(cd),
            views(displays@) == cd,
            platform_warning_views(warnings@) == w0 + sorted_dedup(cd).take(k as int).map_values(
                |d: Seq<char>| PlatformWarningV::DuplicateTargetSetting(d, seq_count(cd, d) as usize),
            ),
        decreases uniq@.len() - k,
    {
        let count = count_of(&displays, &uniq[k]);
        let ghost pw = warnings@;
        warnings.push(CargoPlatformWarning::DuplicateTargetSetting { key_display: uniq[k].clone(), count });
        proof {
            assert(sorted_dedup(cd).take(k + 1) =~= sorted_dedup(cd).take(k as int).push(uniq@[k as int]@));
            assert(platform_warning_views(warnings@) =~= platform_warning_views(pw).push(
                PlatformWarningV::DuplicateTargetSetting(uniq@[k as int]@, count),
            ));
        }
        k += 1;
    }
    assert(sorted_dedup(cd).take(uniq@.len() as int) =~= sorted_dedup(cd));
}

// ---------------------------------------------------------------------------
// [target.*]
// ---------------------------------------------------------------------------

/// The `[target]` table of a config document (empty when absent).
pub open spec fn target_table(doc: Seq<(String, TomlValue)>) -> Seq<(String, TomlValue)> {
    match spec_table_at(doc, "target"@) {
        Some(t) => t,
        None => seq![],
    }
}

/// Whether `r` and the warnings going from `w0` to `w1` are what reading
/// the `[target]` tables of a config document gives: the settings of
/// each table are collected in table order, ordered stably by key, and
/// merged to one representative per key; then one warning per display of
/// conflicting duplicates.
pub open spec fn targets_parsed(
    r: Seq<CargoTargetSettings>,
    w0: Seq<PlatformWarningV>,
    w1: Seq<PlatformWarningV>,
    doc: Seq<(String, TomlValue)>,
    src: (Seq<char>, Option<usize>, Seq<char>, u64),
) -> bool {
    exists|c: Seq<CargoTargetSettings>|
        #[trigger] collected_is(c, target_table(doc), src) && merged_is(r, sorted_targets(c)) && w1 == w0
            + targets_scan_warnings(target_table(doc), src.0) + duplicate_warnings(sorted_targets(c), r)
}

/// Reads every `[target.<key>]` table: keys are normalized (invalid ones
/// warned about), settings sanitized, tables ordered by key, and tables
/// whose keys normalize equal merged into the one whose settings sort
/// first; each display whose merged tables conflicted gets one warning
/// with the number of conflicting tables.
pub fn parse_targets(
    doc: &Vec<(String, TomlValue)>,
    source: &ConfigSource,
    warnings: &mut Vec<CargoPlatformWarning>,
) -> (r: Vec<CargoTargetSettings>)
    ensures
        targets_parsed(
            r@,
            platform_warning_views(old(warnings)@),
            platform_warning_views(final(warnings)@),
            doc@,
            source@,
        ),
{
    let empty: Vec<(String, TomlValue)> = Vec::new();
    let ts: &Vec<(String, TomlValue)> = match table_at(doc, "target") {
        Some(t) => t,
        None => &empty,
    };
    assert(ts@ == target_table(doc@));
    let collected = collect_targets(ts, source, warnings);
    let ghost c = collected@;
    let keys = target_sort_keys_exec(&collected);
    let sorted = stable_sort_by_key(collected, keys);
    assert(sorted@ == sorted_targets(c));
    let merged = merge_targets(&sorted);
    let ghost w1 = platform_warning_views(warnings@);
    push_duplicate_warnings(&sorted, &merged, warnings);
    assert(collected_is(c, target_table(doc@), source@));
    merged
}

} // verus!
