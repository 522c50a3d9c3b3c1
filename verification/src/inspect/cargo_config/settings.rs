//! Reading `[build]` and `[target.<key>]` settings from a parsed
//! `.cargo/config.toml`, with typed warnings for every value of the wrong
//! shape.

use vstd::prelude::*;
use vstd::string::StringExecFns;

use crate::hashing::{framed_tokens, framed_value, opaque_identity, opaque_identity_tokens, spec_sha256_hex};
use crate::inspect::cargo::toml_value::{
    array_strings, get, lookup, non_string_count, non_strings, spec_table_at, spec_toml_bool,
    strings_of, table_at, toml_bool, TomlValue,
};
use crate::inspect::cargo_config::config::{
    classify_build_target_entry, push_setting_warning, push_setting_warning_count, rustflags_evidence,
    sanitize_basename, sanitize_basename_checked, spec_classify_build_target_entry,
    spec_rustflags_evidence, spec_sanitize_basename, BuildTargetClass,
};
use crate::inspect::cargo_config::types::{
    CargoBuildSettings, CargoPlatformWarning, ConfigSetting, ConfigSettingIssue, ConfigSource,
    ConfiguredLinker, ConfiguredRunner, CustomTargetEvidence, RustflagsEvidence,
};
use crate::order::{sort_dedup_strings, sorted_dedup, views};
use crate::text::{split_words, words};

verus! {

/// An optional borrowed value as an optional value.
pub open spec fn opt_deref(o: Option<&TomlValue>) -> Option<TomlValue> {
    match o {
        Some(v) => Some(*v),
        None => None,
    }
}

/// A typed setting warning.
pub open spec fn setting_warning(setting: ConfigSetting, issue: ConfigSettingIssue, count: nat) -> CargoPlatformWarning {
    CargoPlatformWarning::InvalidConfigSetting { setting, issue, count: count as usize }
}

/// The mixed-array warning for `n` non-string elements (none when zero).
pub open spec fn mixed_warning(setting: ConfigSetting, n: nat) -> Seq<CargoPlatformWarning> {
    if n > 0 {
        seq![setting_warning(setting, ConfigSettingIssue::MixedArray, n)]
    } else {
        seq![]
    }
}

/// The tokens of a flags or runner value: the words of a string, or the
/// strings of an array; `None` for any other value.
pub open spec fn value_tokens(v: TomlValue) -> Option<Seq<Seq<char>>> {
    match v {
        TomlValue::String(s) => Some(words(s@)),
        TomlValue::Array(a, _) => Some(array_strings(a@)),
        _ => None,
    }
}

/// The non-string elements of an array value (zero for other values).
pub open spec fn value_mixed(v: TomlValue) -> nat {
    match v {
        TomlValue::Array(a, _) => non_strings(a@),
        _ => 0,
    }
}

/// The tokens of a flags or runner value, and its non-string elements.
fn tokens_of(v: &TomlValue) -> (r: Option<(Vec<String>, usize)>)
    ensures
        match (r, value_tokens(*v)) {
            (Some((t, n)), Some(w)) => views(t@) == w && n == value_mixed(*v),
            (None, None) => true,
            _ => false,
        },
{
    match v {
        TomlValue::String(s) => {
            let t = split_words(s.as_str());
            assert(views(t@) =~= t@.map_values(|w: String| w@));
            Some((t, 0))
        },
        TomlValue::Array(a, _) => Some((strings_of(a), non_string_count(a))),
        _ => None,
    }
}

// ---------------------------------------------------------------------------
// rustflags
// ---------------------------------------------------------------------------

/// The warnings reading a flags setting adds.
pub open spec fn flags_warnings(value: Option<TomlValue>, setting: ConfigSetting) -> Seq<CargoPlatformWarning> {
    match value {
        None => seq![],
        Some(v) => match value_tokens(v) {
            Some(_) => mixed_warning(setting, value_mixed(v)),
            None => seq![setting_warning(setting, ConfigSettingIssue::WrongType, 1)],
        },
    }
}

/// Whether `ev` is the evidence of a flags setting.
pub open spec fn flags_evidence_is(value: Option<TomlValue>, ev: RustflagsEvidence) -> bool {
    match value {
        Some(v) => match value_tokens(v) {
            Some(t) => spec_rustflags_evidence(t, ev),
            None => ev.is_empty_evidence(),
        },
        None => ev.is_empty_evidence(),
    }
}

/// Evidence of a `rustflags` or `rustdocflags` value (a string split on
/// white space, or an array of strings), with typed warnings for a value
/// of the wrong type and for non-string array elements.
pub fn parse_rustflags_setting(
    value: Option<&TomlValue>,
    setting: ConfigSetting,
    warnings: &mut Vec<CargoPlatformWarning>,
) -> (ev: RustflagsEvidence)
    ensures
        flags_evidence_is(opt_deref(value), ev),
        final(warnings)@ == old(warnings)@ + flags_warnings(opt_deref(value), setting),
{
    let v = match value {
        Some(v) => v,
        None => {
            assert(old(warnings)@ + flags_warnings(opt_deref(value), setting) =~= old(warnings)@);
            return RustflagsEvidence::empty();
        },
    };
    match tokens_of(v) {
        Some((tokens, mixed)) => {
            if mixed > 0 {
                push_setting_warning_count(warnings, setting, ConfigSettingIssue::MixedArray, mixed);
            }
            assert(final(warnings)@ =~= old(warnings)@ + flags_warnings(opt_deref(value), setting));
            let ev = rustflags_evidence(tokens.as_slice());
            assert(tokens@.map_values(|t: String| t@) == views(tokens@));
            ev
        },
        None => {
            push_setting_warning(warnings, setting, ConfigSettingIssue::WrongType);
            assert(final(warnings)@ =~= old(warnings)@ + flags_warnings(opt_deref(value), setting));
            RustflagsEvidence::empty()
        },
    }
}

// ---------------------------------------------------------------------------
// linker and runner
// ---------------------------------------------------------------------------

/// The warnings reading a linker setting adds.
pub open spec fn linker_warnings(value: Option<TomlValue>) -> Seq<CargoPlatformWarning> {
    match value {
        None => seq![],
        Some(TomlValue::String(s)) => if spec_sanitize_basename(s@).len() == 0 {
            seq![setting_warning(ConfigSetting::TargetTableLinker, ConfigSettingIssue::Empty, 1)]
        } else {
            seq![]
        },
        Some(_) => seq![setting_warning(ConfigSetting::TargetTableLinker, ConfigSettingIssue::WrongType, 1)],
    }
}

/// Whether `r` is the linker a setting configures: the basename of a
/// non-empty string, with an opaque identity of the whole string.
pub open spec fn linker_is(value: Option<TomlValue>, r: Option<ConfiguredLinker>) -> bool {
    match value {
        Some(TomlValue::String(s)) => if spec_sanitize_basename(s@).len() == 0 {
            r is None
        } else {
            r matches Some(l) && l.basename@ == spec_sanitize_basename(s@) && l.identity@ == spec_sha256_hex(
                framed_value(vstd::utf8::encode_utf8(s@)),
            )
        },
        _ => r is None,
    }
}

/// The linker of a `[target.<key>].linker` value: the basename of a string
/// (its arguments and directories dropped) and an opaque identity.
pub fn parse_linker(value: Option<&TomlValue>, warnings: &mut Vec<CargoPlatformWarning>) -> (r: Option<
    ConfiguredLinker,
>)
    ensures
        linker_is(opt_deref(value), r),
        final(warnings)@ == old(warnings)@ + linker_warnings(opt_deref(value)),
{
    let raw = match value {
        Some(v) => v,
        None => {
            assert(old(warnings)@ + linker_warnings(opt_deref(value)) =~= old(warnings)@);
            return None;
        },
    };
    match raw {
        TomlValue::String(s) => {
            let basename = sanitize_basename(s.as_str());
            if basename.as_str().is_empty() {
                push_setting_warning(warnings, ConfigSetting::TargetTableLinker, ConfigSettingIssue::Empty);
                assert(final(warnings)@ =~= old(warnings)@ + linker_warnings(opt_deref(value)));
                return None;
            }
            assert(old(warnings)@ + linker_warnings(opt_deref(value)) =~= old(warnings)@);
            Some(ConfiguredLinker { basename, identity: opaque_identity(s.as_str()) })
        },
        _ => {
            push_setting_warning(warnings, ConfigSetting::TargetTableLinker, ConfigSettingIssue::WrongType);
            assert(final(warnings)@ =~= old(warnings)@ + linker_warnings(opt_deref(value)));
            None
        },
    }
}

/// The warnings reading a runner setting adds.
pub open spec fn runner_warnings(value: Option<TomlValue>, setting: ConfigSetting) -> Seq<CargoPlatformWarning> {
    match value {
        None => seq![],
        Some(v) => match value_tokens(v) {
            None => seq![setting_warning(setting, ConfigSettingIssue::WrongType, 1)],
            Some(t) => if t.len() == 0 {
                seq![setting_warning(setting, ConfigSettingIssue::Empty, 1)]
            } else {
                mixed_warning(setting, value_mixed(v)) + if spec_sanitize_basename(t[0]).len() == 0 {
                    seq![setting_warning(setting, ConfigSettingIssue::Empty, 1)]
                } else {
                    seq![]
                }
            },
        },
    }
}

/// Whether `r` is the runner a setting configures: the basename of its
/// first token, its token count, and an opaque identity of its tokens.
pub open spec fn runner_is(value: Option<TomlValue>, r: Option<ConfiguredRunner>) -> bool {
    match value {
        Some(v) => match value_tokens(v) {
            Some(t) => if t.len() == 0 || spec_sanitize_basename(t[0]).len() == 0 {
                r is None
            } else {
                r matches Some(x) && x.executable_basename@ == spec_sanitize_basename(t[0]) && x.token_count
                    == t.len() && x.identity@ == spec_sha256_hex(
                    framed_tokens(t.map_values(|w: Seq<char>| vstd::utf8::encode_utf8(w))),
                )
            },
            None => r is None,
        },
        None => r is None,
    }
}

/// The runner of a string (split on white space) or array value.
pub fn parse_runner(
    value: Option<&TomlValue>,
    setting: ConfigSetting,
    warnings: &mut Vec<CargoPlatformWarning>,
) -> (r: Option<ConfiguredRunner>)
    ensures
        runner_is(opt_deref(value), r),
        final(warnings)@ == old(warnings)@ + runner_warnings(opt_deref(value), setting),
{
    let raw = match value {
        Some(v) => v,
        None => {
            assert(old(warnings)@ + runner_warnings(opt_deref(value), setting) =~= old(warnings)@);
            return None;
        },
    };
    let (tokens, mixed) = match tokens_of(raw) {
        Some(x) => x,
        None => {
            push_setting_warning(warnings, setting, ConfigSettingIssue::WrongType);
            assert(final(warnings)@ =~= old(warnings)@ + runner_warnings(opt_deref(value), setting));
            return None;
        },
    };
    if tokens.len() == 0 {
        push_setting_warning(warnings, setting, ConfigSettingIssue::Empty);
        assert(final(warnings)@ =~= old(warnings)@ + runner_warnings(opt_deref(value), setting));
        return None;
    }
    if mixed > 0 {
        push_setting_warning_count(warnings, setting, ConfigSettingIssue::MixedArray, mixed);
    }
    let ghost w1 = warnings@;
    let identity = opaque_identity_tokens(tokens.as_slice());
    proof {
        assert(tokens@.map_values(|t: String| vstd::utf8::encode_utf8(t@)) =~= views(tokens@).map_values(
            |w: Seq<char>| vstd::utf8::encode_utf8(w),
        ));
    }
    let count = tokens.len();
    match sanitize_basename_checked(tokens[0].as_str(), warnings, setting) {
        Some(executable_basename) => {
            assert(final(warnings)@ =~= old(warnings)@ + runner_warnings(opt_deref(value), setting));
            Some(ConfiguredRunner { executable_basename, token_count: count, identity })
        },
        None => {
            assert(final(warnings)@ =~= old(warnings)@ + runner_warnings(opt_deref(value), setting));
            None
        },
    }
}

// ---------------------------------------------------------------------------
// [build]
// ---------------------------------------------------------------------------

/// The entries of a `[build].target` value: a single string, or an array.
pub open spec fn target_members(v: TomlValue) -> Option<Seq<TomlValue>> {
    match v {
        TomlValue::String(_) => Some(seq![v]),
        TomlValue::Array(a, _) => Some(a@),
        _ => None,
    }
}

/// Whether a string entry falls in a class.
pub open spec fn entry_in_class(s: Seq<char>, cls: BuildTargetClass) -> bool {
    spec_classify_build_target_entry(s, vstd::utf8::encode_utf8(s).len() as int) == cls
}

/// The string entries of a class, in order.
pub open spec fn entries_of_class(ms: Seq<TomlValue>, cls: BuildTargetClass) -> Seq<Seq<char>>
    decreases ms.len(),
{
    if ms.len() == 0 {
        seq![]
    } else {
        entries_of_class(ms.drop_last(), cls) + match ms.last() {
            TomlValue::String(s) => if entry_in_class(s@, cls) {
                seq![s@]
            } else {
                seq![]
            },
            _ => seq![],
        }
    }
}

/// The warnings reading `[build].target` adds.
pub open spec fn build_target_warnings(value: Option<TomlValue>) -> Seq<CargoPlatformWarning> {
    match value {
        None => seq![],
        Some(v) => match target_members(v) {
            None => seq![setting_warning(ConfigSetting::BuildTarget, ConfigSettingIssue::WrongType, 1)],
            Some(ms) => mixed_warning(ConfigSetting::BuildTarget, non_strings(ms)) + if entries_of_class(
                ms,
                BuildTargetClass::Invalid,
            ).len() > 0 {
                seq![
                    setting_warning(
                        ConfigSetting::BuildTarget,
                        ConfigSettingIssue::InvalidValue,
                        entries_of_class(ms, BuildTargetClass::Invalid).len(),
                    ),
                ]
            } else {
                seq![]
            },
        },
    }
}

/// Whether `triples` and `custom` are what `[build].target` configures:
/// the distinct valid triples, sorted, and the count and opaque identity of
/// the custom target specs.
pub open spec fn build_target_is(value: Option<TomlValue>, triples: Seq<Seq<char>>, custom: CustomTargetEvidence) -> bool {
    let ms = match value {
        Some(v) => match target_members(v) {
            Some(ms) => ms,
            None => seq![],
        },
        None => seq![],
    };
    let cs = entries_of_class(ms, BuildTargetClass::Custom);
    &&& triples == sorted_dedup(entries_of_class(ms, BuildTargetClass::Triple))
    &&& custom.count == cs.len()
    &&& custom.identity@ == spec_sha256_hex(framed_tokens(cs.map_values(|w: Seq<char>| vstd::utf8::encode_utf8(w))))
}

/// Sorts the entries of `[build].target` by class.
fn classify_members(ms: &[TomlValue]) -> (r: (Vec<String>, Vec<String>, usize, usize))
    ensures
        views(r.0@) == entries_of_class(ms@, BuildTargetClass::Triple),
        views(r.1@) == entries_of_class(ms@, BuildTargetClass::Custom),
        r.2 == entries_of_class(ms@, BuildTargetClass::Invalid).len(),
        r.3 == non_strings(ms@),
{
    let mut triples: Vec<String> = Vec::new();
    let mut custom: Vec<String> = Vec::new();
    let mut invalid: usize = 0;
    let mut mixed: usize = 0;
    let mut i: usize = 0;
    while i < ms.len()
        invariant
            i <= ms@.len(),
            views(triples@) == entries_of_class(ms@.take(i as int), BuildTargetClass::Triple),
            views(custom@) == entries_of_class(ms@.take(i as int), BuildTargetClass::Custom),
            invalid == entries_of_class(ms@.take(i as int), BuildTargetClass::Invalid).len(),
            mixed == non_strings(ms@.take(i as int)),
            invalid <= i,
            mixed <= i,
        decreases ms@.len() - i,
    {
        proof {
            assert(ms@.take(i + 1).drop_last() =~= ms@.take(i as int));
            assert(ms@.take(i + 1).last() == ms@[i as int]);
        }
        let ghost pt = triples@;
        let ghost pc = custom@;
        match &ms[i] {
            TomlValue::String(s) => {
                let cls = classify_build_target_entry(s.as_str());
                match cls {
                    BuildTargetClass::Triple => {
                        triples.push(s.clone());
                        assert(views(triples@) =~= views(pt).push(s@));
                        assert(views(custom@) =~= views(pc) + Seq::<Seq<char>>::empty());
                    },
                    BuildTargetClass::Custom => {
                        custom.push(s.clone());
                        assert(views(custom@) =~= views(pc).push(s@));
                        assert(views(triples@) =~= views(pt) + Seq::<Seq<char>>::empty());
                    },
                    BuildTargetClass::Invalid => {
                        invalid += 1;
                        assert(views(triples@) =~= views(pt) + Seq::<Seq<char>>::empty());
                        assert(views(custom@) =~= views(pc) + Seq::<Seq<char>>::empty());
                    },
                }
            },
            _ => {
                mixed += 1;
                assert(views(triples@) =~= views(pt) + Seq::<Seq<char>>::empty());
                assert(views(custom@) =~= views(pc) + Seq::<Seq<char>>::empty());
            },
        }
        i += 1;
    }
    assert(ms@.take(ms@.len() as int) =~= ms@);
    (triples, custom, invalid, mixed)
}

/// Reads `[build].target` (a string or an array) into its distinct valid
/// triples, sorted, and opaque custom target spec evidence; wrong types,
/// non-string elements, and invalid entries become typed warnings.
pub fn parse_build_target(value: Option<&TomlValue>, warnings: &mut Vec<CargoPlatformWarning>) -> (r: (
    Vec<String>,
    CustomTargetEvidence,
))
    ensures
        build_target_is(opt_deref(value), views(r.0@), r.1),
        final(warnings)@ == old(warnings)@ + build_target_warnings(opt_deref(value)),
{
    let v = match value {
        Some(v) => v,
        None => {
            assert(old(warnings)@ + build_target_warnings(opt_deref(value)) =~= old(warnings)@);
            proof {
                let e = Seq::<TomlValue>::empty();
                assert(entries_of_class(e, BuildTargetClass::Triple) =~= seq![]);
                crate::order::lemma_sorted_dedup_is(seq![], seq![]);
                assert(seq![].map_values(|w: Seq<char>| vstd::utf8::encode_utf8(w)) =~= Seq::<Seq<u8>>::empty());
            }
            let e: Vec<String> = Vec::new();
            assert(views(e@) =~= seq![]);
            return (e, CustomTargetEvidence::empty());
        },
    };
    let single: Vec<TomlValue>;
    let members: &[TomlValue] = match v {
        TomlValue::String(s) => {
            single = vec![TomlValue::String(s.clone())];
            single.as_slice()
        },
        TomlValue::Array(a, _) => a.as_slice(),
        _ => {
            push_setting_warning(warnings, ConfigSetting::BuildTarget, ConfigSettingIssue::WrongType);
            assert(final(warnings)@ =~= old(warnings)@ + build_target_warnings(opt_deref(value)));
            proof {
                crate::order::lemma_sorted_dedup_is(seq![], seq![]);
                assert(Seq::<Seq<char>>::empty().map_values(|w: Seq<char>| vstd::utf8::encode_utf8(w))
                    =~= Seq::<Seq<u8>>::empty());
            }
            let e: Vec<String> = Vec::new();
            assert(views(e@) =~= seq![]);
            return (e, CustomTargetEvidence::empty());
        },
    };
    assert(target_members(*v) == Some(members@));
    let (triples, custom, invalid, mixed) = classify_members(members);
    let custom_ev = CustomTargetEvidence { count: custom.len(), identity: opaque_identity_tokens(custom.as_slice()) };
    proof {
        assert(custom@.map_values(|t: String| vstd::utf8::encode_utf8(t@)) =~= views(custom@).map_values(
            |w: Seq<char>| vstd::utf8::encode_utf8(w),
        ));
    }
    if mixed > 0 {
        push_setting_warning_count(warnings, ConfigSetting::BuildTarget, ConfigSettingIssue::MixedArray, mixed);
    }
    if invalid > 0 {
        push_setting_warning_count(warnings, ConfigSetting::BuildTarget, ConfigSettingIssue::InvalidValue, invalid);
    }
    assert(final(warnings)@ =~= old(warnings)@ + build_target_warnings(opt_deref(value)));
    (sort_dedup_strings(triples), custom_ev)
}

/// The warnings reading `[build]` adds: those of `target`, `rustflags`,
/// and `rustdocflags`, in that order.
pub open spec fn build_warnings(doc: Seq<(String, TomlValue)>) -> Seq<CargoPlatformWarning> {
    match spec_table_at(doc, "build"@) {
        None => seq![],
        Some(t) => build_target_warnings(lookup(t, "target"@)) + flags_warnings(
            lookup(t, "rustflags"@),
            ConfigSetting::BuildRustflags,
        ) + flags_warnings(lookup(t, "rustdocflags"@), ConfigSetting::BuildRustdocflags),
    }
}

/// Whether `b` holds the `[build]` settings of a config document.
pub open spec fn build_settings_is(
    b: CargoBuildSettings,
    doc: Seq<(String, TomlValue)>,
    src: (Seq<char>, Option<usize>, Seq<char>, u64),
) -> bool {
    &&& b.source matches Some(s) && s@ == src
    &&& match spec_table_at(doc, "build"@) {
        None => {
            &&& b.target@.len() == 0
            &&& b.custom_targets.count == 0
            &&& b.custom_targets.identity@ == spec_sha256_hex(seq![])
            &&& !b.target_dir_set
            &&& b.incremental is None
            &&& b.rustflags.is_empty_evidence()
            &&& b.rustdocflags.is_empty_evidence()
        },
        Some(t) => {
            &&& build_target_is(lookup(t, "target"@), views(b.target@), b.custom_targets)
            &&& b.target_dir_set == (lookup(t, "target-dir"@) is Some)
            &&& b.incremental == spec_toml_bool(t, "incremental"@)
            &&& flags_evidence_is(lookup(t, "rustflags"@), b.rustflags)
            &&& flags_evidence_is(lookup(t, "rustdocflags"@), b.rustdocflags)
        },
    }
}

/// A table value by key, as an optional value.
fn value_at<'a>(t: &'a Vec<(String, TomlValue)>, key: &str) -> (r: Option<&'a TomlValue>)
    ensures
        opt_deref(r) == lookup(t@, key@),
{
    get(t, key)
}

/// Reads `[build]`: targets, `target-dir`, `incremental`, `rustflags`, and
/// `rustdocflags`, each sanitized, with the config source.
pub fn parse_build(
    doc: &Vec<(String, TomlValue)>,
    source: &ConfigSource,
    warnings: &mut Vec<CargoPlatformWarning>,
) -> (r: CargoBuildSettings)
    ensures
        build_settings_is(r, doc@, source@),
        final(warnings)@ == old(warnings)@ + build_warnings(doc@),
{
    let table = match table_at(doc, "build") {
        Some(t) => t,
        None => {
            let mut b = CargoBuildSettings::empty();
            b.source = Some(source.clone());
            assert(old(warnings)@ + build_warnings(doc@) =~= old(warnings)@);
            return b;
        },
    };
    let (target, custom_targets) = parse_build_target(value_at(table, "target"), warnings);
    let target_dir_set = value_at(table, "target-dir").is_some();
    let incremental = toml_bool(table, "incremental");
    let rustflags = parse_rustflags_setting(value_at(table, "rustflags"), ConfigSetting::BuildRustflags, warnings);
    let rustdocflags = parse_rustflags_setting(
        value_at(table, "rustdocflags"),
        ConfigSetting::BuildRustdocflags,
        warnings,
    );
    assert(final(warnings)@ =~= old(warnings)@ + build_warnings(doc@));
    CargoBuildSettings {
        target,
        custom_targets,
        target_dir_set,
        incremental,
        rustflags,
        rustdocflags,
        source: Some(source.clone()),
    }
}

} // verus!
