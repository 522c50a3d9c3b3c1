//! Sanitizing rules for `.cargo/config.toml` settings: target identifiers,
//! executables, rustflags, typed warnings, and the wall-clock check.

use vstd::prelude::*;
use vstd::string::StringSliceAdditionalSpecFns;

use crate::hashing::{push_all, push_le32, le32, sha256_hex, spec_sha256_hex};
use crate::inspect::cargo_config::types::{
    CargoPlatformWarning, CargoTargetKey, ConfigSetting, ConfigSettingIssue, RustflagCategory,
    RustflagCategoryCount, RustflagsEvidence,
};
use crate::text::{
    ascii_lower, ascii_lowercase, before_char, before_first, chars_end_with, chars_of,
    chars_start_with, first_word, first_word_chars, has_prefix, has_suffix, string_of, trim_chars,
    trim_ws, is_ws, lemma_first_word_no_ws,
};

verus! {

// ---------------------------------------------------------------------------
// Wall clock
// ---------------------------------------------------------------------------

/// Whole milliseconds of a duration, as `Duration::as_millis` computes them.
pub uninterp spec fn spec_duration_millis(d: std::time::Duration) -> u128;

/// Whole milliseconds of a duration (`Duration::as_millis`), a function of
/// the duration alone.
#[verifier::external_body]
fn duration_as_millis(d: &std::time::Duration) -> (r: u128)
    ensures
        r == spec_duration_millis(*d),
{
    d.as_millis()
}

/// The cooperative wall-clock decision: `(budget, observed)` when the
/// observed milliseconds (truncated to `u64`) are nonzero and at or over the
/// budget.
pub open spec fn spec_wall_clock_exceeded(elapsed_millis: u128, budget_millis: u64) -> Option<(u64, u64)> {
    let observed = elapsed_millis as u64;
    if observed > 0 && observed >= budget_millis {
        Some((budget_millis, observed))
    } else {
        None
    }
}

/// The cooperative wall-clock decision on an observed elapsed time:
/// `(budget, observed)` when the observed milliseconds (truncated to `u64`)
/// are nonzero and at or over the budget.
pub fn wall_clock_exceeded_millis(elapsed_millis: u128, budget_millis: u64) -> (r: Option<(u64, u64)>)
    ensures
        r == spec_wall_clock_exceeded(elapsed_millis, budget_millis),
{
    let observed = elapsed_millis as u64;
    if observed > 0 && observed >= budget_millis {
        Some((budget_millis, observed))
    } else {
        None
    }
}

/// Deterministic wall-clock observation for an elapsed duration.
///
/// A zero observed time never trips; otherwise the result reports the budget
/// and the observed milliseconds when the budget is reached.
pub fn wall_clock_exceeded(elapsed: std::time::Duration, budget_millis: u64) -> (r: Option<(u64, u64)>)
    ensures
        r == spec_wall_clock_exceeded(spec_duration_millis(elapsed), budget_millis),
{
    let ms = duration_as_millis(&elapsed);
    wall_clock_exceeded_millis(ms, budget_millis)
}

// ---------------------------------------------------------------------------
// Target identifiers
// ---------------------------------------------------------------------------

/// A character allowed in a target triple segment.
pub open spec fn is_triple_char(c: char) -> bool {
    ('a' <= c && c <= 'z') || ('A' <= c && c <= 'Z') || ('0' <= c && c <= '9') || c == '_' || c
        == '.'
}

/// Number of `-` in `s`.
pub open spec fn dash_count(s: Seq<char>) -> int
    decreases s.len(),
{
    if s.len() == 0 {
        0
    } else {
        dash_count(s.drop_last()) + if s.last() == '-' {
            1int
        } else {
            0int
        }
    }
}

/// A syntactically plausible target triple: 1..=256 bytes, at least three
/// nonempty `-`-separated segments of ASCII alphanumerics, `_` and `.`.
pub open spec fn spec_is_valid_triple(s: Seq<char>, byte_len: int) -> bool {
    &&& 1 <= byte_len <= 256
    &&& s.len() > 0
    &&& dash_count(s) >= 2
    &&& s[0] != '-'
    &&& s.last() != '-'
    &&& forall|i: int| 0 <= i < s.len() - 1 && s[i] == '-' ==> #[trigger] s[i + 1] != '-'
    &&& forall|i: int| 0 <= i < s.len() && s[i] != '-' ==> is_triple_char(#[trigger] s[i])
}

fn is_triple_char_exec(c: char) -> (r: bool)
    ensures
        r == is_triple_char(c),
{
    ('a' <= c && c <= 'z') || ('A' <= c && c <= 'Z') || ('0' <= c && c <= '9') || c == '_' || c
        == '.'
}

/// Whether `s` is a syntactically plausible target triple.
pub fn is_valid_triple(s: &str) -> (r: bool)
    ensures
        r == spec_is_valid_triple(s@, s.spec_bytes().len() as int),
{
    let b = s.as_bytes();
    if b.len() == 0 || b.len() > 256 {
        return false;
    }
    let cs = chars_of(s);
    if cs.len() == 0 {
        return false;
    }
    let n = cs.len();
    let mut dashes: usize = 0;
    let mut k: usize = 0;
    while k < n
        invariant
            n == cs@.len(),
            cs@ == s@,
            1 <= s.spec_bytes().len() <= 256,
            k <= n,
            dashes == dash_count(cs@.take(k as int)),
            dashes <= k,
        decreases n - k,
    {
        assert(cs@.take(k + 1).drop_last() =~= cs@.take(k as int));
        if cs[k] == '-' {
            dashes += 1;
        }
        k += 1;
    }
    assert(cs@.take(n as int) =~= cs@);
    if dashes < 2 || cs[0] == '-' || cs[n - 1] == '-' {
        return false;
    }
    let mut i: usize = 0;
    while i < n
        invariant
            n == cs@.len(),
            cs@ == s@,
            1 <= s.spec_bytes().len() <= 256,
            n > 0,
            dash_count(cs@) >= 2,
            cs@[0] != '-',
            cs@[n - 1] != '-',
            i <= n,
            forall|j: int| 0 <= j < i && j < n - 1 && cs@[j] == '-' ==> #[trigger] cs@[j + 1] != '-',
            forall|j: int| 0 <= j < i && cs@[j] != '-' ==> is_triple_char(#[trigger] cs@[j]),
        decreases n - i,
    {
        let c = cs[i];
        if c == '-' {
            if i + 1 < n && cs[i + 1] == '-' {
                assert(cs@[i as int] == '-' && cs@[i + 1] == '-');
                return false;
            }
        } else if !is_triple_char_exec(c) {
            assert(cs@[i as int] != '-' && !is_triple_char(cs@[i as int]));
            return false;
        }
        i += 1;
    }
    true
}

/// Classification of a single `[build].target` entry.
#[derive(Clone, Copy, Debug, PartialEq, Eq, Structural)]
pub enum BuildTargetClass {
    /// A validated target triple.
    Triple,
    /// A custom target spec path or JSON file.
    Custom,
    /// Neither a path nor a valid triple.
    Invalid,
}

/// Classification of a `[build].target` entry: paths and `.json` specs are
/// custom, then valid triples, otherwise invalid.
pub open spec fn spec_classify_build_target_entry(s: Seq<char>, byte_len: int) -> BuildTargetClass {
    if s.contains('/') || s.contains('\\') || has_suffix(s, ".json"@) {
        BuildTargetClass::Custom
    } else if spec_is_valid_triple(s, byte_len) {
        BuildTargetClass::Triple
    } else {
        BuildTargetClass::Invalid
    }
}

/// Classifies a single `[build].target` entry.
pub fn classify_build_target_entry(s: &str) -> (r: BuildTargetClass)
    ensures
        r == spec_classify_build_target_entry(s@, s.spec_bytes().len() as int),
{
    let cs = chars_of(s);
    let json = chars_of(".json");
    if crate::text::chars_contain(cs.as_slice(), '/') || crate::text::chars_contain(
        cs.as_slice(),
        '\\',
    ) || chars_end_with(cs.as_slice(), json.as_slice()) {
        return BuildTargetClass::Custom;
    }
    if is_valid_triple(s) {
        return BuildTargetClass::Triple;
    }
    BuildTargetClass::Invalid
}

/// Redacted, stable display form of a target key.
pub fn target_key_display(key: &CargoTargetKey) -> (r: String)
    ensures
        r@ == match key {
            CargoTargetKey::Triple { triple } => triple@,
            CargoTargetKey::Cfg { display, .. } => display@,
        },
{
    match key {
        CargoTargetKey::Triple { triple } => triple.clone(),
        CargoTargetKey::Cfg { display, .. } => display.clone(),
    }
}

// ---------------------------------------------------------------------------
// Typed setting warnings
// ---------------------------------------------------------------------------

/// Pushes a typed setting warning with an explicit count.
pub fn push_setting_warning_count(
    warnings: &mut Vec<CargoPlatformWarning>,
    setting: ConfigSetting,
    issue: ConfigSettingIssue,
    count: usize,
)
    ensures
        final(warnings)@ == old(warnings)@.push(
            CargoPlatformWarning::InvalidConfigSetting { setting, issue, count },
        ),
{
    warnings.push(CargoPlatformWarning::InvalidConfigSetting { setting, issue, count });
}

/// Pushes a single-count typed setting warning.
pub fn push_setting_warning(
    warnings: &mut Vec<CargoPlatformWarning>,
    setting: ConfigSetting,
    issue: ConfigSettingIssue,
)
    ensures
        final(warnings)@ == old(warnings)@.push(
            CargoPlatformWarning::InvalidConfigSetting { setting, issue, count: 1 },
        ),
{
    push_setting_warning_count(warnings, setting, issue, 1);
}

// ---------------------------------------------------------------------------
// Executable sanitization
// ---------------------------------------------------------------------------

/// First index of a path separator (`/` or `\`) at or below `j - 1`, plus one;
/// 0 when there is none.
pub open spec fn after_last_sep(s: Seq<char>, j: int) -> int
    decreases j,
{
    if j <= 0 || j > s.len() {
        0
    } else if s[j - 1] == '/' || s[j - 1] == '\\' {
        j
    } else {
        after_last_sep(s, j - 1)
    }
}

/// The basename of the first word of `raw`: the part after its last `/`
/// or `\` (empty when there is no word or it ends with a separator).
pub open spec fn spec_sanitize_basename(raw: Seq<char>) -> Seq<char> {
    let w = first_word(raw);
    w.subrange(after_last_sep(w, w.len() as int), w.len() as int)
}

proof fn lemma_after_last_sep_bounds(s: Seq<char>, j: int)
    requires
        0 <= j <= s.len(),
    ensures
        0 <= after_last_sep(s, j) <= j,
    decreases j,
{
    if j > 0 && !(s[j - 1] == '/' || s[j - 1] == '\\') {
        lemma_after_last_sep_bounds(s, j - 1);
    }
}

proof fn lemma_after_last_sep_no_sep(s: Seq<char>, j: int)
    requires
        0 <= j <= s.len(),
    ensures
        0 <= after_last_sep(s, j) <= j,
        forall|m: int| after_last_sep(s, j) <= m < j ==> (#[trigger] s[m] != '/' && s[m] != '\\'),
    decreases j,
{
    if j > 0 && !(s[j - 1] == '/' || s[j - 1] == '\\') {
        lemma_after_last_sep_no_sep(s, j - 1);
    }
}

/// A sanitized executable never carries a directory or an argument: no `/`,
/// no `\`, and no white space occurs in it.
pub proof fn lemma_basename_has_no_separator(raw: Seq<char>)
    ensures
        forall|k: int|
            0 <= k < spec_sanitize_basename(raw).len() ==> {
                let c = #[trigger] spec_sanitize_basename(raw)[k];
                c != '/' && c != '\\' && !is_ws(c)
            },
{
    let w = first_word(raw);
    let a = after_last_sep(w, w.len() as int);
    lemma_after_last_sep_no_sep(w, w.len() as int);
    lemma_first_word_no_ws(raw);
    assert forall|k: int| 0 <= k < spec_sanitize_basename(raw).len() implies {
        let c = #[trigger] spec_sanitize_basename(raw)[k];
        c != '/' && c != '\\' && !is_ws(c)
    } by {
        assert(spec_sanitize_basename(raw)[k] == w[a + k]);
    }
}

/// Sanitizes an executable string to its basename (no directories, no
/// arguments). Both `/` and `\` are separators on every host.
pub fn sanitize_basename(raw: &str) -> (r: String)
    ensures
        r@ == spec_sanitize_basename(raw@),
{
    let cs = chars_of(raw);
    let w = first_word_chars(cs.as_slice());
    let mut j = w.len();
    while j > 0 && !(w[j - 1] == '/' || w[j - 1] == '\\')
        invariant
            j <= w@.len(),
            after_last_sep(w@, j as int) == after_last_sep(w@, w@.len() as int),
        decreases j,
    {
        j -= 1;
    }
    let tail = crate::text::subrange_vec(w.as_slice(), j, w.len());
    string_of(tail.as_slice())
}

/// Sanitizes a runner program token; an empty basename yields a typed
/// `Empty` warning and `None`.
pub fn sanitize_basename_checked(
    raw: &str,
    warnings: &mut Vec<CargoPlatformWarning>,
    setting: ConfigSetting,
) -> (r: Option<String>)
    ensures
        spec_sanitize_basename(raw@).len() == 0 ==> r is None && final(warnings)@ == old(
            warnings,
        )@.push(
            CargoPlatformWarning::InvalidConfigSetting {
                setting,
                issue: ConfigSettingIssue::Empty,
                count: 1,
            },
        ),
        spec_sanitize_basename(raw@).len() > 0 ==> (r matches Some(b) && b@ == spec_sanitize_basename(
            raw@,
        )) && final(warnings)@ == old(warnings)@,
{
    let basename = sanitize_basename(raw);
    if basename.as_str().is_empty() {
        push_setting_warning(warnings, setting, ConfigSettingIssue::Empty);
        return None;
    }
    Some(basename)
}

// ---------------------------------------------------------------------------
// rustflags classification
// ---------------------------------------------------------------------------

/// The flag name part of a lowered token: before its first `=`, trimmed.
pub open spec fn flag_name(t: Seq<char>) -> Seq<char> {
    trim_ws(before_char(t.map_values(|c: char| ascii_lower(c)), '='))
}

/// Category of a rustflag token by its prefix.
pub open spec fn spec_classify_rustflag(token: Seq<char>) -> RustflagCategory {
    let t = trim_ws(token);
    let p = flag_name(t);
    if t.len() == 0 {
        RustflagCategory::Unknown
    } else if has_prefix(t, "-L"@) {
        RustflagCategory::LinkSearch
    } else if has_prefix(t, "-l"@) {
        RustflagCategory::LibraryLink
    } else if p == "-c"@ {
        RustflagCategory::Codegen
    } else if p == "-c link-arg"@ || has_prefix(p, "-clink-arg"@) || p == "link-arg"@ || has_prefix(
        p,
        "link-arg"@,
    ) || p == "-c link-args"@ || has_prefix(p, "-clink-args"@) || p == "link-args"@ || has_prefix(
        p,
        "link-args"@,
    ) {
        RustflagCategory::LinkArg
    } else if p == "-c linker"@ || has_prefix(p, "-clinker"@) || p == "linker"@ || has_prefix(
        p,
        "linker="@,
    ) {
        RustflagCategory::Linker
    } else if p == "-c link-search-path"@ || has_prefix(p, "-clink-search-path"@) || p
        == "link-search-path"@ || has_prefix(p, "link-search-path"@) {
        RustflagCategory::LinkSearch
    } else if p == "-c target-feature"@ || has_prefix(p, "-ctarget-feature"@) || p
        == "target-feature"@ || p == "-c target-cpu"@ || has_prefix(p, "-ctarget-cpu"@) || p
        == "target-cpu"@ {
        RustflagCategory::TargetFeature
    } else if has_prefix(p, "-c"@) || has_prefix(p, "-c="@) {
        RustflagCategory::Codegen
    } else if has_prefix(p, "-z"@) {
        RustflagCategory::Unstable
    } else if p == "--cfg"@ || has_prefix(p, "--cfg"@) {
        RustflagCategory::Cfg
    } else if has_prefix(p, "-w"@) || p == "--warn"@ || has_prefix(p, "--warn"@) {
        RustflagCategory::Warning
    } else if p == "--remap-path-prefix"@ || has_prefix(p, "--remap-path-prefix"@) {
        RustflagCategory::RemapPath
    } else {
        RustflagCategory::Unknown
    }
}

proof fn lemma_skip_ws_prefix(s: Seq<char>, i: int)
    requires
        0 <= i <= s.len(),
    ensures
        i <= crate::text::skip_ws(s, i) <= s.len(),
        crate::text::skip_ws(s, i) < s.len() ==> !is_ws(s[crate::text::skip_ws(s, i)]),
    decreases s.len() - i,
{
    if i < s.len() && is_ws(s[i]) {
        lemma_skip_ws_prefix(s, i + 1);
    }
}

proof fn lemma_rskip_ws_range(s: Seq<char>, j: int)
    requires
        0 <= j <= s.len(),
    ensures
        0 <= crate::text::rskip_ws(s, j) <= j,
        j > 0 && !is_ws(s[0]) ==> crate::text::rskip_ws(s, j) > 0,
    decreases j,
{
    if j > 0 && is_ws(s[j - 1]) {
        lemma_rskip_ws_range(s, j - 1);
    }
}

proof fn lemma_first_eq_bounds(s: Seq<char>, c: char, i: int)
    requires
        0 <= i <= s.len(),
    ensures
        i <= crate::text::first_index_of(s, c, i) <= s.len(),
    decreases s.len() - i,
{
    if i < s.len() && s[i] != c {
        lemma_first_eq_bounds(s, c, i + 1);
    }
}

/// Lowering never makes a character white space.
proof fn lemma_lower_not_ws(c: char)
    ensures
        !is_ws(c) ==> !is_ws(ascii_lower(c)),
        ascii_lower(c) == '-' <==> c == '-',
        ascii_lower(c) == 'c' <==> (c == 'c' || c == 'C'),
        ascii_lower(c) == 't' <==> (c == 't' || c == 'T'),
        ascii_lower(c) == 'l' <==> (c == 'l' || c == 'L'),
{
}

/// A trimmed text is empty or starts with a character that is not white space.
proof fn lemma_trim_ws_start(s: Seq<char>)
    ensures
        trim_ws(s).len() > 0 ==> !is_ws(trim_ws(s)[0]),
{
    lemma_skip_ws_prefix(s, 0);
    lemma_rskip_ws_range(s, s.len() as int);
}

/// The flag name of a text that does not start with white space is, character
/// for character, a lowered prefix of it.
proof fn lemma_flag_name_prefix(t: Seq<char>)
    requires
        t.len() > 0 ==> !is_ws(t[0]),
    ensures
        flag_name(t).len() <= t.len(),
        forall|k: int| 0 <= k < flag_name(t).len() ==> #[trigger] flag_name(t)[k] == ascii_lower(t[k]),
{
    let l = t.map_values(|c: char| ascii_lower(c));
    lemma_first_eq_bounds(l, '=', 0);
    let b = before_char(l, '=');
    assert(b.len() <= t.len());
    lemma_skip_ws_prefix(b, 0);
    lemma_rskip_ws_range(b, b.len() as int);
    if b.len() > 0 {
        lemma_lower_not_ws(t[0]);
        assert(b[0] == ascii_lower(t[0]));
        assert(crate::text::skip_ws(b, 0) == 0);
    }
    assert forall|k: int| 0 <= k < flag_name(t).len() implies #[trigger] flag_name(t)[k] == ascii_lower(t[k]) by {
        assert(b[k] == l[k]);
    }
}

/// The target CPU and target feature flags (`target-cpu`, `target-feature`,
/// with or without `-C `, in any ASCII case, with or without a value) are
/// classified as target features.
pub proof fn lemma_target_flags_are_target_features(token: Seq<char>)
    requires
        ({
            let name = flag_name(trim_ws(token));
            name == "target-cpu"@ || name == "target-feature"@ || name == "-c target-cpu"@ || name
                == "-c target-feature"@
        }),
    ensures
        spec_classify_rustflag(token) == RustflagCategory::TargetFeature,
{
    let t = trim_ws(token);
    let p = flag_name(t);
    reveal_strlit("target-cpu");
    reveal_strlit("target-feature");
    reveal_strlit("-c target-cpu");
    reveal_strlit("-c target-feature");
    reveal_strlit("-L");
    reveal_strlit("-l");
    reveal_strlit("-c");
    reveal_strlit("-c link-arg");
    reveal_strlit("-clink-arg");
    reveal_strlit("link-arg");
    reveal_strlit("-c link-args");
    reveal_strlit("-clink-args");
    reveal_strlit("link-args");
    reveal_strlit("-c linker");
    reveal_strlit("-clinker");
    reveal_strlit("linker");
    reveal_strlit("linker=");
    reveal_strlit("-c link-search-path");
    reveal_strlit("-clink-search-path");
    reveal_strlit("link-search-path");
    reveal_strlit("-ctarget-feature");
    reveal_strlit("-ctarget-cpu");
    lemma_trim_ws_start(token);
    lemma_flag_name_prefix(t);
    assert(p.len() >= 10);
    assert(t.len() > 0);
    assert(p[0] == ascii_lower(t[0]));
    assert(p[1] == ascii_lower(t[1]));
    lemma_lower_not_ws(t[0]);
    lemma_lower_not_ws(t[1]);
    assert(!has_prefix(t, "-L"@)) by {
        if has_prefix(t, "-L"@) {
            assert(t[0] == t.take(2)[0] && t[1] == t.take(2)[1]);
        }
    }
    assert(!has_prefix(t, "-l"@)) by {
        if has_prefix(t, "-l"@) {
            assert(t[0] == t.take(2)[0] && t[1] == t.take(2)[1]);
        }
    }
    assert(!has_prefix(p, "-clink-arg"@)) by {
        if has_prefix(p, "-clink-arg"@) {
            assert(p[2] == p.take(10)[2]);
        }
    }
    assert(!has_prefix(p, "link-arg"@)) by {
        if has_prefix(p, "link-arg"@) {
            assert(p[0] == p.take(8)[0]);
        }
    }
    assert(!has_prefix(p, "-clink-args"@)) by {
        if has_prefix(p, "-clink-args"@) {
            assert(p[2] == p.take(11)[2]);
        }
    }
    assert(!has_prefix(p, "link-args"@)) by {
        if has_prefix(p, "link-args"@) {
            assert(p[0] == p.take(9)[0]);
        }
    }
    assert(!has_prefix(p, "-clinker"@)) by {
        if has_prefix(p, "-clinker"@) {
            assert(p[2] == p.take(8)[2]);
        }
    }
    assert(!has_prefix(p, "linker="@)) by {
        if has_prefix(p, "linker="@) {
            assert(p[0] == p.take(7)[0]);
        }
    }
    assert(!has_prefix(p, "-clink-search-path"@)) by {
        if has_prefix(p, "-clink-search-path"@) {
            assert(p[2] == p.take(18)[2]);
        }
    }
    assert(!has_prefix(p, "link-search-path"@)) by {
        if has_prefix(p, "link-search-path"@) {
            assert(p[0] == p.take(16)[0]);
        }
    }
}

/// Native link flags are classified by their spelling: a token starting
/// with `-L` is a link search path, one starting with `-l` a library link.
pub proof fn lemma_link_flags(token: Seq<char>)
    ensures
        has_prefix(trim_ws(token), "-L"@) ==> spec_classify_rustflag(token) == RustflagCategory::LinkSearch,
        has_prefix(trim_ws(token), "-l"@) ==> spec_classify_rustflag(token) == RustflagCategory::LibraryLink,
{
    reveal_strlit("-L");
    reveal_strlit("-l");
    let t = trim_ws(token);
    if has_prefix(t, "-l"@) {
        assert(t[1] == t.take(2)[1]);
        assert(!has_prefix(t, "-L"@)) by {
            if has_prefix(t, "-L"@) {
                assert(t[1] == t.take(2)[1]);
            }
        }
    }
}

/// Flags named (in any ASCII case, before any `=`) `-C`, `linker` or
/// `-C linker`, `link-arg(s)` or `-C link-arg(s)`, and `--cfg` are
/// classified as codegen, linker, link argument and cfg flags.
pub proof fn lemma_named_flags(token: Seq<char>)
    ensures
        flag_name(trim_ws(token)) == "-c"@ ==> spec_classify_rustflag(token) == RustflagCategory::Codegen,
        flag_name(trim_ws(token)) == "linker"@ || flag_name(trim_ws(token)) == "-c linker"@
            ==> spec_classify_rustflag(token) == RustflagCategory::Linker,
        flag_name(trim_ws(token)) == "link-arg"@ || flag_name(trim_ws(token)) == "-c link-arg"@ || flag_name(
            trim_ws(token),
        ) == "link-args"@ || flag_name(trim_ws(token)) == "-c link-args"@ ==> spec_classify_rustflag(token)
            == RustflagCategory::LinkArg,
        flag_name(trim_ws(token)) == "--cfg"@ ==> spec_classify_rustflag(token) == RustflagCategory::Cfg,
{
    reveal_strlit("-L");
    reveal_strlit("-l");
    reveal_strlit("-c");
    reveal_strlit("-c link-arg");
    reveal_strlit("-clink-arg");
    reveal_strlit("link-arg");
    reveal_strlit("-c link-args");
    reveal_strlit("-clink-args");
    reveal_strlit("link-args");
    reveal_strlit("-c linker");
    reveal_strlit("-clinker");
    reveal_strlit("linker");
    reveal_strlit("linker=");
    reveal_strlit("-c link-search-path");
    reveal_strlit("-clink-search-path");
    reveal_strlit("link-search-path");
    reveal_strlit("-c target-feature");
    reveal_strlit("-ctarget-feature");
    reveal_strlit("target-feature");
    reveal_strlit("-c target-cpu");
    reveal_strlit("-ctarget-cpu");
    reveal_strlit("target-cpu");
    reveal_strlit("-c=");
    reveal_strlit("-z");
    reveal_strlit("--cfg");
    let t = trim_ws(token);
    let p = flag_name(t);
    lemma_trim_ws_start(token);
    lemma_flag_name_prefix(t);
    if p.len() >= 2 {
        assert(p[0] == ascii_lower(t[0]));
        assert(p[1] == ascii_lower(t[1]));
        lemma_lower_not_ws(t[0]);
        lemma_lower_not_ws(t[1]);
        assert(!has_prefix(t, "-L"@) || p[1] == 'l') by {
            if has_prefix(t, "-L"@) {
                assert(t[0] == t.take(2)[0] && t[1] == t.take(2)[1]);
            }
        }
        assert(!has_prefix(t, "-l"@) || p[1] == 'l') by {
            if has_prefix(t, "-l"@) {
                assert(t[0] == t.take(2)[0] && t[1] == t.take(2)[1]);
            }
        }
        assert(!has_prefix(t, "-l"@) || p[0] == '-') by {
            if has_prefix(t, "-l"@) {
                assert(t[0] == t.take(2)[0]);
            }
        }
        assert(!has_prefix(t, "-L"@) || p[0] == '-') by {
            if has_prefix(t, "-L"@) {
                assert(t[0] == t.take(2)[0]);
            }
        }
    }
    if p == "-c linker"@ || p == "-c link-arg"@ || p == "-c link-args"@ {
        assert(p[2] == ' ');
        assert(!has_prefix(p, "link-arg"@)) by {
            if has_prefix(p, "link-arg"@) {
                assert(p[0] == p.take(8)[0]);
            }
        }
        assert(!has_prefix(p, "link-args"@)) by {
            if has_prefix(p, "link-args"@) {
                assert(p[0] == p.take(9)[0]);
            }
        }
        assert(!has_prefix(p, "-clink-arg"@)) by {
            if has_prefix(p, "-clink-arg"@) {
                assert(p[2] == p.take(10)[2]);
            }
        }
        assert(!has_prefix(p, "-clink-args"@)) by {
            if has_prefix(p, "-clink-args"@) {
                assert(p[2] == p.take(11)[2]);
            }
        }
        assert(!has_prefix(p, "-clinker"@)) by {
            if has_prefix(p, "-clinker"@) {
                assert(p[2] == p.take(8)[2]);
            }
        }
    }
    if p == "linker"@ {
        assert(!has_prefix(p, "link-arg"@)) by {
            if has_prefix(p, "link-arg"@) {
                assert(p.len() >= 8);
            }
        }
        assert(!has_prefix(p, "link-args"@));
    }
    if p == "--cfg"@ {
        assert(!has_prefix(p, "-c"@)) by {
            if has_prefix(p, "-c"@) {
                assert(p[1] == p.take(2)[1]);
            }
        }
        assert(!has_prefix(p, "-c="@)) by {
            if has_prefix(p, "-c="@) {
                assert(p[1] == p.take(3)[1]);
            }
        }
        assert(!has_prefix(p, "-z"@)) by {
            if has_prefix(p, "-z"@) {
                assert(p[1] == p.take(2)[1]);
            }
        }
        assert(!has_prefix(p, "-clink-arg"@)) by {
            if has_prefix(p, "-clink-arg"@) {
                assert(p.len() >= 10);
            }
        }
        assert(!has_prefix(p, "link-arg"@)) by {
            if has_prefix(p, "link-arg"@) {
                assert(p.len() >= 8);
            }
        }
        assert(!has_prefix(p, "-clink-args"@));
        assert(!has_prefix(p, "link-args"@));
        assert(!has_prefix(p, "-clinker"@)) by {
            if has_prefix(p, "-clinker"@) {
                assert(p.len() >= 8);
            }
        }
        assert(!has_prefix(p, "linker="@)) by {
            if has_prefix(p, "linker="@) {
                assert(p.len() >= 7);
            }
        }
        assert(!has_prefix(p, "-clink-search-path"@));
        assert(!has_prefix(p, "link-search-path"@));
        assert(!has_prefix(p, "-ctarget-feature"@));
        assert(!has_prefix(p, "-ctarget-cpu"@));
    }
}

fn is(p: &[char], lit: &str) -> (r: bool)
    ensures
        r == (p@ == lit@),
{
    let l = chars_of(lit);
    crate::text::chars_eq(p, l.as_slice())
}

fn starts(p: &[char], lit: &str) -> (r: bool)
    ensures
        r == has_prefix(p@, lit@),
{
    let l = chars_of(lit);
    chars_start_with(p, l.as_slice())
}

/// Classifies a single rustflag token by its prefix (values never inspected).
pub fn classify_rustflag(token: &str) -> (r: RustflagCategory)
    ensures
        r == spec_classify_rustflag(token@),
        ({
            let name = flag_name(trim_ws(token@));
            name == "target-cpu"@ || name == "target-feature"@ || name == "-c target-cpu"@ || name
                == "-c target-feature"@
        }) ==> r == RustflagCategory::TargetFeature,
{
    proof {
        let name = flag_name(trim_ws(token@));
        if name == "target-cpu"@ || name == "target-feature"@ || name == "-c target-cpu"@ || name
            == "-c target-feature"@ {
            lemma_target_flags_are_target_features(token@);
        }
    }
    let cs = chars_of(token);
    let t = trim_chars(cs.as_slice());
    let t = t.as_slice();
    if t.len() == 0 {
        return RustflagCategory::Unknown;
    }
    if starts(t, "-L") {
        return RustflagCategory::LinkSearch;
    }
    if starts(t, "-l") {
        return RustflagCategory::LibraryLink;
    }
    let lower = ascii_lowercase(t);
    let no_val = before_first(lower.as_slice(), '=');
    let pv = trim_chars(no_val.as_slice());
    let p = pv.as_slice();
    assert(p@ == flag_name(t@));
    if is(p, "-c") {
        return RustflagCategory::Codegen;
    }
    if is(p, "-c link-arg") || starts(p, "-clink-arg") || is(p, "link-arg") || starts(p, "link-arg")
        || is(p, "-c link-args") || starts(p, "-clink-args") || is(p, "link-args") || starts(
        p,
        "link-args",
    ) {
        return RustflagCategory::LinkArg;
    }
    if is(p, "-c linker") || starts(p, "-clinker") || is(p, "linker") || starts(p, "linker=") {
        return RustflagCategory::Linker;
    }
    if is(p, "-c link-search-path") || starts(p, "-clink-search-path") || is(p, "link-search-path")
        || starts(p, "link-search-path") {
        return RustflagCategory::LinkSearch;
    }
    if is(p, "-c target-feature") || starts(p, "-ctarget-feature") || is(p, "target-feature") || is(
        p,
        "-c target-cpu",
    ) || starts(p, "-ctarget-cpu") || is(p, "target-cpu") {
        return RustflagCategory::TargetFeature;
    }
    if starts(p, "-c") || starts(p, "-c=") {
        return RustflagCategory::Codegen;
    }
    if starts(p, "-z") {
        return RustflagCategory::Unstable;
    }
    if is(p, "--cfg") || starts(p, "--cfg") {
        return RustflagCategory::Cfg;
    }
    if starts(p, "-w") || is(p, "--warn") || starts(p, "--warn") {
        return RustflagCategory::Warning;
    }
    if is(p, "--remap-path-prefix") || starts(p, "--remap-path-prefix") {
        return RustflagCategory::RemapPath;
    }
    RustflagCategory::Unknown
}


// ---------------------------------------------------------------------------
// rustflags evidence
// ---------------------------------------------------------------------------

/// Position of a category in declaration order.
pub open spec fn cat_index(c: RustflagCategory) -> int {
    match c {
        RustflagCategory::LinkArg => 0,
        RustflagCategory::Linker => 1,
        RustflagCategory::LinkSearch => 2,
        RustflagCategory::LibraryLink => 3,
        RustflagCategory::TargetFeature => 4,
        RustflagCategory::Cfg => 5,
        RustflagCategory::Unstable => 6,
        RustflagCategory::Codegen => 7,
        RustflagCategory::Warning => 8,
        RustflagCategory::RemapPath => 9,
        RustflagCategory::Unknown => 10,
    }
}

/// The category at a declaration-order position.
pub open spec fn cat_at(k: int) -> RustflagCategory {
    if k == 0 {
        RustflagCategory::LinkArg
    } else if k == 1 {
        RustflagCategory::Linker
    } else if k == 2 {
        RustflagCategory::LinkSearch
    } else if k == 3 {
        RustflagCategory::LibraryLink
    } else if k == 4 {
        RustflagCategory::TargetFeature
    } else if k == 5 {
        RustflagCategory::Cfg
    } else if k == 6 {
        RustflagCategory::Unstable
    } else if k == 7 {
        RustflagCategory::Codegen
    } else if k == 8 {
        RustflagCategory::Warning
    } else if k == 9 {
        RustflagCategory::RemapPath
    } else {
        RustflagCategory::Unknown
    }
}

pub fn cat_index_of(c: RustflagCategory) -> (r: usize)
    ensures
        r == cat_index(c),
        r < 11,
        cat_at(r as int) == c,
{
    match c {
        RustflagCategory::LinkArg => 0,
        RustflagCategory::Linker => 1,
        RustflagCategory::LinkSearch => 2,
        RustflagCategory::LibraryLink => 3,
        RustflagCategory::TargetFeature => 4,
        RustflagCategory::Cfg => 5,
        RustflagCategory::Unstable => 6,
        RustflagCategory::Codegen => 7,
        RustflagCategory::Warning => 8,
        RustflagCategory::RemapPath => 9,
        RustflagCategory::Unknown => 10,
    }
}

fn cat_at_exec(k: usize) -> (c: RustflagCategory)
    requires
        k < 11,
    ensures
        c == cat_at(k as int),
        cat_index(c) == k,
{
    match k {
        0 => RustflagCategory::LinkArg,
        1 => RustflagCategory::Linker,
        2 => RustflagCategory::LinkSearch,
        3 => RustflagCategory::LibraryLink,
        4 => RustflagCategory::TargetFeature,
        5 => RustflagCategory::Cfg,
        6 => RustflagCategory::Unstable,
        7 => RustflagCategory::Codegen,
        8 => RustflagCategory::Warning,
        9 => RustflagCategory::RemapPath,
        _ => RustflagCategory::Unknown,
    }
}

/// Token framing with a `u32` LE length prefix per token.
pub open spec fn framed32(toks: Seq<Seq<char>>) -> Seq<u8>
    decreases toks.len(),
{
    if toks.len() == 0 {
        seq![]
    } else {
        let b = vstd::utf8::encode_utf8(toks.last());
        framed32(toks.drop_last()) + le32(b.len() as u32) + b
    }
}

/// Tokens of category `c`.
pub open spec fn of_cat(c: RustflagCategory) -> spec_fn(Seq<char>) -> bool {
    |t: Seq<char>| spec_classify_rustflag(t) == c
}

/// Whether a token affects native linking.
pub open spec fn is_native_token() -> spec_fn(Seq<char>) -> bool {
    |t: Seq<char>| spec_classify_rustflag(t).spec_is_native_linking()
}

/// Nonzero per-category counts, in category declaration order from `k`.
pub open spec fn category_counts(toks: Seq<Seq<char>>, k: int) -> Seq<RustflagCategoryCount>
    decreases 11 - k,
{
    if k < 0 || k >= 11 {
        seq![]
    } else {
        let n = toks.filter(of_cat(cat_at(k))).len();
        (if n > 0 {
            seq![RustflagCategoryCount { category: cat_at(k), count: n as usize }]
        } else {
            seq![]
        }) + category_counts(toks, k + 1)
    }
}

/// The evidence that `rustflags_evidence` computes for tokens `toks`.
pub open spec fn spec_rustflags_evidence(toks: Seq<Seq<char>>, ev: RustflagsEvidence) -> bool {
    let native = toks.filter(is_native_token());
    &&& ev.flag_count == toks.len()
    &&& ev.categories@ == category_counts(toks, 0)
    &&& ev.has_native_linking == (native.len() > 0)
    &&& ev.native_flag_count == native.len()
    &&& ev.identity@ == spec_sha256_hex(framed32(toks))
    &&& ev.native_identity@ == spec_sha256_hex(framed32(native))
}

fn push_framed32(msg: &mut Vec<u8>, tok: &String)
    ensures
        final(msg)@ == old(msg)@ + le32(vstd::utf8::encode_utf8(tok@).len() as u32)
            + vstd::utf8::encode_utf8(tok@),
{
    let b = tok.as_str().as_bytes();
    push_le32(msg, b.len() as u32);
    push_all(msg, b);
    assert(msg@ =~= old(msg)@ + le32(vstd::utf8::encode_utf8(tok@).len() as u32)
        + vstd::utf8::encode_utf8(tok@));
}

/// Deterministic, sanitized evidence from flag tokens: per-category counts,
/// native-linking counts, and framed identities (values never retained).
pub fn rustflags_evidence(tokens: &[String]) -> (ev: RustflagsEvidence)
    ensures
        spec_rustflags_evidence(tokens@.map_values(|t: String| t@), ev),
{
    let ghost tv = tokens@.map_values(|t: String| t@);
    let mut counts: Vec<usize> = Vec::new();
    let mut z: usize = 0;
    while z < 11
        invariant
            z <= 11,
            counts@.len() == z,
            forall|k: int| 0 <= k < z ==> counts@[k] == 0,
        decreases 11 - z,
    {
        counts.push(0);
        z += 1;
    }
    let mut all_msg: Vec<u8> = Vec::new();
    let mut native_msg: Vec<u8> = Vec::new();
    let mut native_count: usize = 0;
    let mut i: usize = 0;
    proof {
        reveal_with_fuel(Seq::filter, 1);
        assert(tv.take(0) =~= seq![]);
    }
    while i < tokens.len()
        invariant
            i <= tokens@.len(),
            tv == tokens@.map_values(|t: String| t@),
            counts@.len() == 11,
            forall|k: int| 0 <= k < 11 ==> #[trigger] counts@[k] == tv.take(i as int).filter(of_cat(cat_at(k))).len(),
            forall|k: int| 0 <= k < 11 ==> #[trigger] counts@[k] <= i,
            native_count == tv.take(i as int).filter(is_native_token()).len(),
            native_count <= i,
            all_msg@ == framed32(tv.take(i as int)),
            native_msg@ == framed32(tv.take(i as int).filter(is_native_token())),
        decreases tokens@.len() - i,
    {
        let tok = &tokens[i];
        let cat = classify_rustflag(tok.as_str());
        let idx = cat_index_of(cat);
        let ghost pre = tv.take(i as int);
        proof {
            reveal_with_fuel(Seq::filter, 1);
            assert(tv.take(i + 1).drop_last() =~= pre);
            assert(tv.take(i + 1).last() == tok@);
            assert forall|k: int| 0 <= k < 11 implies #[trigger] tv.take(i + 1).filter(of_cat(cat_at(k))).len()
                == pre.filter(of_cat(cat_at(k))).len() + if k == idx { 1int } else { 0int } by {
                if k != idx {
                    assert(cat_at(k) != cat);
                }
            }
        }
        let old_c = counts[idx];
        counts.set(idx, old_c + 1);
        push_framed32(&mut all_msg, tok);
        if cat.is_native_linking() {
            native_count += 1;
            push_framed32(&mut native_msg, tok);
            proof {
                reveal_with_fuel(Seq::filter, 1);
                let nf = tv.take(i + 1).filter(is_native_token());
                assert(nf =~= pre.filter(is_native_token()).push(tok@));
                assert(nf.drop_last() =~= pre.filter(is_native_token()));
            }
        } else {
            proof {
                reveal_with_fuel(Seq::filter, 1);
                assert(tv.take(i + 1).filter(is_native_token()) =~= pre.filter(is_native_token()));
            }
        }
        proof {
            assert(tv.take(i + 1) =~= pre.push(tok@));
        }
        i += 1;
    }
    proof {
        assert(tv.take(tokens@.len() as int) =~= tv);
    }
    let mut categories: Vec<RustflagCategoryCount> = Vec::new();
    let mut k: usize = 0;
    while k < 11
        invariant
            k <= 11,
            counts@.len() == 11,
            forall|j: int| 0 <= j < 11 ==> #[trigger] counts@[j] == tv.filter(of_cat(cat_at(j))).len(),
            categories@ + category_counts(tv, k as int) == category_counts(tv, 0),
        decreases 11 - k,
    {
        let n = counts[k];
        let c = cat_at_exec(k);
        let ghost pre = categories@;
        if n > 0 {
            categories.push(RustflagCategoryCount { category: c, count: n });
        }
        proof {
            let here: Seq<RustflagCategoryCount> = if n > 0 {
                seq![RustflagCategoryCount { category: c, count: n }]
            } else {
                seq![]
            };
            assert(categories@ =~= pre + here);
            assert(pre + here + category_counts(tv, k + 1) =~= pre + (here + category_counts(tv, k + 1)));
        }
        k += 1;
    }
    proof {
        assert(categories@ + seq![] =~= categories@);
    }
    RustflagsEvidence {
        flag_count: tokens.len(),
        categories,
        has_native_linking: native_count > 0,
        native_flag_count: native_count,
        identity: sha256_hex(all_msg.as_slice()),
        native_identity: sha256_hex(native_msg.as_slice()),
    }
}

} // verus!
