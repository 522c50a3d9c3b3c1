//! Platform warning normalization: invalid-setting warnings are aggregated
//! per (setting, issue), then all warnings are sorted stably by a typed key
//! and adjacent duplicates are removed.

use vstd::prelude::*;

use super::types::{
    platform_warning_views, CargoPlatformWarning, ConfigSetting, ConfigSettingIssue, PlatformWarningV,
};
use crate::sortkey::{
    dedup_adjacent, digits_key, index_key, push_digits, push_index, push_text_key, stable_sort_by_text,
    stable_sorted_by, text_key, text_keys,
};
use crate::order::{sorted_by_key, views};
use crate::text::{str_eq, string_of};

verus! {

/// Rank of a setting (declaration order).
pub open spec fn setting_rank(s: ConfigSetting) -> int {
    match s {
        ConfigSetting::BuildTarget => 0,
        ConfigSetting::BuildRustflags => 1,
        ConfigSetting::BuildRustdocflags => 2,
        ConfigSetting::TargetTableKey => 3,
        ConfigSetting::TargetTableRustflags => 4,
        ConfigSetting::TargetTableRustdocflags => 5,
        ConfigSetting::TargetTableLinker => 6,
        ConfigSetting::TargetTableRunner => 7,
    }
}

/// Rank of an issue (declaration order).
pub open spec fn issue_rank(i: ConfigSettingIssue) -> int {
    match i {
        ConfigSettingIssue::WrongType => 0,
        ConfigSettingIssue::InvalidValue => 1,
        ConfigSettingIssue::MixedArray => 2,
        ConfigSettingIssue::Empty => 3,
    }
}

/// The setting of a rank.
pub open spec fn setting_of_rank(r: int) -> ConfigSetting {
    if r == 0 {
        ConfigSetting::BuildTarget
    } else if r == 1 {
        ConfigSetting::BuildRustflags
    } else if r == 2 {
        ConfigSetting::BuildRustdocflags
    } else if r == 3 {
        ConfigSetting::TargetTableKey
    } else if r == 4 {
        ConfigSetting::TargetTableRustflags
    } else if r == 5 {
        ConfigSetting::TargetTableRustdocflags
    } else if r == 6 {
        ConfigSetting::TargetTableLinker
    } else {
        ConfigSetting::TargetTableRunner
    }
}

/// The issue of a rank.
pub open spec fn issue_of_rank(r: int) -> ConfigSettingIssue {
    if r == 0 {
        ConfigSettingIssue::WrongType
    } else if r == 1 {
        ConfigSettingIssue::InvalidValue
    } else if r == 2 {
        ConfigSettingIssue::MixedArray
    } else {
        ConfigSettingIssue::Empty
    }
}

/// The warnings that are not invalid-setting warnings, in order.
pub open spec fn kept_warnings(ws: Seq<PlatformWarningV>) -> Seq<PlatformWarningV>
    decreases ws.len(),
{
    if ws.len() == 0 {
        seq![]
    } else if ws.last() is InvalidConfigSetting {
        kept_warnings(ws.drop_last())
    } else {
        kept_warnings(ws.drop_last()).push(ws.last())
    }
}

/// Whether `w` is an invalid-setting warning with this setting and issue.
pub open spec fn is_setting_issue(w: PlatformWarningV, s: ConfigSetting, i: ConfigSettingIssue) -> bool {
    match w {
        PlatformWarningV::InvalidConfigSetting(s2, i2, _) => s2 == s && i2 == i,
        _ => false,
    }
}

/// Whether some invalid-setting warning has this setting and issue.
pub open spec fn has_setting_issue(ws: Seq<PlatformWarningV>, s: ConfigSetting, i: ConfigSettingIssue) -> bool {
    exists|k: int| 0 <= k < ws.len() && #[trigger] is_setting_issue(ws[k], s, i)
}

/// The total count of the invalid-setting warnings with this setting and
/// issue, added with saturation.
pub open spec fn setting_issue_total(ws: Seq<PlatformWarningV>, s: ConfigSetting, i: ConfigSettingIssue) -> usize
    decreases ws.len(),
{
    if ws.len() == 0 {
        0
    } else {
        let t = setting_issue_total(ws.drop_last(), s, i);
        match ws.last() {
            PlatformWarningV::InvalidConfigSetting(s2, i2, c) => if s2 == s && i2 == i {
                if t + c > usize::MAX {
                    usize::MAX
                } else {
                    (t + c) as usize
                }
            } else {
                t
            },
            _ => t,
        }
    }
}

/// One aggregated warning per (setting, issue) present, for the first `n`
/// pairs in rank order (setting rank, then issue rank).
pub open spec fn totals_upto(ws: Seq<PlatformWarningV>, n: int) -> Seq<PlatformWarningV>
    decreases n,
{
    if n <= 0 {
        seq![]
    } else {
        let s = setting_of_rank((n - 1) / 4);
        let i = issue_of_rank((n - 1) % 4);
        totals_upto(ws, n - 1) + if has_setting_issue(ws, s, i) {
            seq![PlatformWarningV::InvalidConfigSetting(s, i, setting_issue_total(ws, s, i))]
        } else {
            seq![]
        }
    }
}

/// The warnings with invalid-setting warnings aggregated: the others in
/// order, then one total per (setting, issue) in rank order.
pub open spec fn aggregated_warnings(ws: Seq<PlatformWarningV>) -> Seq<PlatformWarningV> {
    kept_warnings(ws) + totals_upto(ws, 32)
}

/// Order key of a warning: variant, setting, issue, count, then text.
pub open spec fn warning_key(w: PlatformWarningV) -> Seq<char> {
    let (v, s, i, c, t) = match w {
        PlatformWarningV::MissingConfig(p) => (0int, 0int, 0int, 0int, p),
        PlatformWarningV::MalformedConfig(p, _, _, _, _) => (1, 0, 0, 0, p),
        PlatformWarningV::InvalidUtf8Config(p, _, _) => (2, 0, 0, 0, p),
        PlatformWarningV::SymlinkedConfig(p) => (3, 0, 0, 0, p),
        PlatformWarningV::InvalidTargetIdentifier(p, _) => (4, 0, 0, 0, p),
        PlatformWarningV::DuplicateTargetSetting(k, c) => (5, 0, 0, c as int, k),
        PlatformWarningV::InvalidConfigSetting(s, i, c) => (6, setting_rank(s), issue_rank(i), c as int, seq![]),
        PlatformWarningV::LimitExceeded(_) => (7, 0, 0, 0, seq![]),
        PlatformWarningV::UnsupportedConfigFile(p, _) => (8, 0, 0, 0, p),
        PlatformWarningV::WallClock(_, _) => (9, 0, 0, 0, seq![]),
    };
    index_key(v) + index_key(s) + index_key(i) + digits_key(c, 16) + text_key(t)
}

/// Key of a warning, as a warning.
pub open spec fn warning_order_key(w: CargoPlatformWarning) -> Seq<char> {
    warning_key(w@)
}

/// Normalized warnings: aggregated, sorted stably by key, adjacent
/// duplicates removed.
pub open spec fn normalized_warnings(ws: Seq<PlatformWarningV>) -> Seq<PlatformWarningV> {
    let a = aggregated_warnings(ws);
    dedup_adjacent(sorted_by_key(text_keys(a.map_values(|w: PlatformWarningV| warning_key(w))), a.len() as int).map_values(
        |j: int| a[j],
    ))
}

fn setting_code(s: ConfigSetting) -> (r: u32)
    ensures
        r as int == setting_rank(s),
{
    match s {
        ConfigSetting::BuildTarget => 0,
        ConfigSetting::BuildRustflags => 1,
        ConfigSetting::BuildRustdocflags => 2,
        ConfigSetting::TargetTableKey => 3,
        ConfigSetting::TargetTableRustflags => 4,
        ConfigSetting::TargetTableRustdocflags => 5,
        ConfigSetting::TargetTableLinker => 6,
        ConfigSetting::TargetTableRunner => 7,
    }
}

fn issue_code(i: ConfigSettingIssue) -> (r: u32)
    ensures
        r as int == issue_rank(i),
{
    match i {
        ConfigSettingIssue::WrongType => 0,
        ConfigSettingIssue::InvalidValue => 1,
        ConfigSettingIssue::MixedArray => 2,
        ConfigSettingIssue::Empty => 3,
    }
}

fn setting_from_code(r: u32) -> (s: ConfigSetting)
    ensures
        s == setting_of_rank(r as int),
{
    if r == 0 {
        ConfigSetting::BuildTarget
    } else if r == 1 {
        ConfigSetting::BuildRustflags
    } else if r == 2 {
        ConfigSetting::BuildRustdocflags
    } else if r == 3 {
        ConfigSetting::TargetTableKey
    } else if r == 4 {
        ConfigSetting::TargetTableRustflags
    } else if r == 5 {
        ConfigSetting::TargetTableRustdocflags
    } else if r == 6 {
        ConfigSetting::TargetTableLinker
    } else {
        ConfigSetting::TargetTableRunner
    }
}

fn issue_from_code(r: u32) -> (i: ConfigSettingIssue)
    ensures
        i == issue_of_rank(r as int),
{
    if r == 0 {
        ConfigSettingIssue::WrongType
    } else if r == 1 {
        ConfigSettingIssue::InvalidValue
    } else if r == 2 {
        ConfigSettingIssue::MixedArray
    } else {
        ConfigSettingIssue::Empty
    }
}

/// A copy of a warning.
pub fn copy_platform_warning(w: &CargoPlatformWarning) -> (r: CargoPlatformWarning)
    ensures
        r@ == w@,
{
    match w {
        CargoPlatformWarning::MissingConfig { path } => CargoPlatformWarning::MissingConfig { path: path.clone() },
        CargoPlatformWarning::MalformedConfig { path, reason, line, column, content_hash } =>
            CargoPlatformWarning::MalformedConfig {
            path: path.clone(),
            reason: reason.clone(),
            line: *line,
            column: *column,
            content_hash: content_hash.clone(),
        },
        CargoPlatformWarning::InvalidUtf8Config { path, content_hash, byte_count } =>
            CargoPlatformWarning::InvalidUtf8Config {
            path: path.clone(),
            content_hash: content_hash.clone(),
            byte_count: *byte_count,
        },
        CargoPlatformWarning::SymlinkedConfig { path } => CargoPlatformWarning::SymlinkedConfig { path: path.clone() },
        CargoPlatformWarning::InvalidTargetIdentifier { path, reason } =>
            CargoPlatformWarning::InvalidTargetIdentifier { path: path.clone(), reason: reason.clone() },
        CargoPlatformWarning::DuplicateTargetSetting { key_display, count } =>
            CargoPlatformWarning::DuplicateTargetSetting { key_display: key_display.clone(), count: *count },
        CargoPlatformWarning::InvalidConfigSetting { setting, issue, count } =>
            CargoPlatformWarning::InvalidConfigSetting { setting: *setting, issue: *issue, count: *count },
        CargoPlatformWarning::LimitExceeded { limit } => CargoPlatformWarning::LimitExceeded { limit: *limit },
        CargoPlatformWarning::UnsupportedConfigFile { path, reason } =>
            CargoPlatformWarning::UnsupportedConfigFile { path: path.clone(), reason: reason.clone() },
        CargoPlatformWarning::WallClock { max_millis, observed_millis } =>
            CargoPlatformWarning::WallClock { max_millis: *max_millis, observed_millis: *observed_millis },
    }
}

/// Invalid-setting warnings aggregated per (setting, issue).
pub fn aggregate_invalid_config_settings(warnings: &Vec<CargoPlatformWarning>) -> (r: Vec<CargoPlatformWarning>)
    ensures
        platform_warning_views(r@) == aggregated_warnings(platform_warning_views(warnings@)),
{
    let ghost ws = platform_warning_views(warnings@);
    let mut out: Vec<CargoPlatformWarning> = Vec::new();
    let mut k: usize = 0;
    while k < warnings.len()
        invariant
            k <= warnings@.len(),
            ws == platform_warning_views(warnings@),
            platform_warning_views(out@) == kept_warnings(ws.take(k as int)),
        decreases warnings@.len() - k,
    {
        assert(ws.take(k + 1).drop_last() =~= ws.take(k as int));
        let ghost prev = out@;
        match &warnings[k] {
            CargoPlatformWarning::InvalidConfigSetting { .. } => {},
            w => {
                out.push(copy_platform_warning(w));
                assert(platform_warning_views(out@) =~= platform_warning_views(prev).push(warnings@[k as int]@));
            },
        }
        k = k + 1;
    }
    assert(ws.take(warnings@.len() as int) =~= ws);
    let mut r: u32 = 0;
    while r < 32
        invariant
            r <= 32,
            ws == platform_warning_views(warnings@),
            platform_warning_views(out@) == kept_warnings(ws) + totals_upto(ws, r as int),
        decreases 32 - r,
    {
        let setting = setting_from_code(r / 4);
        let issue = issue_from_code(r % 4);
        let mut total: usize = 0;
        let mut present = false;
        let mut j: usize = 0;
        while j < warnings.len()
            invariant
                j <= warnings@.len(),
                ws == platform_warning_views(warnings@),
                total == setting_issue_total(ws.take(j as int), setting, issue),
                present == has_setting_issue(ws.take(j as int), setting, issue),
            decreases warnings@.len() - j,
        {
            assert(ws.take(j + 1).drop_last() =~= ws.take(j as int));
            let ghost prefix = ws.take(j as int);
            let ghost next = ws.take(j + 1);
            match &warnings[j] {
                CargoPlatformWarning::InvalidConfigSetting { setting: s, issue: i, count } => {
                    if *s == setting && *i == issue {
                        total = total.saturating_add(*count);
                        present = true;
                        assert(next[j as int] == ws[j as int]);
                    } else {
                        assert forall|q: int| 0 <= q < next.len() && #[trigger] is_setting_issue(next[q], setting, issue) implies q < j by {}
                        assert(present == has_setting_issue(next, setting, issue)) by {
                            if has_setting_issue(next, setting, issue) {
                                let q = choose|q: int| 0 <= q < next.len() && #[trigger] is_setting_issue(next[q], setting, issue);
                                assert(prefix[q] == next[q]);
                            }
                            if has_setting_issue(prefix, setting, issue) {
                                let q = choose|q: int| 0 <= q < prefix.len() && #[trigger] is_setting_issue(prefix[q], setting, issue);
                                assert(next[q] == prefix[q]);
                            }
                        }
                    }
                },
                _ => {
                    assert(present == has_setting_issue(next, setting, issue)) by {
                        if has_setting_issue(next, setting, issue) {
                            let q = choose|q: int| 0 <= q < next.len() && #[trigger] is_setting_issue(next[q], setting, issue);
                            assert(q != j);
                            assert(prefix[q] == next[q]);
                        }
                        if has_setting_issue(prefix, setting, issue) {
                            let q = choose|q: int| 0 <= q < prefix.len() && #[trigger] is_setting_issue(prefix[q], setting, issue);
                            assert(next[q] == prefix[q]);
                        }
                    }
                },
            }
            proof {
                if present && !has_setting_issue(prefix, setting, issue) {
                    assert(is_setting_issue(next[j as int], setting, issue));
                }
                if has_setting_issue(prefix, setting, issue) {
                    let q = choose|q: int| 0 <= q < prefix.len() && #[trigger] is_setting_issue(prefix[q], setting, issue);
                    assert(next[q] == prefix[q]);
                }
            }
            j = j + 1;
        }
        assert(ws.take(warnings@.len() as int) =~= ws);
        let ghost prev = platform_warning_views(out@);
        if present {
            let w = CargoPlatformWarning::InvalidConfigSetting { setting, issue, count: total };
            out.push(w);
            assert(platform_warning_views(out@) =~= prev.push(w@));
        }
        assert(platform_warning_views(out@) =~= kept_warnings(ws) + totals_upto(ws, r + 1));
        r = r + 1;
    }
    out
}

fn warning_key_of(w: &CargoPlatformWarning) -> (r: String)
    ensures
        r@ == warning_key(w@),
{
    let mut out: Vec<char> = Vec::new();
    let (v, s, i, c): (u32, u32, u32, usize) = match w {
        CargoPlatformWarning::MissingConfig { .. } => (0, 0, 0, 0),
        CargoPlatformWarning::MalformedConfig { .. } => (1, 0, 0, 0),
        CargoPlatformWarning::InvalidUtf8Config { .. } => (2, 0, 0, 0),
        CargoPlatformWarning::SymlinkedConfig { .. } => (3, 0, 0, 0),
        CargoPlatformWarning::InvalidTargetIdentifier { .. } => (4, 0, 0, 0),
        CargoPlatformWarning::DuplicateTargetSetting { count, .. } => (5, 0, 0, *count),
        CargoPlatformWarning::InvalidConfigSetting { setting, issue, count } => (
            6,
            setting_code(*setting),
            issue_code(*issue),
            *count,
        ),
        CargoPlatformWarning::LimitExceeded { .. } => (7, 0, 0, 0),
        CargoPlatformWarning::UnsupportedConfigFile { .. } => (8, 0, 0, 0),
        CargoPlatformWarning::WallClock { .. } => (9, 0, 0, 0),
    };
    push_index(&mut out, v);
    push_index(&mut out, s);
    push_index(&mut out, i);
    push_digits(&mut out, c as u64, 16);
    match w {
        CargoPlatformWarning::MissingConfig { path } => push_text_key(&mut out, path.as_str()),
        CargoPlatformWarning::MalformedConfig { path, .. } => push_text_key(&mut out, path.as_str()),
        CargoPlatformWarning::InvalidUtf8Config { path, .. } => push_text_key(&mut out, path.as_str()),
        CargoPlatformWarning::SymlinkedConfig { path } => push_text_key(&mut out, path.as_str()),
        CargoPlatformWarning::InvalidTargetIdentifier { path, .. } => push_text_key(&mut out, path.as_str()),
        CargoPlatformWarning::DuplicateTargetSetting { key_display, .. } => push_text_key(
            &mut out,
            key_display.as_str(),
        ),
        CargoPlatformWarning::UnsupportedConfigFile { path, .. } => push_text_key(&mut out, path.as_str()),
        _ => push_text_key(&mut out, ""),
    }
    proof {
        reveal_strlit("");
    }
    assert(out@ =~= warning_key(w@));
    string_of(out.as_slice())
}

fn opt_eq(a: Option<usize>, b: Option<usize>) -> (r: bool)
    ensures
        r == (a == b),
{
    match (a, b) {
        (None, None) => true,
        (Some(x), Some(y)) => x == y,
        _ => false,
    }
}

/// Whether two warnings are equal.
pub fn warning_eq(a: &CargoPlatformWarning, b: &CargoPlatformWarning) -> (r: bool)
    ensures
        r == (a@ == b@),
{
    match (a, b) {
        (CargoPlatformWarning::MissingConfig { path: p }, CargoPlatformWarning::MissingConfig { path: q }) => str_eq(
            p.as_str(),
            q.as_str(),
        ),
        (
            CargoPlatformWarning::MalformedConfig { path: p1, reason: r1, line: l1, column: c1, content_hash: h1 },
            CargoPlatformWarning::MalformedConfig { path: p2, reason: r2, line: l2, column: c2, content_hash: h2 },
        ) => str_eq(p1.as_str(), p2.as_str()) && str_eq(r1.as_str(), r2.as_str()) && opt_eq(*l1, *l2) && opt_eq(
            *c1,
            *c2,
        ) && str_eq(h1.as_str(), h2.as_str()),
        (
            CargoPlatformWarning::InvalidUtf8Config { path: p1, content_hash: h1, byte_count: n1 },
            CargoPlatformWarning::InvalidUtf8Config { path: p2, content_hash: h2, byte_count: n2 },
        ) => str_eq(p1.as_str(), p2.as_str()) && str_eq(h1.as_str(), h2.as_str()) && *n1 == *n2,
        (CargoPlatformWarning::SymlinkedConfig { path: p }, CargoPlatformWarning::SymlinkedConfig { path: q }) =>
            str_eq(p.as_str(), q.as_str()),
        (
            CargoPlatformWarning::InvalidTargetIdentifier { path: p1, reason: r1 },
            CargoPlatformWarning::InvalidTargetIdentifier { path: p2, reason: r2 },
        ) => str_eq(p1.as_str(), p2.as_str()) && str_eq(r1.as_str(), r2.as_str()),
        (
            CargoPlatformWarning::DuplicateTargetSetting { key_display: k1, count: n1 },
            CargoPlatformWarning::DuplicateTargetSetting { key_display: k2, count: n2 },
        ) => str_eq(k1.as_str(), k2.as_str()) && *n1 == *n2,
        (
            CargoPlatformWarning::InvalidConfigSetting { setting: s1, issue: i1, count: n1 },
            CargoPlatformWarning::InvalidConfigSetting { setting: s2, issue: i2, count: n2 },
        ) => *s1 == *s2 && *i1 == *i2 && *n1 == *n2,
        (CargoPlatformWarning::LimitExceeded { limit: l1 }, CargoPlatformWarning::LimitExceeded { limit: l2 }) =>
            *l1 == *l2,
        (
            CargoPlatformWarning::UnsupportedConfigFile { path: p1, reason: r1 },
            CargoPlatformWarning::UnsupportedConfigFile { path: p2, reason: r2 },
        ) => str_eq(p1.as_str(), p2.as_str()) && str_eq(r1.as_str(), r2.as_str()),
        (
            CargoPlatformWarning::WallClock { max_millis: m1, observed_millis: o1 },
            CargoPlatformWarning::WallClock { max_millis: m2, observed_millis: o2 },
        ) => *m1 == *m2 && *o1 == *o2,
        _ => false,
    }
}

/// Normalizes warnings in place: invalid-setting warnings aggregated per
/// (setting, issue), all sorted stably by (variant, setting, issue, count,
/// path or key), and adjacent duplicates removed.
pub fn sort_dedup_warnings(warnings: &mut Vec<CargoPlatformWarning>)
    ensures
        platform_warning_views(final(warnings)@) == normalized_warnings(platform_warning_views(old(warnings)@)),
{
    let r = normalized_warnings_of(warnings);
    *warnings = r;
}

/// The normalized form of `warnings` (see [`sort_dedup_warnings`]).
fn normalized_warnings_of(warnings: &Vec<CargoPlatformWarning>) -> (r: Vec<CargoPlatformWarning>)
    ensures
        platform_warning_views(r@) == normalized_warnings(platform_warning_views(warnings@)),
{
    let agg = aggregate_invalid_config_settings(warnings);
    let ghost a = platform_warning_views(agg@);
    let mut keys: Vec<String> = Vec::new();
    let mut k: usize = 0;
    while k < agg.len()
        invariant
            k <= agg@.len(),
            a == platform_warning_views(agg@),
            keys@.len() == k,
            forall|j: int| 0 <= j < k ==> #[trigger] keys@[j]@ == warning_key(a[j]),
        decreases agg@.len() - k,
    {
        keys.push(warning_key_of(&agg[k]));
        k = k + 1;
    }
    assert(views(keys@) =~= a.map_values(|w: PlatformWarningV| warning_key(w)));
    let ghost items = agg@;
    let sorted = stable_sort_by_text(agg, keys);
    let ghost sv = platform_warning_views(sorted@);
    let ghost idx = sorted_by_key(text_keys(a.map_values(|w: PlatformWarningV| warning_key(w))), a.len() as int);
    assert forall|q: int| 0 <= q < sv.len() implies sv[q] == a[idx[q]] by {
        assert(0 <= idx[q] < a.len());
        assert(sorted@[q] == items[idx[q]]);
    }
    assert(sv =~= sorted_by_key(text_keys(a.map_values(|w: PlatformWarningV| warning_key(w))), a.len() as int).map_values(
        |j: int| a[j],
    ));
    let mut out: Vec<CargoPlatformWarning> = Vec::new();
    let mut i: usize = 0;
    while i < sorted.len()
        invariant
            i <= sorted@.len(),
            sv == platform_warning_views(sorted@),
            platform_warning_views(out@) == dedup_adjacent(sv.take(i as int)),
        decreases sorted@.len() - i,
    {
        assert(sv.take(i + 1).drop_last() =~= sv.take(i as int));
        let ghost prev = platform_warning_views(out@);
        if i > 0 && warning_eq(&sorted[i], &sorted[i - 1]) {
            assert(sv.take(i + 1)[i as int] == sv.take(i + 1)[i - 1]);
        } else {
            out.push(copy_platform_warning(&sorted[i]));
            assert(platform_warning_views(out@) =~= prev.push(sv[i as int]));
        }
        i = i + 1;
    }
    assert(sv.take(sorted@.len() as int) =~= sv);
    out
}

} // verus!
