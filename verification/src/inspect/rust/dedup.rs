//! Deterministic ordering of per-file Rust evidence: usages and cfg
//! evidence are sorted stably by their identifying fields and adjacent
//! duplicates are dropped.

use vstd::prelude::*;

use super::types::{RustCfgEvidence, RustUsage, RustUsageKind};
use crate::inspect::npm::typescript::imports::LocV;
use crate::inspect::npm::typescript::keys::opt_u32_key;
use crate::order::{sorted_by_key, views};
use crate::sortkey::{
    dedup_adjacent,
    index_key, push_digits, push_index, push_text_key, push_texts_key, stable_sort_by_text, text_key, text_keys,
    texts_key,
};
use crate::text::{str_eq, string_of};

verus! {

/// View of a usage: crate, alias, path segments, kind, location.
pub type UsageV = (Seq<char>, Seq<char>, Seq<Seq<char>>, RustUsageKind, LocV);

/// View of a usage.
pub open spec fn usage_view(u: RustUsage) -> UsageV {
    (u.crate_name@, u.alias@, views(u.path_segments@), u.kind, u.source@)
}

/// Views of usages.
pub open spec fn usage_views(v: Seq<RustUsage>) -> Seq<UsageV> {
    v.map_values(|u: RustUsage| usage_view(u))
}

/// Index of a usage kind.
pub open spec fn usage_kind_index(k: RustUsageKind) -> int {
    match k {
        RustUsageKind::Use => 0,
        RustUsageKind::ExternCrate => 1,
        RustUsageKind::PathExpression => 2,
        RustUsageKind::PathType => 3,
        RustUsageKind::PathTrait => 4,
        RustUsageKind::PathMacro => 5,
    }
}

/// Identifying key of a usage: crate, alias, path segments, kind, then the
/// location's path, line and column (not its content hash).
pub open spec fn usage_key(u: UsageV) -> Seq<char> {
    text_key(u.0) + text_key(u.1) + texts_key(u.2) + index_key(usage_kind_index(u.3)) + text_key(u.4.0) + opt_u32_key(
        u.4.1,
    ) + opt_u32_key(u.4.2)
}

/// `s` without elements whose key equals their predecessor's (`dedup_by`
/// on the key).
pub open spec fn dedup_by_key<V>(s: Seq<V>, key: spec_fn(V) -> Seq<char>) -> Seq<V>
    decreases s.len(),
{
    if s.len() == 0 {
        seq![]
    } else if s.len() > 1 && key(s.last()) == key(s[s.len() - 2]) {
        dedup_by_key(s.drop_last(), key)
    } else {
        dedup_by_key(s.drop_last(), key).push(s.last())
    }
}

/// Usages sorted stably by key.
pub open spec fn sorted_usages_pre(u: Seq<UsageV>) -> Seq<UsageV> {
    sorted_by_key(text_keys(u.map_values(|x: UsageV| usage_key(x))), u.len() as int).map_values(|j: int| u[j])
}

/// Usages sorted stably by key with adjacent same-key usages dropped.
pub open spec fn sorted_usages(u: Seq<UsageV>) -> Seq<UsageV> {
    dedup_by_key(sorted_usages_pre(u), |x: UsageV| usage_key(x))
}

fn kind_code(k: RustUsageKind) -> (r: u32)
    ensures
        r as int == usage_kind_index(k),
{
    match k {
        RustUsageKind::Use => 0,
        RustUsageKind::ExternCrate => 1,
        RustUsageKind::PathExpression => 2,
        RustUsageKind::PathType => 3,
        RustUsageKind::PathTrait => 4,
        RustUsageKind::PathMacro => 5,
    }
}

fn push_opt_u32(out: &mut Vec<char>, o: Option<u32>)
    ensures
        final(out)@ == old(out)@ + opt_u32_key(o),
{
    let ghost before = out@;
    match o {
        None => {
            out.push('\u{0}');
            assert(out@ =~= before + seq!['\u{0}']);
        },
        Some(n) => {
            out.push('\u{1}');
            push_digits(out, n as u64, 8);
            assert(out@ =~= before + (seq!['\u{1}'] + crate::sortkey::digits_key(n as int, 8)));
        },
    }
}

fn usage_key_of(u: &RustUsage) -> (r: String)
    ensures
        r@ == usage_key(usage_view(*u)),
{
    let mut out: Vec<char> = Vec::new();
    push_text_key(&mut out, u.crate_name.as_str());
    push_text_key(&mut out, u.alias.as_str());
    push_texts_key(&mut out, &u.path_segments);
    push_index(&mut out, kind_code(u.kind));
    push_text_key(&mut out, u.source.path.as_str());
    push_opt_u32(&mut out, u.source.line);
    push_opt_u32(&mut out, u.source.column);
    assert(out@ =~= usage_key(usage_view(*u)));
    string_of(out.as_slice())
}

/// Sorts usages by crate, alias, path segments, kind and location (path,
/// line, column), keeping the first of adjacent usages that agree on these.
pub fn sort_and_dedup_usages(usages: &mut Vec<RustUsage>)
    ensures
        usage_views(final(usages)@) == sorted_usages(usage_views(old(usages)@)),
{
    let mut items: Vec<RustUsage> = Vec::new();
    std::mem::swap(&mut items, usages);
    let ghost u = usage_views(items@);
    assert(u == usage_views(old(usages)@));
    assert(usage_views(usages@) =~= Seq::<UsageV>::empty());
    let mut keys: Vec<String> = Vec::new();
    let mut k: usize = 0;
    while k < items.len()
        invariant
            k <= items@.len(),
            u == usage_views(items@),
            keys@.len() == k,
            forall|j: int| 0 <= j < k ==> #[trigger] keys@[j]@ == usage_key(u[j]),
        decreases items@.len() - k,
    {
        keys.push(usage_key_of(&items[k]));
        k = k + 1;
    }
    let ghost uk = u.map_values(|x: UsageV| usage_key(x));
    assert(views(keys@) =~= uk);
    let ghost orig = items@;
    let ghost idx = sorted_by_key(text_keys(uk), u.len() as int);
    let sorted = stable_sort_by_text(items, keys);
    let ghost sv = usage_views(sorted@);
    assert forall|i: int| 0 <= i < sv.len() implies sv[i] == u[idx[i]] by {
        assert(0 <= idx[i] < u.len());
        assert(sorted@[i] == orig[idx[i]]);
    }
    assert(sv =~= idx.map_values(|j: int| u[j]));
    assert(sv == sorted_usages_pre(u));
    let mut rest = sorted;
    let mut last_key: Option<String> = None;
    let mut i: usize = 0;
    let n = rest.len();
    while rest.len() > 0
        invariant
            rest@.len() + i == n,
            n == sv.len(),
            sv == sorted_usages_pre(u),
            u == usage_views(old(usages)@),
            usage_views(rest@) == sv.skip(i as int),
            usage_views(usages@) == dedup_by_key(sv.take(i as int), |x: UsageV| usage_key(x)),
            i == 0 <==> last_key is None,
            last_key matches Some(lk) ==> i > 0 && lk@ == usage_key(sv[i - 1]),
        decreases rest@.len(),
    {
        let ghost rb = rest@;
        let item = rest.remove(0);
        assert(usage_view(item) == sv[i as int]) by {
            assert(usage_views(rb)[0] == sv.skip(i as int)[0]);
        }
        assert forall|x: int| 0 <= x < rest@.len() implies usage_views(rest@)[x] == sv.skip(i + 1)[x] by {
            assert(rest@[x] == rb[x + 1]);
            assert(usage_views(rb)[x + 1] == sv.skip(i as int)[x + 1]);
        }
        assert(usage_views(rest@) =~= sv.skip(i + 1));
        assert(sv.take(i + 1).drop_last() =~= sv.take(i as int));
        let key = usage_key_of(&item);
        let dup = match &last_key {
            Some(lk) => str_eq(lk.as_str(), key.as_str()),
            None => false,
        };
        let ghost prev = usage_views(usages@);
        if !dup {
            usages.push(item);
            assert(usage_views(usages@) =~= prev.push(sv[i as int]));
        }
        proof {
            if dup {
                assert(sv.take(i + 1)[i as int] == sv[i as int]);
                assert(sv.take(i + 1)[i - 1] == sv[i - 1]);
            }
        }
        last_key = Some(key);
        i = i + 1;
    }
    assert(sv.take(n as int) =~= sv);
}

/// View of cfg evidence: path, predicate, whether `cfg_attr`, location.
pub type CfgV = (Seq<char>, Seq<char>, bool, Option<LocV>);

/// View of cfg evidence.
pub open spec fn cfg_view(c: RustCfgEvidence) -> CfgV {
    (
        c.path@,
        c.cfg_predicate@,
        c.is_cfg_attr,
        match c.source {
            Some(l) => Some(l@),
            None => None,
        },
    )
}

/// Views of cfg evidence.
pub open spec fn cfg_views(v: Seq<RustCfgEvidence>) -> Seq<CfgV> {
    v.map_values(|c: RustCfgEvidence| cfg_view(c))
}

/// Order key of cfg evidence: path, predicate, `cfg_attr` flag, then the
/// location's path, line and column when present.
pub open spec fn cfg_key(c: CfgV) -> Seq<char> {
    text_key(c.0) + text_key(c.1) + index_key(
        if c.2 {
            1
        } else {
            0
        },
    ) + match c.3 {
        None => seq!['\u{0}'],
        Some(l) => seq!['\u{1}'] + text_key(l.0) + opt_u32_key(l.1) + opt_u32_key(l.2),
    }
}

/// Cfg evidence sorted stably by key with adjacent duplicates dropped.
pub open spec fn sorted_cfg(c: Seq<CfgV>) -> Seq<CfgV> {
    dedup_adjacent(sorted_by_key(text_keys(c.map_values(|x: CfgV| cfg_key(x))), c.len() as int).map_values(|j: int| c[j]))
}

fn cfg_key_of(c: &RustCfgEvidence) -> (r: String)
    ensures
        r@ == cfg_key(cfg_view(*c)),
{
    let mut out: Vec<char> = Vec::new();
    push_text_key(&mut out, c.path.as_str());
    push_text_key(&mut out, c.cfg_predicate.as_str());
    push_index(&mut out, if c.is_cfg_attr { 1 } else { 0 });
    let ghost before = out@;
    match &c.source {
        None => out.push('\u{0}'),
        Some(l) => {
            out.push('\u{1}');
            push_text_key(&mut out, l.path.as_str());
            push_opt_u32(&mut out, l.line);
            push_opt_u32(&mut out, l.column);
            assert(out@ =~= before + (seq!['\u{1}'] + text_key(l.path@) + opt_u32_key(l.line) + opt_u32_key(l.column)));
        },
    }
    assert(out@ =~= cfg_key(cfg_view(*c)));
    string_of(out.as_slice())
}

fn cfg_eq(a: &RustCfgEvidence, b: &RustCfgEvidence) -> (r: bool)
    ensures
        r == (cfg_view(*a) == cfg_view(*b)),
{
    let sources = match (&a.source, &b.source) {
        (None, None) => true,
        (Some(x), Some(y)) => {
            let lines = match (x.line, y.line) {
                (None, None) => true,
                (Some(p), Some(q)) => p == q,
                _ => false,
            };
            let cols = match (x.column, y.column) {
                (None, None) => true,
                (Some(p), Some(q)) => p == q,
                _ => false,
            };
            str_eq(x.path.as_str(), y.path.as_str()) && lines && cols && str_eq(
                x.content_hash.as_str(),
                y.content_hash.as_str(),
            )
        },
        _ => false,
    };
    str_eq(a.path.as_str(), b.path.as_str()) && str_eq(a.cfg_predicate.as_str(), b.cfg_predicate.as_str())
        && a.is_cfg_attr == b.is_cfg_attr && sources
}

/// Sorts cfg evidence by path, predicate, `cfg_attr` flag and location
/// (path, line, column), dropping adjacent duplicates.
pub fn sort_and_dedup_cfg(evidence: &mut Vec<RustCfgEvidence>)
    ensures
        cfg_views(final(evidence)@) == sorted_cfg(cfg_views(old(evidence)@)),
{
    let mut items: Vec<RustCfgEvidence> = Vec::new();
    std::mem::swap(&mut items, evidence);
    let ghost u = cfg_views(items@);
    assert(u == cfg_views(old(evidence)@));
    assert(cfg_views(evidence@) =~= Seq::<CfgV>::empty());
    let mut keys: Vec<String> = Vec::new();
    let mut k: usize = 0;
    while k < items.len()
        invariant
            k <= items@.len(),
            u == cfg_views(items@),
            keys@.len() == k,
            forall|j: int| 0 <= j < k ==> #[trigger] keys@[j]@ == cfg_key(u[j]),
        decreases items@.len() - k,
    {
        keys.push(cfg_key_of(&items[k]));
        k = k + 1;
    }
    let ghost uk = u.map_values(|x: CfgV| cfg_key(x));
    assert(views(keys@) =~= uk);
    let ghost orig = items@;
    let ghost idx = sorted_by_key(text_keys(uk), u.len() as int);
    let sorted = stable_sort_by_text(items, keys);
    let ghost sv = cfg_views(sorted@);
    assert forall|i: int| 0 <= i < sv.len() implies sv[i] == u[idx[i]] by {
        assert(0 <= idx[i] < u.len());
        assert(sorted@[i] == orig[idx[i]]);
    }
    assert(sv =~= idx.map_values(|j: int| u[j]));
    let mut rest = sorted;
    let mut i: usize = 0;
    let n = rest.len();
    while rest.len() > 0
        invariant
            rest@.len() + i == n,
            n == sv.len(),
            sv =~= sorted_by_key(text_keys(u.map_values(|x: CfgV| cfg_key(x))), u.len() as int).map_values(|j: int| u[j]),
            u == cfg_views(old(evidence)@),
            cfg_views(rest@) == sv.skip(i as int),
            cfg_views(evidence@) == dedup_adjacent(sv.take(i as int)),
            i > 0 ==> evidence@.len() > 0 && cfg_view(evidence@.last()) == sv[i - 1],
        decreases rest@.len(),
    {
        let ghost rb = rest@;
        let item = rest.remove(0);
        assert(cfg_view(item) == sv[i as int]) by {
            assert(cfg_views(rb)[0] == sv.skip(i as int)[0]);
        }
        assert forall|x: int| 0 <= x < rest@.len() implies cfg_views(rest@)[x] == sv.skip(i + 1)[x] by {
            assert(rest@[x] == rb[x + 1]);
            assert(cfg_views(rb)[x + 1] == sv.skip(i as int)[x + 1]);
        }
        assert(cfg_views(rest@) =~= sv.skip(i + 1));
        assert(sv.take(i + 1).drop_last() =~= sv.take(i as int));
        let ghost prev = cfg_views(evidence@);
        let dup = i > 0 && cfg_eq(&item, &evidence[evidence.len() - 1]);
        if !dup {
            evidence.push(item);
            assert(cfg_views(evidence@) =~= prev.push(sv[i as int]));
        }
        proof {
            if dup {
                assert(sv.take(i + 1)[i as int] == sv.take(i + 1)[i - 1]);
            }
        }
        i = i + 1;
    }
    assert(sv.take(n as int) =~= sv);
}

} // verus!
