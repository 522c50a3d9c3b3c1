//! Lexicographic order on strings and sorted, duplicate-free string lists.
//!
//! Comparing character sequences code point by code point gives the same
//! order as comparing their UTF-8 encodings byte by byte, which is the order
//! of `str` comparison.

use vstd::prelude::*;

use crate::text::{chars_of, str_eq};

verus! {

/// Strict lexicographic order on character sequences (by code point).
pub open spec fn char_lex_lt(a: Seq<char>, b: Seq<char>) -> bool
    decreases a.len(),
{
    if a.len() == 0 {
        b.len() > 0
    } else if b.len() == 0 {
        false
    } else if a[0] != b[0] {
        a[0] < b[0]
    } else {
        char_lex_lt(a.drop_first(), b.drop_first())
    }
}

/// The order is irreflexive.
pub proof fn lemma_char_lex_irreflexive(a: Seq<char>)
    ensures
        !char_lex_lt(a, a),
    decreases a.len(),
{
    if a.len() > 0 {
        lemma_char_lex_irreflexive(a.drop_first());
    }
}

/// The order is transitive.
pub proof fn lemma_char_lex_transitive(a: Seq<char>, b: Seq<char>, c: Seq<char>)
    requires
        char_lex_lt(a, b),
        char_lex_lt(b, c),
    ensures
        char_lex_lt(a, c),
    decreases a.len(),
{
    if a.len() > 0 && b.len() > 0 && c.len() > 0 && a[0] == b[0] && b[0] == c[0] {
        lemma_char_lex_transitive(a.drop_first(), b.drop_first(), c.drop_first());
    }
}

/// Two different sequences are ordered one way or the other.
pub proof fn lemma_char_lex_total(a: Seq<char>, b: Seq<char>)
    requires
        a != b,
    ensures
        char_lex_lt(a, b) || char_lex_lt(b, a),
    decreases a.len(),
{
    if a.len() > 0 && b.len() > 0 && a[0] == b[0] {
        if a.drop_first() == b.drop_first() {
            assert(a =~= seq![a[0]] + a.drop_first());
            assert(b =~= seq![b[0]] + b.drop_first());
        }
        lemma_char_lex_total(a.drop_first(), b.drop_first());
    } else if a.len() > 0 && b.len() > 0 {
    } else if a.len() == 0 && b.len() == 0 {
        assert(a =~= b);
    }
}

/// At most one of the two strict orders holds.
pub proof fn lemma_char_lex_asymmetric(a: Seq<char>, b: Seq<char>)
    requires
        char_lex_lt(a, b),
    ensures
        !char_lex_lt(b, a),
{
    if char_lex_lt(b, a) {
        lemma_char_lex_transitive(a, b, a);
        lemma_char_lex_irreflexive(a);
    }
}

/// Whether `a` sorts strictly before `b` character by character.
pub fn chars_lt(a: &[char], b: &[char]) -> (r: bool)
    ensures
        r == char_lex_lt(a@, b@),
{
    let mut k: usize = 0;
    assert(a@.skip(0) =~= a@);
    assert(b@.skip(0) =~= b@);
    while k < a.len() && k < b.len() && a[k] == b[k]
        invariant
            k <= a@.len(),
            k <= b@.len(),
            char_lex_lt(a@.skip(k as int), b@.skip(k as int)) == char_lex_lt(a@, b@),
        decreases a@.len() - k,
    {
        assert(a@.skip(k as int).drop_first() =~= a@.skip(k + 1));
        assert(b@.skip(k as int).drop_first() =~= b@.skip(k + 1));
        k += 1;
    }
    if k == a.len() {
        k < b.len()
    } else if k == b.len() {
        false
    } else {
        a[k] < b[k]
    }
}

/// Whether `a` sorts strictly before `b`.
pub fn str_lt(a: &str, b: &str) -> (r: bool)
    ensures
        r == char_lex_lt(a@, b@),
{
    let x = chars_of(a);
    let y = chars_of(b);
    chars_lt(x.as_slice(), y.as_slice())
}

/// The character sequences of a list of strings.
pub open spec fn views(v: Seq<String>) -> Seq<Seq<char>> {
    v.map_values(|s: String| s@)
}

/// Strictly increasing: sorted with no duplicates.
pub open spec fn strictly_sorted(s: Seq<Seq<char>>) -> bool {
    forall|i: int, j: int| 0 <= i < j < s.len() ==> char_lex_lt(#[trigger] s[i], #[trigger] s[j])
}

/// The sorted, duplicate-free list of the strings in `v`.
pub open spec fn is_sorted_dedup_of(r: Seq<Seq<char>>, v: Seq<Seq<char>>) -> bool {
    &&& strictly_sorted(r)
    &&& forall|x: Seq<char>| r.contains(x) <==> v.contains(x)
}

/// The sorted, duplicate-free list of the strings in `v`.
pub open spec fn sorted_dedup(v: Seq<Seq<char>>) -> Seq<Seq<char>> {
    choose|r: Seq<Seq<char>>| is_sorted_dedup_of(r, v)
}

/// Sorts `v` and removes duplicates (what `sort` followed by `dedup` gives).
pub fn sort_dedup_strings(v: Vec<String>) -> (r: Vec<String>)
    ensures
        is_sorted_dedup_of(views(r@), views(v@)),
        views(r@) == sorted_dedup(views(v@)),
{
    let mut out: Vec<String> = Vec::new();
    let mut i: usize = 0;
    while i < v.len()
        invariant
            i <= v@.len(),
            strictly_sorted(views(out@)),
            forall|x: Seq<char>|
                views(out@).contains(x) <==> views(v@.take(i as int)).contains(x),
        decreases v@.len() - i,
    {
        let s = v[i].as_str();
        let mut j: usize = 0;
        while j < out.len() && str_lt(out[j].as_str(), s)
            invariant
                j <= out@.len(),
                i < v@.len(),
                s@ == v@[i as int]@,
                forall|k: int| 0 <= k < j ==> char_lex_lt(#[trigger] out@[k]@, s@),
            decreases out@.len() - j,
        {
            j += 1;
        }
        let ghost old_out = views(out@);
        let ghost vi = views(v@.take(i + 1));
        proof {
            assert(views(v@.take(i + 1)) =~= views(v@.take(i as int)).push(s@));
        }
        if j < out.len() && str_eq(out[j].as_str(), s) {
            proof {
                assert forall|x: Seq<char>| views(out@).contains(x) <==> vi.contains(x) by {
                    if x == s@ {
                        assert(views(out@)[j as int] == x);
                    }
                    if views(v@.take(i as int)).contains(x) {
                        let w = choose|w: int| 0 <= w < views(v@.take(i as int)).len() && views(v@.take(i as int))[w] == x;
                        assert(vi[w] == x);
                    }
                }
            }
        } else {
            proof {
                assert forall|k: int| j <= k < out@.len() implies char_lex_lt(s@, #[trigger] out@[k]@) by {
                    if j < out@.len() {
                        assert(!char_lex_lt(out@[j as int]@, s@));
                        assert(out@[j as int]@ != s@);
                        lemma_char_lex_total(out@[j as int]@, s@);
                        if k > j {
                            assert(char_lex_lt(old_out[j as int], old_out[k]));
                            lemma_char_lex_transitive(s@, out@[j as int]@, out@[k]@);
                        }
                    }
                }
            }
            out.insert(j, v[i].clone());
            proof {
                let nw = views(out@);
                assert(nw =~= old_out.take(j as int) + seq![s@] + old_out.skip(j as int));
                assert(nw.len() == old_out.len() + 1);
                assert forall|q: int| 0 <= q < j implies nw[q] == old_out[q] by {}
                assert forall|q: int| j < q < nw.len() implies nw[q] == old_out[q - 1] by {
                    assert(nw[q] == old_out.skip(j as int)[q - j - 1]);
                }
                assert forall|a: int, b: int| 0 <= a < b < nw.len() implies char_lex_lt(
                    #[trigger] nw[a],
                    #[trigger] nw[b],
                ) by {
                    if b < j {
                        assert(nw[a] == old_out[a]);
                        assert(nw[b] == old_out[b]);
                    } else if a < j && b == j {
                    } else if a < j && b > j {
                        assert(nw[a] == old_out[a]);
                        assert(nw[b] == old_out[b - 1]);
                    } else if a == j {
                        assert(nw[b] == old_out[b - 1]);
                    } else {
                        assert(nw[a] == old_out[a - 1]);
                        assert(nw[b] == old_out[b - 1]);
                    }
                }
                let prev = views(v@.take(i as int));
                assert forall|q: int| 0 <= q < i implies vi[q] == prev[q] by {}
                assert(vi[i as int] == s@);
                assert forall|x: Seq<char>| nw.contains(x) <==> vi.contains(x) by {
                    if nw.contains(x) {
                        let w = choose|w: int| 0 <= w < nw.len() && nw[w] == x;
                        if w == j {
                            assert(vi[i as int] == x);
                        } else {
                            let u = if w < j { w } else { w - 1 };
                            assert(old_out[u] == x);
                            assert(old_out.contains(x));
                            assert(prev.contains(x));
                            let t = choose|t: int| 0 <= t < prev.len() && prev[t] == x;
                            assert(vi[t] == x);
                        }
                    }
                    if vi.contains(x) {
                        let w = choose|w: int| 0 <= w < vi.len() && vi[w] == x;
                        if w < i {
                            assert(prev[w] == x);
                            assert(prev.contains(x));
                            assert(old_out.contains(x));
                            let u = choose|u: int| 0 <= u < old_out.len() && old_out[u] == x;
                            if u < j {
                                assert(nw[u] == x);
                            } else {
                                assert(nw[u + 1] == x);
                            }
                        } else {
                            assert(nw[j as int] == x);
                        }
                    }
                }
            }
        }
        i += 1;
    }
    assert(v@.take(v@.len() as int) =~= v@);
    proof {
        lemma_sorted_dedup_unique(views(out@), sorted_dedup(views(v@)), views(v@));
    }
    out
}

/// Two strictly sorted sequences with the same elements are equal.
pub proof fn lemma_strictly_sorted_same_elements(a: Seq<Seq<char>>, b: Seq<Seq<char>>)
    requires
        strictly_sorted(a),
        strictly_sorted(b),
        forall|x: Seq<char>| a.contains(x) <==> b.contains(x),
    ensures
        a == b,
    decreases a.len(),
{
    if a.len() == 0 {
        if b.len() > 0 {
            assert(b.contains(b[0]));
        }
        assert(a =~= b);
    } else {
        assert(a.contains(a[0]));
        assert(b.contains(a[0]));
        let j = choose|j: int| 0 <= j < b.len() && b[j] == a[0];
        assert(b.contains(b[0]));
        assert(a.contains(b[0]));
        let i = choose|i: int| 0 <= i < a.len() && a[i] == b[0];
        if i > 0 && j > 0 {
            assert(char_lex_lt(a[0], a[i]));
            assert(char_lex_lt(b[0], b[j]));
            lemma_char_lex_asymmetric(a[0], b[0]);
        }
        if i > 0 && j == 0 {
            assert(char_lex_lt(a[0], a[i]));
            lemma_char_lex_irreflexive(a[0]);
        }
        if j > 0 && i == 0 {
            assert(char_lex_lt(b[0], b[j]));
            lemma_char_lex_irreflexive(b[0]);
        }
        assert(a[0] == b[0]);
        let ta = a.drop_first();
        let tb = b.drop_first();
        assert forall|x: Seq<char>| ta.contains(x) <==> tb.contains(x) by {
            if ta.contains(x) {
                let k = choose|k: int| 0 <= k < ta.len() && ta[k] == x;
                assert(a[k + 1] == x);
                assert(char_lex_lt(a[0], x));
                lemma_char_lex_irreflexive(x);
                assert(b.contains(x));
                let m = choose|m: int| 0 <= m < b.len() && b[m] == x;
                assert(m != 0);
                assert(tb[m - 1] == x);
            }
            if tb.contains(x) {
                let k = choose|k: int| 0 <= k < tb.len() && tb[k] == x;
                assert(b[k + 1] == x);
                assert(char_lex_lt(b[0], x));
                lemma_char_lex_irreflexive(x);
                assert(a.contains(x));
                let m = choose|m: int| 0 <= m < a.len() && a[m] == x;
                assert(m != 0);
                assert(ta[m - 1] == x);
            }
        }
        assert forall|p: int, q: int| 0 <= p < q < ta.len() implies char_lex_lt(#[trigger] ta[p], #[trigger] ta[q]) by {
            assert(ta[p] == a[p + 1]);
            assert(ta[q] == a[q + 1]);
        }
        assert forall|p: int, q: int| 0 <= p < q < tb.len() implies char_lex_lt(#[trigger] tb[p], #[trigger] tb[q]) by {
            assert(tb[p] == b[p + 1]);
            assert(tb[q] == b[q + 1]);
        }
        lemma_strictly_sorted_same_elements(ta, tb);
        assert(a =~= seq![a[0]] + ta);
        assert(b =~= seq![b[0]] + tb);
    }
}

/// The sorted, duplicate-free list of a collection of strings is unique:
/// it does not depend on how, or in which order, it was computed.
pub proof fn lemma_sorted_dedup_unique(r1: Seq<Seq<char>>, r2: Seq<Seq<char>>, v: Seq<Seq<char>>)
    requires
        is_sorted_dedup_of(r1, v),
        is_sorted_dedup_of(r2, v),
    ensures
        r1 == r2,
{
    lemma_strictly_sorted_same_elements(r1, r2);
}

/// A sorted, duplicate-free list of `v` is `sorted_dedup(v)`.
pub proof fn lemma_sorted_dedup_is(r: Seq<Seq<char>>, v: Seq<Seq<char>>)
    requires
        is_sorted_dedup_of(r, v),
    ensures
        sorted_dedup(v) == r,
{
    lemma_sorted_dedup_unique(sorted_dedup(v), r, v);
}
// ---------------------------------------------------------------------------
// Stable sorting by a composite key
// ---------------------------------------------------------------------------

/// A composite sort key: two strings, a rank, and an optional string.
pub type SortKeyV = (Seq<char>, Seq<char>, int, Option<Seq<char>>);

/// Order on optional strings: `None` first, then by the strings.
pub open spec fn opt_lex_lt(a: Option<Seq<char>>, b: Option<Seq<char>>) -> bool {
    match (a, b) {
        (None, Some(_)) => true,
        (Some(x), Some(y)) => char_lex_lt(x, y),
        _ => false,
    }
}

/// Lexicographic order on composite keys.
pub open spec fn key_lt(a: SortKeyV, b: SortKeyV) -> bool {
    ||| char_lex_lt(a.0, b.0)
    ||| a.0 == b.0 && char_lex_lt(a.1, b.1)
    ||| a.0 == b.0 && a.1 == b.1 && a.2 < b.2
    ||| a.0 == b.0 && a.1 == b.1 && a.2 == b.2 && opt_lex_lt(a.3, b.3)
}

/// Stable insertion of index `x` into `s`, after every entry whose key is
/// not greater.
pub open spec fn ins_key(keys: Seq<SortKeyV>, s: Seq<int>, x: int) -> Seq<int>
    decreases s.len(),
{
    if s.len() == 0 {
        seq![x]
    } else if key_lt(keys[x], keys[s.last()]) {
        ins_key(keys, s.drop_last(), x).push(s.last())
    } else {
        s.push(x)
    }
}

/// Indices `0..n` in stable key order.
pub open spec fn sorted_by_key(keys: Seq<SortKeyV>, n: int) -> Seq<int>
    decreases n,
{
    if n <= 0 {
        seq![]
    } else {
        ins_key(keys, sorted_by_key(keys, n - 1), n - 1)
    }
}

proof fn lemma_ins_key_at(keys: Seq<SortKeyV>, s: Seq<int>, x: int, j: int)
    requires
        0 <= j <= s.len(),
        forall|k: int| j <= k < s.len() ==> key_lt(keys[x], keys[#[trigger] s[k]]),
        j > 0 ==> !key_lt(keys[x], keys[s[j - 1]]),
    ensures
        ins_key(keys, s, x) == s.take(j) + seq![x] + s.skip(j),
    decreases s.len(),
{
    if s.len() == 0 {
        assert(s.take(j) + seq![x] + s.skip(j) =~= seq![x]);
    } else if j == s.len() {
        assert(s.take(j) + seq![x] + s.skip(j) =~= s.push(x));
    } else {
        lemma_ins_key_at(keys, s.drop_last(), x, j);
        assert(s.take(j) + seq![x] + s.skip(j) =~= (s.drop_last().take(j) + seq![x]
            + s.drop_last().skip(j)).push(s.last()));
    }
}

/// An executable composite sort key.
pub struct SortKey {
    /// First string.
    pub first: String,
    /// Second string.
    pub second: String,
    /// Rank.
    pub rank: u8,
    /// Optional last string.
    pub last: Option<String>,
}

/// View of a sort key.
pub open spec fn sort_key_view(k: SortKey) -> SortKeyV {
    (
        k.first@,
        k.second@,
        k.rank as int,
        match k.last {
            Some(s) => Some(s@),
            None => None,
        },
    )
}

/// Views of sort keys.
pub open spec fn sort_key_views(v: Seq<SortKey>) -> Seq<SortKeyV> {
    v.map_values(|k: SortKey| sort_key_view(k))
}

/// Whether `a` sorts strictly before `b`.
fn sort_key_lt(a: &SortKey, b: &SortKey) -> (r: bool)
    ensures
        r == key_lt(sort_key_view(*a), sort_key_view(*b)),
{
    if str_lt(a.first.as_str(), b.first.as_str()) {
        return true;
    }
    if !str_eq(a.first.as_str(), b.first.as_str()) {
        proof {
            if key_lt(sort_key_view(*a), sort_key_view(*b)) {
                assert(a.first@ == b.first@);
            }
        }
        return false;
    }
    if str_lt(a.second.as_str(), b.second.as_str()) {
        return true;
    }
    if !str_eq(a.second.as_str(), b.second.as_str()) {
        return false;
    }
    if a.rank < b.rank {
        return true;
    }
    if a.rank != b.rank {
        return false;
    }
    match (&a.last, &b.last) {
        (None, Some(_)) => true,
        (Some(x), Some(y)) => str_lt(x.as_str(), y.as_str()),
        _ => false,
    }
}

/// `items` reordered stably by their keys.
pub fn stable_sort_by_key<T>(items: Vec<T>, keys: Vec<SortKey>) -> (r: Vec<T>)
    requires
        items@.len() == keys@.len(),
    ensures
        r@ == sorted_by_key(sort_key_views(keys@), keys@.len() as int).map_values(|i: int| items@[i]),
        sorted_by_key(sort_key_views(keys@), keys@.len() as int).len() == keys@.len(),
        forall|q: int|
            0 <= q < keys@.len() ==> 0 <= #[trigger] sorted_by_key(sort_key_views(keys@), keys@.len() as int)[q]
                < keys@.len(),
{
    let ghost kv = sort_key_views(keys@);
    let ghost orig = items@;
    let ghost n = keys@.len() as int;
    let total = keys.len();
    let mut items = items;
    let mut keys = keys;
    let mut out: Vec<T> = Vec::new();
    let mut out_keys: Vec<SortKey> = Vec::new();
    let mut i: usize = 0;
    while items.len() > 0
        invariant
            items@.len() == keys@.len(),
            items@.len() + i == n,
            n == total,
            n == orig.len(),
            items@ == orig.skip(i as int),
            sort_key_views(keys@) == kv.skip(i as int),
            kv.len() == n,
            out@.len() == i,
            out_keys@.len() == i,
            sorted_by_key(kv, i as int).len() == i,
            forall|q: int| 0 <= q < i ==> 0 <= #[trigger] sorted_by_key(kv, i as int)[q] < i,
            out@ == sorted_by_key(kv, i as int).map_values(|j: int| orig[j]),
            sort_key_views(out_keys@) == sorted_by_key(kv, i as int).map_values(|j: int| kv[j]),
        decreases items@.len(),
    {
        let ghost kb = keys@;
        let item = items.remove(0);
        let key = keys.remove(0);
        assert(sort_key_view(key) == kv[i as int]) by {
            assert(sort_key_views(kb)[0] == kv.skip(i as int)[0]);
        }
        let ghost s = sorted_by_key(kv, i as int);
        let mut j = out_keys.len();
        while j > 0 && sort_key_lt(&key, &out_keys[j - 1])
            invariant
                j <= out_keys@.len(),
                out_keys@.len() == i,
                sort_key_views(out_keys@) == s.map_values(|q: int| kv[q]),
                s.len() == i,
                sort_key_view(key) == kv[i as int],
                forall|k: int| j <= k < i ==> key_lt(kv[i as int], kv[#[trigger] s[k]]),
            decreases j,
        {
            assert(sort_key_view(out_keys@[j - 1]) == kv[s[j - 1]]) by {
                assert(sort_key_views(out_keys@)[j - 1] == s.map_values(|q: int| kv[q])[j - 1]);
            }
            j -= 1;
        }
        proof {
            if j > 0 {
                assert(sort_key_views(out_keys@)[j - 1] == s.map_values(|q: int| kv[q])[j - 1]);
            }
            lemma_ins_key_at(kv, s, i as int, j as int);
        }
        let ghost ob = out@;
        let ghost okb = out_keys@;
        out.insert(j, item);
        out_keys.insert(j, key);
        proof {
            let s2 = sorted_by_key(kv, i + 1);
            assert(s2 == s.take(j as int) + seq![i as int] + s.skip(j as int));
            assert(out@ =~= s2.map_values(|q: int| orig[q])) by {
                assert(orig[i as int] == item);
            }
            assert(out_keys@ =~= okb.insert(j as int, key));
            assert forall|q: int| 0 <= q < i + 1 implies sort_key_views(out_keys@)[q] == s2.map_values(
                |p: int| kv[p],
            )[q] by {
                if q < j {
                    assert(out_keys@[q] == okb[q]);
                    assert(sort_key_views(okb)[q] == s.map_values(|p: int| kv[p])[q]);
                } else if q > j {
                    assert(out_keys@[q] == okb[q - 1]);
                    assert(sort_key_views(okb)[q - 1] == s.map_values(|p: int| kv[p])[q - 1]);
                }
            }
            assert(sort_key_views(out_keys@) =~= s2.map_values(|q: int| kv[q]));
            assert forall|q: int| 0 <= q < i + 1 implies 0 <= #[trigger] s2[q] < i + 1 by {
                if q < j {
                    assert(s2[q] == s[q]);
                } else if q > j {
                    assert(s2[q] == s[q - 1]);
                }
            }
            assert(items@ =~= orig.skip(i + 1));
            assert(keys@ =~= kb.drop_first());
            assert forall|q: int| 0 <= q < keys@.len() implies sort_key_views(keys@)[q] == kv.skip(i + 1)[q] by {
                assert(keys@[q] == kb[q + 1]);
                assert(sort_key_views(kb)[q + 1] == kv.skip(i as int)[q + 1]);
            }
            assert(sort_key_views(keys@) =~= kv.skip(i + 1));
        }
        i += 1;
    }
    out
}

/// Whether `item` is the input item at some position whose key is `key`.
pub open spec fn keyed_from<T>(items: Seq<T>, keys: Seq<String>, item: T, key: Seq<char>) -> bool {
    exists|j: int| 0 <= j < items.len() && items[j] == item && keys[j]@ == key
}

/// Sorts `items` by their string keys and keeps one item per key (the
/// first one met), as `sort` followed by `dedup` does when equal keys mean
/// equal items.
pub fn sort_dedup_keyed<T>(items: Vec<T>, keys: Vec<String>) -> (r: Vec<T>)
    requires
        items@.len() == keys@.len(),
    ensures
        r@.len() == sorted_dedup(views(keys@)).len(),
        forall|k: int| 0 <= k < r@.len() ==> keyed_from(items@, keys@, #[trigger] r@[k], sorted_dedup(views(keys@))[k]),
        is_sorted_dedup_of(sorted_dedup(views(keys@)), views(keys@)),
{
    let ghost orig = items@;
    let mut rest = items;
    let mut out: Vec<T> = Vec::new();
    let mut out_keys: Vec<String> = Vec::new();
    let mut i: usize = 0;
    while i < keys.len()
        invariant
            i <= keys@.len(),
            orig.len() == keys@.len(),
            rest@ == orig.skip(i as int),
            out@.len() == out_keys@.len(),
            strictly_sorted(views(out_keys@)),
            forall|x: Seq<char>| views(out_keys@).contains(x) <==> views(keys@.take(i as int)).contains(x),
            forall|q: int|
                0 <= q < out@.len() ==> exists|j: int|
                    0 <= j < i && orig[j] == #[trigger] out@[q] && keys@[j]@ == out_keys@[q]@,
        decreases keys@.len() - i,
    {
        assert(rest@.len() > 0) by {
            assert(rest@.len() == orig.len() - i);
        }
        let item = rest.remove(0);
        assert(item == orig[i as int]);
        assert(rest@ =~= orig.skip(i + 1));
        let s = keys[i].as_str();
        let mut j: usize = 0;
        while j < out_keys.len() && str_lt(out_keys[j].as_str(), s)
            invariant
                j <= out_keys@.len(),
                i < keys@.len(),
                s@ == keys@[i as int]@,
                forall|k: int| 0 <= k < j ==> char_lex_lt(#[trigger] out_keys@[k]@, s@),
            decreases out_keys@.len() - j,
        {
            j += 1;
        }
        let ghost old_out = views(out_keys@);
        let ghost old_items = out@;
        let ghost vi = views(keys@.take(i + 1));
        proof {
            assert(views(keys@.take(i + 1)) =~= views(keys@.take(i as int)).push(s@));
        }
        if j < out_keys.len() && str_eq(out_keys[j].as_str(), s) {
            proof {
                assert forall|x: Seq<char>| views(out_keys@).contains(x) <==> vi.contains(x) by {
                    if x == s@ {
                        assert(views(out_keys@)[j as int] == x);
                    }
                    if views(keys@.take(i as int)).contains(x) {
                        let w = choose|w: int|
                            0 <= w < views(keys@.take(i as int)).len() && views(keys@.take(i as int))[w] == x;
                        assert(vi[w] == x);
                    }
                }
            }
        } else {
            proof {
                assert forall|k: int| j <= k < out_keys@.len() implies char_lex_lt(s@, #[trigger] out_keys@[k]@) by {
                    if j < out_keys@.len() {
                        assert(!char_lex_lt(out_keys@[j as int]@, s@));
                        assert(out_keys@[j as int]@ != s@);
                        lemma_char_lex_total(out_keys@[j as int]@, s@);
                        if k > j {
                            assert(char_lex_lt(old_out[j as int], old_out[k]));
                            lemma_char_lex_transitive(s@, out_keys@[j as int]@, out_keys@[k]@);
                        }
                    }
                }
            }
            out_keys.insert(j, keys[i].clone());
            out.insert(j, item);
            proof {
                let nw = views(out_keys@);
                assert(nw =~= old_out.take(j as int) + seq![s@] + old_out.skip(j as int));
                assert forall|q: int| 0 <= q < j implies nw[q] == old_out[q] by {}
                assert forall|q: int| j < q < nw.len() implies nw[q] == old_out[q - 1] by {
                    assert(nw[q] == old_out.skip(j as int)[q - j - 1]);
                }
                assert forall|a: int, b: int| 0 <= a < b < nw.len() implies char_lex_lt(
                    #[trigger] nw[a],
                    #[trigger] nw[b],
                ) by {
                    if b < j {
                        assert(nw[a] == old_out[a]);
                        assert(nw[b] == old_out[b]);
                    } else if a < j && b == j {
                    } else if a < j && b > j {
                        assert(nw[a] == old_out[a]);
                        assert(nw[b] == old_out[b - 1]);
                    } else if a == j {
                        assert(nw[b] == old_out[b - 1]);
                    } else {
                        assert(nw[a] == old_out[a - 1]);
                        assert(nw[b] == old_out[b - 1]);
                    }
                }
                let prev = views(keys@.take(i as int));
                assert forall|q: int| 0 <= q < i implies vi[q] == prev[q] by {}
                assert(vi[i as int] == s@);
                assert forall|x: Seq<char>| nw.contains(x) <==> vi.contains(x) by {
                    if nw.contains(x) {
                        let w = choose|w: int| 0 <= w < nw.len() && nw[w] == x;
                        if w == j {
                            assert(vi[i as int] == x);
                        } else {
                            let u = if w < j {
                                w
                            } else {
                                w - 1
                            };
                            assert(old_out[u] == x);
                            assert(old_out.contains(x));
                            assert(prev.contains(x));
                            let t = choose|t: int| 0 <= t < prev.len() && prev[t] == x;
                            assert(vi[t] == x);
                        }
                    }
                    if vi.contains(x) {
                        let w = choose|w: int| 0 <= w < vi.len() && vi[w] == x;
                        if w < i {
                            assert(prev[w] == x);
                            assert(prev.contains(x));
                            assert(old_out.contains(x));
                            let u = choose|u: int| 0 <= u < old_out.len() && old_out[u] == x;
                            if u < j {
                                assert(nw[u] == x);
                            } else {
                                assert(nw[u + 1] == x);
                            }
                        } else {
                            assert(nw[j as int] == x);
                        }
                    }
                }
                assert forall|q: int| 0 <= q < out@.len() implies exists|t: int|
                    0 <= t < i + 1 && orig[t] == #[trigger] out@[q] && keys@[t]@ == out_keys@[q]@ by {
                    if q < j {
                        assert(out@[q] == old_items[q]);
                        assert(nw[q] == old_out[q]);
                    } else if q == j {
                        assert(orig[i as int] == out@[q] && keys@[i as int]@ == out_keys@[q]@);
                    } else {
                        assert(out@[q] == old_items[q - 1]);
                        assert(nw[q] == old_out[q - 1]);
                    }
                }
            }
        }
        i += 1;
    }
    assert(keys@.take(keys@.len() as int) =~= keys@);
    proof {
        lemma_sorted_dedup_is(views(out_keys@), views(keys@));
        assert forall|k: int| 0 <= k < out@.len() implies keyed_from(
            orig,
            keys@,
            #[trigger] out@[k],
            sorted_dedup(views(keys@))[k],
        ) by {
            assert(views(out_keys@)[k] == out_keys@[k]@);
        }
    }
    out
}

} // verus!
