//! Deterministic framed hashing of accepted `(path, content)` inputs.
//!
//! Entries are ordered stably by path bytes, then each contributes a `u32`
//! LE path length, the path bytes, a `u64` LE content length, and the
//! content bytes. The hex SHA-256 of that message is the input hash.

use vstd::prelude::*;

use crate::hashing::{le32, le64, push_all, push_le32, push_le64, sha256_hex, spec_sha256_hex};

verus! {

/// Strict byte-lexicographic order (the order of `str`/`String` comparison).
pub open spec fn lex_lt(a: Seq<u8>, b: Seq<u8>) -> bool
    decreases a.len(),
{
    if a.len() == 0 {
        b.len() > 0
    } else if b.len() == 0 {
        false
    } else if a[0] != b[0] {
        a[0] < b[0]
    } else {
        lex_lt(a.drop_first(), b.drop_first())
    }
}

/// Whether `a` sorts strictly before `b` byte-lexicographically.
pub fn bytes_lt(a: &[u8], b: &[u8]) -> (r: bool)
    ensures
        r == lex_lt(a@, b@),
{
    let mut k: usize = 0;
    assert(a@.skip(0) =~= a@);
    assert(b@.skip(0) =~= b@);
    while k < a.len() && k < b.len() && a[k] == b[k]
        invariant
            k <= a@.len(),
            k <= b@.len(),
            lex_lt(a@.skip(k as int), b@.skip(k as int)) == lex_lt(a@, b@),
        decreases a@.len() - k,
    {
        assert(a@.skip(k as int).drop_first() =~= a@.skip(k + 1));
        assert(b@.skip(k as int).drop_first() =~= b@.skip(k + 1));
        k += 1;
    }
    if k == a.len() {
        k < b.len()
    } else if k == b.len() {
        false
    } else {
        a[k] < b[k]
    }
}

/// Stable insertion of index `x` into `s` (ordered by `keys`), after all
/// entries whose key is not greater.
pub open spec fn ins(keys: Seq<Seq<u8>>, s: Seq<int>, x: int) -> Seq<int>
    decreases s.len(),
{
    if s.len() == 0 {
        seq![x]
    } else if lex_lt(keys[x], keys[s.last()]) {
        ins(keys, s.drop_last(), x).push(s.last())
    } else {
        s.push(x)
    }
}

/// Indices `0..n` ordered stably by `keys` (insertion sort).
pub open spec fn sorted_order(keys: Seq<Seq<u8>>, n: int) -> Seq<int>
    decreases n,
{
    if n <= 0 {
        seq![]
    } else {
        ins(keys, sorted_order(keys, n - 1), n - 1)
    }
}

/// The framed message of entries taken in `order`.
pub open spec fn framed_entries(paths: Seq<Seq<u8>>, contents: Seq<Seq<u8>>, order: Seq<int>) -> Seq<u8>
    decreases order.len(),
{
    if order.len() == 0 {
        seq![]
    } else {
        let i = order.last();
        framed_entries(paths, contents, order.drop_last()) + le32(paths[i].len() as u32) + paths[i]
            + le64(contents[i].len() as u64) + contents[i]
    }
}

/// Path bytes of entries.
pub open spec fn entry_paths(entries: Seq<(String, Vec<u8>)>) -> Seq<Seq<u8>> {
    entries.map_values(|e: (String, Vec<u8>)| vstd::utf8::encode_utf8(e.0@))
}

/// Content bytes of entries.
pub open spec fn entry_contents(entries: Seq<(String, Vec<u8>)>) -> Seq<Seq<u8>> {
    entries.map_values(|e: (String, Vec<u8>)| e.1@)
}

/// `(path, content)` views of entries.
pub open spec fn entry_views(entries: Seq<(String, Vec<u8>)>) -> Seq<(Seq<char>, Seq<u8>)> {
    entries.map_values(|e: (String, Vec<u8>)| (e.0@, e.1@))
}

/// The framed input hash of `(path, content)` entries: entries ordered stably
/// by path bytes, each framed as `u32` LE path length, path bytes, `u64` LE
/// content length, content bytes, and the hex SHA-256 of the concatenation.
pub open spec fn framed_hash_of(v: Seq<(Seq<char>, Seq<u8>)>) -> Seq<char> {
    let keys = v.map_values(|e: (Seq<char>, Seq<u8>)| vstd::utf8::encode_utf8(e.0));
    let contents = v.map_values(|e: (Seq<char>, Seq<u8>)| e.1);
    spec_sha256_hex(framed_entries(keys, contents, sorted_order(keys, v.len() as int)))
}

/// The framed input hash of entries.
pub open spec fn spec_framed_hash(entries: Seq<(String, Vec<u8>)>) -> Seq<char> {
    framed_hash_of(entry_views(entries))
}

proof fn lemma_ins_at(keys: Seq<Seq<u8>>, s: Seq<int>, x: int, j: int)
    requires
        0 <= j <= s.len(),
        forall|k: int| j <= k < s.len() ==> lex_lt(keys[x], keys[#[trigger] s[k]]),
        j > 0 ==> !lex_lt(keys[x], keys[s[j - 1]]),
    ensures
        ins(keys, s, x) == s.take(j) + seq![x] + s.skip(j),
    decreases s.len(),
{
    if s.len() == 0 {
        assert(s.take(j) + seq![x] + s.skip(j) =~= seq![x]);
    } else if j == s.len() {
        assert(s.take(j) + seq![x] + s.skip(j) =~= s.push(x));
    } else {
        lemma_ins_at(keys, s.drop_last(), x, j);
        assert(s.take(j) + seq![x] + s.skip(j) =~= (s.drop_last().take(j) + seq![x]
            + s.drop_last().skip(j)).push(s.last()));
    }
}

/// UTF-8 bytes of each path.
pub open spec fn path_keys(paths: Seq<String>) -> Seq<Seq<u8>> {
    paths.map_values(|p: String| vstd::utf8::encode_utf8(p@))
}

/// Indices of `paths` ordered stably by path bytes (equal paths keep their
/// relative order).
pub fn sort_indices_by_path(paths: &[String]) -> (order: Vec<usize>)
    ensures
        order@.map_values(|i: usize| i as int) == sorted_order(
            path_keys(paths@),
            paths@.len() as int,
        ),
        forall|k: int| 0 <= k < order@.len() ==> #[trigger] order@[k] < paths@.len(),
        order@.len() == paths@.len(),
{
    let ghost keys = path_keys(paths@);
    let mut order: Vec<usize> = Vec::new();
    let mut i: usize = 0;
    while i < paths.len()
        invariant
            i <= paths@.len(),
            keys == path_keys(paths@),
            order@.map_values(|i: usize| i as int) == sorted_order(keys, i as int),
            forall|k: int| 0 <= k < order@.len() ==> #[trigger] order@[k] < i,
            order@.len() == i,
        decreases paths@.len() - i,
    {
        let key = paths[i].as_str().as_bytes();
        let mut j = order.len();
        while j > 0 && bytes_lt(key, paths[order[j - 1]].as_str().as_bytes())
            invariant
                i < paths@.len(),
                keys == path_keys(paths@),
                key@ == keys[i as int],
                j <= order@.len(),
                forall|k: int| 0 <= k < order@.len() ==> #[trigger] order@[k] < i,
                forall|k: int|
                    j <= k < order@.len() ==> lex_lt(keys[i as int], keys[#[trigger] order@[k] as int]),
            decreases j,
        {
            j -= 1;
        }
        let ghost s = order@.map_values(|i: usize| i as int);
        proof {
            assert forall|k: int| j <= k < s.len() implies lex_lt(keys[i as int], keys[#[trigger] s[k]]) by {
                assert(s[k] == order@[k] as int);
            }
            if j > 0 {
                assert(s[j - 1] == order@[j - 1] as int);
            }
            lemma_ins_at(keys, s, i as int, j as int);
        }
        order.insert(j, i);
        proof {
            assert(order@.map_values(|i: usize| i as int) =~= s.take(j as int) + seq![i as int] + s.skip(j as int));
        }
        i += 1;
    }
    order
}

/// The paths of `entries`, in order.
fn entry_path_list(entries: &[(String, Vec<u8>)]) -> (paths: Vec<String>)
    ensures
        path_keys(paths@) == entry_paths(entries@),
{
    let mut paths: Vec<String> = Vec::new();
    let mut i: usize = 0;
    while i < entries.len()
        invariant
            i <= entries@.len(),
            paths@.len() == i,
            forall|k: int| 0 <= k < i ==> #[trigger] paths@[k]@ == entries@[k].0@,
        decreases entries@.len() - i,
    {
        paths.push(entries[i].0.clone());
        i += 1;
    }
    assert(path_keys(paths@) =~= entry_paths(entries@));
    paths
}

/// Framed SHA-256 over entries ordered stably by path.
pub fn compute_project_hash(entries: &[(String, Vec<u8>)]) -> (r: String)
    ensures
        r@ == spec_framed_hash(entries@),
{
    let paths = entry_path_list(entries);
    let order = sort_indices_by_path(paths.as_slice());
    proof {
        assert(path_keys(paths@).len() == paths@.len());
        assert(entry_paths(entries@).len() == entries@.len());
    }
    let ghost ord = order@.map_values(|i: usize| i as int);
    let ghost pkeys = entry_paths(entries@);
    let ghost contents = entry_contents(entries@);
    let mut msg: Vec<u8> = Vec::new();
    let mut k: usize = 0;
    while k < order.len()
        invariant
            k <= order@.len(),
            ord == order@.map_values(|i: usize| i as int),
            pkeys == entry_paths(entries@),
            contents == entry_contents(entries@),
            forall|q: int| 0 <= q < order@.len() ==> #[trigger] order@[q] < entries@.len(),
            msg@ == framed_entries(pkeys, contents, ord.take(k as int)),
        decreases order@.len() - k,
    {
        let idx = order[k];
        let p = entries[idx].0.as_str().as_bytes();
        let c = entries[idx].1.as_slice();
        push_le32(&mut msg, p.len() as u32);
        push_all(&mut msg, p);
        push_le64(&mut msg, c.len() as u64);
        push_all(&mut msg, c);
        proof {
            assert(ord.take(k + 1).drop_last() =~= ord.take(k as int));
            assert(ord.take(k + 1).last() == idx as int);
        }
        k += 1;
    }
    assert(ord.take(order@.len() as int) =~= ord);
    assert(entry_views(entries@).map_values(|e: (Seq<char>, Seq<u8>)| vstd::utf8::encode_utf8(e.0))
        =~= pkeys);
    assert(entry_views(entries@).map_values(|e: (Seq<char>, Seq<u8>)| e.1) =~= contents);
    sha256_hex(msg.as_slice())
}


// ---------------------------------------------------------------------------
// The framed hash does not depend on the order entries were accepted in
// ---------------------------------------------------------------------------

proof fn lemma_lex_irreflexive(a: Seq<u8>)
    ensures
        !lex_lt(a, a),
    decreases a.len(),
{
    if a.len() > 0 {
        lemma_lex_irreflexive(a.drop_first());
    }
}

proof fn lemma_lex_transitive(a: Seq<u8>, b: Seq<u8>, c: Seq<u8>)
    requires
        lex_lt(a, b),
        lex_lt(b, c),
    ensures
        lex_lt(a, c),
    decreases a.len(),
{
    if a.len() > 0 && b.len() > 0 && c.len() > 0 && a[0] == b[0] && b[0] == c[0] {
        lemma_lex_transitive(a.drop_first(), b.drop_first(), c.drop_first());
    }
}

proof fn lemma_lex_total(a: Seq<u8>, b: Seq<u8>)
    requires
        a != b,
    ensures
        lex_lt(a, b) || lex_lt(b, a),
    decreases a.len(),
{
    if a.len() > 0 && b.len() > 0 && a[0] == b[0] {
        if a.drop_first() == b.drop_first() {
            assert(a =~= seq![a[0]] + a.drop_first());
            assert(b =~= seq![b[0]] + b.drop_first());
        }
        lemma_lex_total(a.drop_first(), b.drop_first());
    } else if a.len() == 0 && b.len() == 0 {
        assert(a =~= b);
    }
}

/// Indices strictly increasing by key.
pub open spec fn key_sorted(keys: Seq<Seq<u8>>, s: Seq<int>) -> bool {
    forall|p: int, q: int| 0 <= p < q < s.len() ==> lex_lt(keys[#[trigger] s[p]], keys[#[trigger] s[q]])
}

proof fn lemma_ins_sorted(keys: Seq<Seq<u8>>, s: Seq<int>, x: int)
    requires
        key_sorted(keys, s),
        forall|k: int| 0 <= k < s.len() ==> keys[#[trigger] s[k]] != keys[x],
    ensures
        key_sorted(keys, ins(keys, s, x)),
        ins(keys, s, x).len() == s.len() + 1,
        forall|y: int| #[trigger] ins(keys, s, x).contains(y) <==> (s.contains(y) || y == x),
    decreases s.len(),
{
    let r = ins(keys, s, x);
    if s.len() == 0 {
        assert(r =~= seq![x]);
        assert forall|y: int| r.contains(y) <==> (s.contains(y) || y == x) by {
            if r.contains(y) {
                let m = choose|m: int| 0 <= m < r.len() && r[m] == y;
                assert(m == 0);
            }
            if y == x {
                assert(r[0] == x);
            }
        }
    } else if lex_lt(keys[x], keys[s.last()]) {
        let t = s.drop_last();
        assert forall|p: int, q: int| 0 <= p < q < t.len() implies lex_lt(keys[#[trigger] t[p]], keys[#[trigger] t[q]]) by {
            assert(t[p] == s[p] && t[q] == s[q]);
        }
        lemma_ins_sorted(keys, t, x);
        let r1 = ins(keys, t, x);
        assert(r == r1.push(s.last()));
        assert forall|p: int, q: int| 0 <= p < q < r.len() implies lex_lt(keys[#[trigger] r[p]], keys[#[trigger] r[q]]) by {
            if q == r.len() - 1 {
                assert(r[p] == r1[p]);
                assert(r1.contains(r1[p]));
                assert(r[q] == s[s.len() - 1]);
                if r[p] != x {
                    assert(t.contains(r[p]));
                    let m = choose|m: int| 0 <= m < t.len() && t[m] == r[p];
                    assert(s[m] == t[m]);
                    assert(lex_lt(keys[s[m]], keys[s[s.len() - 1]]));
                }
            } else {
                assert(r[p] == r1[p] && r[q] == r1[q]);
            }
        }
        assert forall|y: int| r.contains(y) <==> (s.contains(y) || y == x) by {
            if r.contains(y) {
                let m = choose|m: int| 0 <= m < r.len() && r[m] == y;
                if m < r1.len() {
                    assert(r[m] == r1[m]);
                    assert(r1.contains(r1[m]));
                    if y != x {
                        assert(t.contains(y));
                        let k = choose|k: int| 0 <= k < t.len() && t[k] == y;
                        assert(s[k] == t[k]);
                        assert(s.contains(s[k]));
                    }
                } else {
                    assert(s[s.len() - 1] == y);
                    assert(s.contains(s[s.len() - 1]));
                }
            }
            if s.contains(y) {
                let k = choose|k: int| 0 <= k < s.len() && s[k] == y;
                if k < t.len() {
                    assert(t[k] == y);
                    assert(t.contains(t[k]));
                    assert(r1.contains(y));
                    let m = choose|m: int| 0 <= m < r1.len() && r1[m] == y;
                    assert(r[m] == y);
                } else {
                    assert(r[r.len() - 1] == y);
                }
            }
            if y == x {
                assert(r1.contains(x));
                let m = choose|m: int| 0 <= m < r1.len() && r1[m] == x;
                assert(r[m] == x);
            }
        }
    } else {
        assert(keys[s[s.len() - 1]] != keys[x]);
        lemma_lex_total(keys[x], keys[s.last()]);
        assert(r == s.push(x));
        assert forall|p: int, q: int| 0 <= p < q < r.len() implies lex_lt(keys[#[trigger] r[p]], keys[#[trigger] r[q]]) by {
            if q == r.len() - 1 {
                if p < s.len() - 1 {
                    assert(lex_lt(keys[s[p]], keys[s[s.len() - 1]]));
                    lemma_lex_transitive(keys[s[p]], keys[s[s.len() - 1]], keys[x]);
                }
            } else {
                assert(r[p] == s[p] && r[q] == s[q]);
            }
        }
        assert forall|y: int| r.contains(y) <==> (s.contains(y) || y == x) by {
            if r.contains(y) {
                let m = choose|m: int| 0 <= m < r.len() && r[m] == y;
                if m < s.len() {
                    assert(s[m] == y);
                }
            }
            if s.contains(y) {
                let k = choose|k: int| 0 <= k < s.len() && s[k] == y;
                assert(r[k] == y);
            }
            if y == x {
                assert(r[r.len() - 1] == x);
            }
        }
    }
}

/// Keys that differ at different indices below `n`.
pub open spec fn distinct_keys(keys: Seq<Seq<u8>>, n: int) -> bool {
    forall|i: int, j: int| 0 <= i < j < n ==> keys[i] != keys[j]
}

proof fn lemma_sorted_order_sorted(keys: Seq<Seq<u8>>, n: int)
    requires
        0 <= n,
        distinct_keys(keys, n),
    ensures
        key_sorted(keys, sorted_order(keys, n)),
        sorted_order(keys, n).len() == n,
        forall|y: int| sorted_order(keys, n).contains(y) <==> 0 <= y < n,
    decreases n,
{
    if n > 0 {
        lemma_sorted_order_sorted(keys, n - 1);
        let s = sorted_order(keys, n - 1);
        assert forall|k: int| 0 <= k < s.len() implies keys[#[trigger] s[k]] != keys[n - 1] by {
            assert(s.contains(s[k]));
        }
        lemma_ins_sorted(keys, s, n - 1);
        assert(sorted_order(keys, n) == ins(keys, s, n - 1));
        assert forall|y: int| sorted_order(keys, n).contains(y) <==> 0 <= y < n by {
            assert(s.contains(y) <==> 0 <= y < n - 1);
        }
    } else {
        assert(sorted_order(keys, n) =~= Seq::<int>::empty());
    }
}

/// The framing of `(key, content)` pairs, in order.
pub open spec fn frame_pairs(p: Seq<(Seq<u8>, Seq<u8>)>) -> Seq<u8>
    decreases p.len(),
{
    if p.len() == 0 {
        seq![]
    } else {
        frame_pairs(p.drop_last()) + le32(p.last().0.len() as u32) + p.last().0 + le64(p.last().1.len() as u64)
            + p.last().1
    }
}

proof fn lemma_framed_entries_pairs(paths: Seq<Seq<u8>>, contents: Seq<Seq<u8>>, order: Seq<int>)
    ensures
        framed_entries(paths, contents, order) == frame_pairs(
            order.map_values(|i: int| (paths[i], contents[i])),
        ),
    decreases order.len(),
{
    if order.len() > 0 {
        lemma_framed_entries_pairs(paths, contents, order.drop_last());
        assert(order.drop_last().map_values(|i: int| (paths[i], contents[i])) =~= order.map_values(
            |i: int| (paths[i], contents[i]),
        ).drop_last());
    }
}

/// Pairs strictly increasing by key.
pub open spec fn pairs_sorted(p: Seq<(Seq<u8>, Seq<u8>)>) -> bool {
    forall|i: int, j: int| 0 <= i < j < p.len() ==> lex_lt(#[trigger] p[i].0, #[trigger] p[j].0)
}

proof fn lemma_pairs_sorted_unique(a: Seq<(Seq<u8>, Seq<u8>)>, b: Seq<(Seq<u8>, Seq<u8>)>)
    requires
        pairs_sorted(a),
        pairs_sorted(b),
        forall|x: (Seq<u8>, Seq<u8>)| a.contains(x) <==> b.contains(x),
    ensures
        a == b,
    decreases a.len(),
{
    if a.len() == 0 {
        if b.len() > 0 {
            assert(b.contains(b[0]));
        }
        assert(a =~= b);
    } else {
        assert(a.contains(a[0]));
        let j = choose|j: int| 0 <= j < b.len() && b[j] == a[0];
        assert(b.contains(b[0]));
        let i = choose|i: int| 0 <= i < a.len() && a[i] == b[0];
        if i > 0 && j > 0 {
            assert(lex_lt(a[0].0, a[i].0));
            assert(lex_lt(b[0].0, b[j].0));
            lemma_lex_transitive(a[0].0, b[0].0, a[0].0);
            lemma_lex_irreflexive(a[0].0);
        }
        if i > 0 && j == 0 {
            assert(lex_lt(a[0].0, a[i].0));
            lemma_lex_irreflexive(a[0].0);
        }
        if j > 0 && i == 0 {
            assert(lex_lt(b[0].0, b[j].0));
            lemma_lex_irreflexive(b[0].0);
        }
        assert(a[0] == b[0]);
        let ta = a.drop_first();
        let tb = b.drop_first();
        assert forall|x: (Seq<u8>, Seq<u8>)| ta.contains(x) <==> tb.contains(x) by {
            if ta.contains(x) {
                let k = choose|k: int| 0 <= k < ta.len() && ta[k] == x;
                assert(a[k + 1] == x);
                assert(lex_lt(a[0].0, x.0));
                lemma_lex_irreflexive(x.0);
                assert(b.contains(x));
                let m = choose|m: int| 0 <= m < b.len() && b[m] == x;
                assert(m != 0);
                assert(tb[m - 1] == x);
            }
            if tb.contains(x) {
                let k = choose|k: int| 0 <= k < tb.len() && tb[k] == x;
                assert(b[k + 1] == x);
                assert(lex_lt(b[0].0, x.0));
                lemma_lex_irreflexive(x.0);
                assert(a.contains(x));
                let m = choose|m: int| 0 <= m < a.len() && a[m] == x;
                assert(m != 0);
                assert(ta[m - 1] == x);
            }
        }
        assert forall|p: int, q: int| 0 <= p < q < ta.len() implies lex_lt(#[trigger] ta[p].0, #[trigger] ta[q].0) by {
            assert(ta[p] == a[p + 1] && ta[q] == a[q + 1]);
        }
        assert forall|p: int, q: int| 0 <= p < q < tb.len() implies lex_lt(#[trigger] tb[p].0, #[trigger] tb[q].0) by {
            assert(tb[p] == b[p + 1] && tb[q] == b[q + 1]);
        }
        lemma_pairs_sorted_unique(ta, tb);
        assert(a =~= seq![a[0]] + ta);
        assert(b =~= seq![b[0]] + tb);
    }
}

/// The `(path bytes, content)` pairs of entries.
pub open spec fn keyed_entries(v: Seq<(Seq<char>, Seq<u8>)>) -> Seq<(Seq<u8>, Seq<u8>)> {
    v.map_values(|e: (Seq<char>, Seq<u8>)| (vstd::utf8::encode_utf8(e.0), e.1))
}

/// Entries whose paths all differ.
pub open spec fn distinct_paths(v: Seq<(Seq<char>, Seq<u8>)>) -> bool {
    forall|i: int, j: int| 0 <= i < j < v.len() ==> v[i].0 != v[j].0
}

/// The keyed pairs of entries in path order.
proof fn lemma_arranged(v: Seq<(Seq<char>, Seq<u8>)>) -> (p: Seq<(Seq<u8>, Seq<u8>)>)
    requires
        distinct_paths(v),
    ensures
        framed_hash_of(v) == spec_sha256_hex(frame_pairs(p)),
        pairs_sorted(p),
        forall|x: (Seq<u8>, Seq<u8>)| p.contains(x) <==> keyed_entries(v).contains(x),
{
    let keys = v.map_values(|e: (Seq<char>, Seq<u8>)| vstd::utf8::encode_utf8(e.0));
    let contents = v.map_values(|e: (Seq<char>, Seq<u8>)| e.1);
    let n = v.len() as int;
    assert forall|i: int, j: int| 0 <= i < j < n implies keys[i] != keys[j] by {
        vstd::utf8::encode_utf8_decode_utf8(v[i].0);
        vstd::utf8::encode_utf8_decode_utf8(v[j].0);
    }
    lemma_sorted_order_sorted(keys, n);
    let o = sorted_order(keys, n);
    lemma_framed_entries_pairs(keys, contents, o);
    let p = o.map_values(|i: int| (keys[i], contents[i]));
    let kv = keyed_entries(v);
    assert forall|i: int, j: int| 0 <= i < j < p.len() implies lex_lt(#[trigger] p[i].0, #[trigger] p[j].0) by {
        assert(p[i].0 == keys[o[i]] && p[j].0 == keys[o[j]]);
    }
    assert forall|x: (Seq<u8>, Seq<u8>)| p.contains(x) <==> kv.contains(x) by {
        if p.contains(x) {
            let m = choose|m: int| 0 <= m < p.len() && p[m] == x;
            assert(o.contains(o[m]));
            assert(kv[o[m]] == x);
        }
        if kv.contains(x) {
            let m = choose|m: int| 0 <= m < kv.len() && kv[m] == x;
            assert(o.contains(m));
            let k = choose|k: int| 0 <= k < o.len() && o[k] == m;
            assert(p[k] == x);
        }
    }
    p
}

/// The framed input hash of a set of accepted files does not depend on the
/// order they were accepted in: two lists holding the same entries, each
/// with distinct paths, hash alike.
pub proof fn lemma_framed_hash_order_independent(a: Seq<(Seq<char>, Seq<u8>)>, b: Seq<(Seq<char>, Seq<u8>)>)
    requires
        distinct_paths(a),
        distinct_paths(b),
        forall|x: (Seq<char>, Seq<u8>)| a.contains(x) <==> b.contains(x),
    ensures
        framed_hash_of(a) == framed_hash_of(b),
{
    let pa = lemma_arranged(a);
    let pb = lemma_arranged(b);
    let ka = keyed_entries(a);
    let kb = keyed_entries(b);
    assert forall|x: (Seq<u8>, Seq<u8>)| ka.contains(x) <==> kb.contains(x) by {
        if ka.contains(x) {
            let m = choose|m: int| 0 <= m < ka.len() && ka[m] == x;
            assert(a.contains(a[m]));
            let k = choose|k: int| 0 <= k < b.len() && b[k] == a[m];
            assert(kb[k] == x);
        }
        if kb.contains(x) {
            let m = choose|m: int| 0 <= m < kb.len() && kb[m] == x;
            assert(b.contains(b[m]));
            let k = choose|k: int| 0 <= k < a.len() && a[k] == b[m];
            assert(ka[k] == x);
        }
    }
    lemma_pairs_sorted_unique(pa, pb);
}

} // verus!
