//! Order keys: character sequences whose lexicographic order is the
//! field-by-field order of the values they encode.
//!
//! A text is each character preceded by `\u{1}` and closed by `\u{0}`, so
//! that a prefix sorts first; an optional value is `\u{0}` when absent and
//! `\u{1}` then the value when present; a number is its hexadecimal digits
//! at a fixed width, most significant first, one character each; a variant
//! or flag is one character holding its index. Keys of values are the
//! concatenation of their fields' keys in declaration order.

use vstd::prelude::*;

use crate::order::{
    char_lex_lt, is_sorted_dedup_of, keyed_from, sort_key_views, sorted_by_key, sorted_dedup, stable_sort_by_key, views,
    SortKey, SortKeyV,
};
use crate::text::{char_from_ascii, chars_of};

verus! {

/// The characters of a text, each preceded by `\u{1}`.
pub open spec fn text_body(s: Seq<char>) -> Seq<char>
    decreases s.len(),
{
    if s.len() == 0 {
        seq![]
    } else {
        text_body(s.drop_last()) + seq!['\u{1}', s.last()]
    }
}

/// Key of a text.
pub open spec fn text_key(s: Seq<char>) -> Seq<char> {
    text_body(s) + seq!['\u{0}']
}

proof fn lemma_text_body_front(s: Seq<char>)
    requires
        s.len() > 0,
    ensures
        text_body(s) == seq!['\u{1}', s[0]] + text_body(s.drop_first()),
    decreases s.len(),
{
    if s.len() == 1 {
        assert(s.drop_last() =~= Seq::<char>::empty());
        assert(s.drop_first() =~= Seq::<char>::empty());
        assert(text_body(s.drop_first()) =~= Seq::<char>::empty());
        assert(text_body(s) =~= seq!['\u{1}', s[0]]);
    } else {
        lemma_text_body_front(s.drop_last());
        assert(s.drop_last().drop_first() =~= s.drop_first().drop_last());
        assert(s.drop_first().last() == s.last());
        assert(text_body(s) =~= seq!['\u{1}', s[0]] + text_body(s.drop_first()));
    }
}

/// Text keys can be read back: a text key followed by anything determines
/// both the text and what follows it.
pub proof fn lemma_text_key_prefix_free(a: Seq<char>, x: Seq<char>, b: Seq<char>, y: Seq<char>)
    requires
        text_key(a) + x == text_key(b) + y,
    ensures
        a == b,
        x == y,
    decreases a.len(),
{
    let ka = text_key(a) + x;
    let kb = text_key(b) + y;
    if a.len() == 0 {
        assert(ka[0] == '\u{0}');
        if b.len() > 0 {
            lemma_text_body_front(b);
            assert(kb[0] == '\u{1}');
        }
        assert(text_key(a) =~= seq!['\u{0}']);
        assert(text_key(b) =~= seq!['\u{0}']);
        assert(ka.drop_first() =~= x);
        assert(kb.drop_first() =~= y);
        assert(a =~= b);
    } else {
        lemma_text_body_front(a);
        assert(ka[0] == '\u{1}');
        if b.len() == 0 {
            assert(kb[0] == '\u{0}');
        }
        lemma_text_body_front(b);
        assert(ka[1] == a[0]);
        assert(kb[1] == b[0]);
        assert(ka.skip(2) =~= text_key(a.drop_first()) + x);
        assert(kb.skip(2) =~= text_key(b.drop_first()) + y);
        lemma_text_key_prefix_free(a.drop_first(), x, b.drop_first(), y);
        assert(a =~= seq![a[0]] + a.drop_first());
        assert(b =~= seq![b[0]] + b.drop_first());
    }
}

/// Key of an optional text.
pub open spec fn opt_text_key(o: Option<Seq<char>>) -> Seq<char> {
    match o {
        None => seq!['\u{0}'],
        Some(s) => seq!['\u{1}'] + text_key(s),
    }
}

/// The `width` lowest hexadecimal digits of `n`, most significant first.
pub open spec fn digits_key(n: int, width: nat) -> Seq<char>
    decreases width,
{
    if width == 0 {
        seq![]
    } else {
        digits_key(n / 16, (width - 1) as nat) + seq![(n % 16) as char]
    }
}

/// Key of an optional number of `width` digits.
pub open spec fn opt_digits_key(o: Option<u64>, width: nat) -> Seq<char> {
    match o {
        None => seq!['\u{0}'],
        Some(n) => seq!['\u{1}'] + digits_key(n as int, width),
    }
}

/// Key of a small index.
pub open spec fn index_key(k: int) -> Seq<char> {
    seq![k as char]
}


pub fn push_text_key(out: &mut Vec<char>, s: &str)
    ensures
        final(out)@ == old(out)@ + text_key(s@),
{
    let cs = chars_of(s);
    let ghost o = out@;
    let mut k: usize = 0;
    while k < cs.len()
        invariant
            k <= cs@.len(),
            cs@ == s@,
            out@ == o + text_body(cs@.take(k as int)),
        decreases cs@.len() - k,
    {
        assert(cs@.take(k + 1).drop_last() =~= cs@.take(k as int));
        out.push('\u{1}');
        out.push(cs[k]);
        assert(out@ =~= o + text_body(cs@.take(k + 1)));
        k = k + 1;
    }
    assert(cs@.take(cs@.len() as int) =~= cs@);
    out.push('\u{0}');
    assert(out@ =~= o + text_key(s@));
}

pub fn push_opt_text_key(out: &mut Vec<char>, o: &Option<String>)
    ensures
        final(out)@ == old(out)@ + opt_text_key(
            match o {
                Some(s) => Some(s@),
                None => None,
            },
        ),
{
    let ghost before = out@;
    match o {
        None => {
            out.push('\u{0}');
            assert(out@ =~= before + seq!['\u{0}']);
        },
        Some(s) => {
            out.push('\u{1}');
            push_text_key(out, s.as_str());
            assert(out@ =~= before + (seq!['\u{1}'] + text_key(s@)));
        },
    }
}

/// Appends the `width` lowest hexadecimal digits of `n`.
pub fn push_digits(out: &mut Vec<char>, n: u64, width: u32)
    ensures
        final(out)@ == old(out)@ + digits_key(n as int, width as nat),
    decreases width,
{
    if width > 0 {
        let ghost o = out@;
        push_digits(out, n / 16, width - 1);
        let d: u64 = n % 16;
        out.push(char_from_ascii(d as u32));
        assert(out@ =~= o + digits_key(n as int, width as nat));
    } else {
        assert(out@ =~= out@ + digits_key(n as int, width as nat));
    }
}

/// Appends the key of an optional number.
pub fn push_opt_digits(out: &mut Vec<char>, o: Option<u64>, width: u32)
    ensures
        final(out)@ == old(out)@ + opt_digits_key(o, width as nat),
{
    let ghost before = out@;
    match o {
        None => {
            out.push('\u{0}');
            assert(out@ =~= before + seq!['\u{0}']);
        },
        Some(n) => {
            out.push('\u{1}');
            push_digits(out, n, width);
            assert(out@ =~= before + (seq!['\u{1}'] + digits_key(n as int, width as nat)));
        },
    }
}

/// Appends the key of a small index.
pub fn push_index(out: &mut Vec<char>, k: u32)
    requires
        k < 128,
    ensures
        final(out)@ == old(out)@ + index_key(k as int),
{
    let ghost o = out@;
    out.push(char_from_ascii(k));
    assert(out@ =~= o + index_key(k as int));
}

/// Whether `x` is one of `items` and has key `target`.
pub open spec fn picked_from<T>(items: Seq<T>, key: spec_fn(T) -> Seq<char>, x: T, target: Seq<char>) -> bool {
    exists|j: int| 0 <= j < items.len() && items[j] == x && key(items[j]) == target
}

/// `r` is `items` sorted by `key` with one item per key: its keys are the
/// sorted distinct keys of `items`, and each of its items is an item of
/// `items` with that key.
pub open spec fn sorted_unique_by<T>(r: Seq<T>, items: Seq<T>, key: spec_fn(T) -> Seq<char>) -> bool {
    &&& is_sorted_dedup_of(sorted_dedup(items.map_values(key)), items.map_values(key))
    &&& r.len() == sorted_dedup(items.map_values(key)).len()
    &&& forall|k: int|
        0 <= k < r.len() ==> #[trigger] picked_from(items, key, r[k], sorted_dedup(items.map_values(key))[k])
}

/// What [`crate::order::sort_dedup_keyed`] gives, stated over a key function.
pub proof fn lemma_sorted_unique<T>(r: Seq<T>, items: Seq<T>, keys: Seq<String>, key: spec_fn(T) -> Seq<char>)
    requires
        keys.len() == items.len(),
        forall|j: int| 0 <= j < items.len() ==> #[trigger] keys[j]@ == key(items[j]),
        r.len() == sorted_dedup(views(keys)).len(),
        forall|k: int| 0 <= k < r.len() ==> keyed_from(items, keys, #[trigger] r[k], sorted_dedup(views(keys))[k]),
        is_sorted_dedup_of(sorted_dedup(views(keys)), views(keys)),
    ensures
        sorted_unique_by(r, items, key),
{
    assert(views(keys) =~= items.map_values(key));
    assert forall|k: int| 0 <= k < r.len() implies #[trigger] picked_from(
        items,
        key,
        r[k],
        sorted_dedup(items.map_values(key))[k],
    ) by {
        assert(keyed_from(items, keys, r[k], sorted_dedup(views(keys))[k]));
        let j = choose|j: int| 0 <= j < items.len() && items[j] == r[k] && keys[j]@ == sorted_dedup(views(keys))[k];
        assert(keys[j]@ == key(items[j]));
    }
    assert(r.len() == sorted_dedup(items.map_values(key)).len());
}

/// Whether some item of `r` has key `target`.
pub open spec fn has_key<T>(r: Seq<T>, key: spec_fn(T) -> Seq<char>, target: Seq<char>) -> bool {
    exists|k: int| 0 <= k < r.len() && key(#[trigger] r[k]) == target
}

/// A sort with one item per key orders its result strictly by key, takes
/// every item from the input, and leaves out no key: each input item has an
/// item of the result with the same key.
pub proof fn lemma_sorted_unique_covers<T>(r: Seq<T>, items: Seq<T>, key: spec_fn(T) -> Seq<char>)
    requires
        sorted_unique_by(r, items, key),
    ensures
        forall|i: int, j: int| 0 <= i < j < r.len() ==> char_lex_lt(key(#[trigger] r[i]), key(#[trigger] r[j])),
        forall|k: int| 0 <= k < r.len() ==> items.contains(#[trigger] r[k]),
        forall|j: int| 0 <= j < items.len() ==> has_key(r, key, key(#[trigger] items[j])),
{
    let ks = items.map_values(key);
    let sd = sorted_dedup(ks);
    assert forall|k: int| 0 <= k < r.len() implies key(#[trigger] r[k]) == sd[k] && items.contains(r[k]) by {
        assert(picked_from(items, key, r[k], sd[k]));
        let j = choose|j: int| 0 <= j < items.len() && items[j] == r[k] && key(items[j]) == sd[k];
    }
    assert forall|i: int, j: int| 0 <= i < j < r.len() implies char_lex_lt(key(#[trigger] r[i]), key(#[trigger] r[j])) by {
        assert(key(r[i]) == sd[i] && key(r[j]) == sd[j]);
    }
    assert forall|j: int| 0 <= j < items.len() implies has_key(r, key, key(#[trigger] items[j])) by {
        assert(ks[j] == key(items[j]));
        assert(ks.contains(ks[j]));
        assert(sd.contains(ks[j]));
        let k = choose|k: int| 0 <= k < sd.len() && sd[k] == ks[j];
        assert(key(r[k]) == sd[k]);
    }
}

/// A sort by a key of views is a sort of the views.
pub proof fn lemma_sorted_unique_views<T, V>(
    r: Seq<T>,
    items: Seq<T>,
    view: spec_fn(T) -> V,
    key: spec_fn(V) -> Seq<char>,
    composed: spec_fn(T) -> Seq<char>,
)
    requires
        forall|x: T| #[trigger] composed(x) == key(view(x)),
        sorted_unique_by(r, items, composed),
    ensures
        sorted_unique_by(r.map_values(view), items.map_values(view), key),
{
    assert(items.map_values(view).map_values(key) =~= items.map_values(composed));
    assert forall|k: int| 0 <= k < r.map_values(view).len() implies #[trigger] picked_from(
        items.map_values(view),
        key,
        r.map_values(view)[k],
        sorted_dedup(items.map_values(view).map_values(key))[k],
    ) by {
        assert(picked_from(items, composed, r[k], sorted_dedup(items.map_values(composed))[k]));
        let j = choose|j: int|
            0 <= j < items.len() && items[j] == r[k] && composed(items[j]) == sorted_dedup(items.map_values(composed))[k];
        assert(items.map_values(view)[j] == view(items[j]));
    }
}

/// Composite keys holding only a text.
pub open spec fn text_keys(ks: Seq<Seq<char>>) -> Seq<SortKeyV> {
    ks.map_values(|k: Seq<char>| (k, Seq::<char>::empty(), 0int, None::<Seq<char>>))
}

/// `items` reordered stably by `key` (items with equal keys keep their
/// relative order).
pub open spec fn stable_sorted_by<T>(items: Seq<T>, key: spec_fn(T) -> Seq<char>) -> Seq<T> {
    sorted_by_key(text_keys(items.map_values(key)), items.len() as int).map_values(|i: int| items[i])
}

/// `items` reordered stably by their text keys.
pub fn stable_sort_by_text<T>(items: Vec<T>, keys: Vec<String>) -> (r: Vec<T>)
    requires
        items@.len() == keys@.len(),
    ensures
        r@ == sorted_by_key(text_keys(views(keys@)), keys@.len() as int).map_values(|i: int| items@[i]),
        sorted_by_key(text_keys(views(keys@)), keys@.len() as int).len() == keys@.len(),
        forall|q: int|
            0 <= q < keys@.len() ==> 0 <= #[trigger] sorted_by_key(text_keys(views(keys@)), keys@.len() as int)[q]
                < keys@.len(),
{
    let mut sk: Vec<SortKey> = Vec::new();
    let mut k: usize = 0;
    let mut keys = keys;
    let ghost kv = views(keys@);
    let n = keys.len();
    while k < n
        invariant
            k <= n,
            n == kv.len(),
            keys@.len() + k == n,
            views(keys@) == kv.skip(k as int),
            sk@.len() == k,
            sort_key_views(sk@) == text_keys(kv).take(k as int),
        decreases n - k,
    {
        let ghost kb = keys@;
        let first = keys.remove(0);
        assert(first@ == kv[k as int]) by {
            assert(views(kb)[0] == kv.skip(k as int)[0]);
        }
        assert forall|j: int| 0 <= j < keys@.len() implies views(keys@)[j] == kv.skip(k + 1)[j] by {
            assert(keys@[j] == kb[j + 1]);
            assert(views(kb)[j + 1] == kb[j + 1]@);
            assert(kv.skip(k as int)[j + 1] == kv[k + 1 + j]);
        }
        assert(views(keys@) =~= kv.skip(k + 1));
        let ghost prev = sk@;
        sk.push(SortKey { first, second: String::new(), rank: 0, last: None });
        assert(sort_key_views(sk@) =~= text_keys(kv).take(k + 1)) by {
            assert(sort_key_views(sk@) =~= sort_key_views(prev).push(
                (kv[k as int], Seq::<char>::empty(), 0int, None::<Seq<char>>),
            ));
        }
        k = k + 1;
    }
    assert(text_keys(kv).take(n as int) =~= text_keys(kv));
    stable_sort_by_key(items, sk)
}

/// `s` without elements equal to their predecessor (`dedup`).
pub open spec fn dedup_adjacent<V>(s: Seq<V>) -> Seq<V>
    decreases s.len(),
{
    if s.len() == 0 {
        seq![]
    } else if s.len() > 1 && s.last() == s[s.len() - 2] {
        dedup_adjacent(s.drop_last())
    } else {
        dedup_adjacent(s.drop_last()).push(s.last())
    }
}

/// Key of a list of texts: each text marked present, then an end mark.
pub open spec fn texts_key(v: Seq<Seq<char>>) -> Seq<char>
    decreases v.len(),
{
    if v.len() == 0 {
        seq!['\u{0}']
    } else {
        seq!['\u{1}'] + text_key(v[0]) + texts_key(v.drop_first())
    }
}

/// Appends the key of a list of texts.
pub fn push_texts_key(out: &mut Vec<char>, v: &Vec<String>)
    ensures
        final(out)@ == old(out)@ + texts_key(views(v@)),
{
    let ghost o = out@;
    let mut k: usize = 0;
    assert(views(v@).skip(0) =~= views(v@));
    while k < v.len()
        invariant
            k <= v@.len(),
            out@ + texts_key(views(v@).skip(k as int)) == o + texts_key(views(v@)),
        decreases v@.len() - k,
    {
        let ghost before = out@;
        out.push('\u{1}');
        push_text_key(out, v[k].as_str());
        assert(views(v@).skip(k as int).drop_first() =~= views(v@).skip(k + 1));
        assert(views(v@).skip(k as int)[0] == v@[k as int]@);
        assert(out@ + texts_key(views(v@).skip(k + 1)) =~= before + texts_key(views(v@).skip(k as int)));
        k = k + 1;
    }
    out.push('\u{0}');
    assert(views(v@).skip(v@.len() as int) =~= Seq::<Seq<char>>::empty());
    assert(out@ =~= o + texts_key(views(v@)));
}

} // verus!
