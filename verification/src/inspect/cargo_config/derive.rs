//! Evidence derivation helpers for Cargo platform inspection: WASM target
//! classification, platform cfg detection, cfg selector normalization,
//! bench path conventions, and typed sort representations.

use vstd::prelude::*;
use vstd::string::StrSliceExecFns;

use crate::inspect::cargo::types::{DependencyKind, SystemDependencyKind};
use crate::inspect::cargo_config::types::{
    CargoTargetKey, ConfigSource, NativeRequirement, RustflagsEvidence, RustflagsScope,
};
use crate::text::{
    ascii_lower, ascii_lowercase, chars_end_with, chars_eq, chars_of, chars_start_with,
    collapse_whitespace, collapse_ws, has_prefix, has_suffix, push_char, string_of, subrange_vec,
};

verus! {

// ---------------------------------------------------------------------------
// WASM targets
// ---------------------------------------------------------------------------

/// Whether a validated triple is a WASM target (`wasm32-*` or `wasm64-*`).
pub open spec fn spec_is_wasm_target_triple(t: Seq<char>) -> bool {
    has_prefix(t, "wasm32-"@) || has_prefix(t, "wasm64-"@)
}

/// Whether a validated triple is a WASM target.
pub fn is_wasm_target_triple(triple: &str) -> (r: bool)
    ensures
        r == spec_is_wasm_target_triple(triple@),
{
    let t = chars_of(triple);
    let a = chars_of("wasm32-");
    let b = chars_of("wasm64-");
    chars_start_with(t.as_slice(), a.as_slice()) || chars_start_with(t.as_slice(), b.as_slice())
}

// ---------------------------------------------------------------------------
// Platform cfg detection
// ---------------------------------------------------------------------------

/// Unicode `Alphabetic` or `Numeric` (what `char::is_alphanumeric` decides).
pub uninterp spec fn spec_char_alphanumeric(c: char) -> bool;

/// Whether `c` is alphanumeric (`char::is_alphanumeric`). For ASCII this is
/// exactly the letters and digits.
#[verifier::external_body]
fn char_is_alphanumeric(c: char) -> (r: bool)
    ensures
        r == spec_char_alphanumeric(c),
        (c as u32) < 128 ==> (r <==> (('a' <= c && c <= 'z') || ('A' <= c && c <= 'Z') || ('0'
            <= c && c <= '9'))),
{
    c.is_alphanumeric()
}

/// Quoted-string contents (and the quotes) replaced by spaces from `i`;
/// a backslash inside a string blanks itself and the next character.
pub open spec fn strip_from(s: Seq<char>, i: int, in_str: bool) -> Seq<char>
    decreases s.len() + 2 - i,
{
    if i < 0 || i >= s.len() {
        seq![]
    } else if in_str {
        if s[i] == '\\' {
            seq![' ', ' '] + strip_from(s, i + 2, true)
        } else if s[i] == '"' {
            seq![' '] + strip_from(s, i + 1, false)
        } else {
            seq![' '] + strip_from(s, i + 1, true)
        }
    } else if s[i] == '"' {
        seq![' '] + strip_from(s, i + 1, true)
    } else {
        seq![s[i]] + strip_from(s, i + 1, false)
    }
}

/// `s` with double-quoted string contents blanked out, escape-aware.
pub open spec fn spec_strip_quoted(s: Seq<char>) -> Seq<char> {
    strip_from(s, 0, false)
}

/// Replaces each character inside a double-quoted string (and the quotes)
/// with a space. A backslash escapes the next character, so `\"` never
/// closes a string.
pub fn strip_quoted(s: &str) -> (out: String)
    ensures
        out@ == spec_strip_quoted(s@),
{
    let cs = chars_of(s);
    let n = cs.len();
    let mut out: Vec<char> = Vec::new();
    let mut i: usize = 0;
    let mut in_str = false;
    while i < n
        invariant
            n == cs@.len(),
            cs@ == s@,
            i <= n,
            out@ + strip_from(cs@, i as int, in_str) == strip_from(cs@, 0, false),
        decreases n - i,
    {
        let ch = cs[i];
        let ghost pre = out@;
        if in_str {
            if ch == '\\' {
                out.push(' ');
                out.push(' ');
                assert(pre + seq![' ', ' '] + strip_from(cs@, i + 2, true) =~= pre + (seq![' ', ' ']
                    + strip_from(cs@, i + 2, true)));
                assert(out@ =~= pre + seq![' ', ' ']);
                if n - i >= 2 {
                    i += 2;
                } else {
                    assert(strip_from(cs@, i + 2, true) =~= seq![]);
                    assert(strip_from(cs@, n as int, true) =~= seq![]);
                    i = n;
                }
            } else if ch == '"' {
                in_str = false;
                out.push(' ');
                assert(out@ =~= pre + seq![' ']);
                assert(pre + seq![' '] + strip_from(cs@, i + 1, false) =~= pre + (seq![' ']
                    + strip_from(cs@, i + 1, false)));
                i += 1;
            } else {
                out.push(' ');
                assert(out@ =~= pre + seq![' ']);
                assert(pre + seq![' '] + strip_from(cs@, i + 1, true) =~= pre + (seq![' ']
                    + strip_from(cs@, i + 1, true)));
                i += 1;
            }
        } else if ch == '"' {
            in_str = true;
            out.push(' ');
            assert(out@ =~= pre + seq![' ']);
            assert(pre + seq![' '] + strip_from(cs@, i + 1, true) =~= pre + (seq![' '] + strip_from(
                cs@,
                i + 1,
                true,
            )));
            i += 1;
        } else {
            out.push(ch);
            assert(out@ =~= pre + seq![ch]);
            assert(pre + seq![ch] + strip_from(cs@, i + 1, false) =~= pre + (seq![ch] + strip_from(
                cs@,
                i + 1,
                false,
            )));
            i += 1;
        }
    }
    assert(out@ + seq![] =~= out@);
    string_of(out.as_slice())
}

/// A character of a cfg option name: alphanumeric or `_` (for ASCII, a
/// letter, a digit or `_`).
pub open spec fn is_word_char(c: char) -> bool {
    if (c as u32) < 128 {
        ('a' <= c && c <= 'z') || ('A' <= c && c <= 'Z') || ('0' <= c && c <= '9') || c == '_'
    } else {
        spec_char_alphanumeric(c)
    }
}

/// A platform option name: a `target_*` key or bare `unix`/`windows`.
pub open spec fn is_platform_word(w: Seq<char>) -> bool {
    ||| w == "target_arch"@
    ||| w == "target_os"@
    ||| w == "target_family"@
    ||| w == "target_env"@
    ||| w == "target_vendor"@
    ||| w == "target_pointer_width"@
    ||| w == "target_endian"@
    ||| w == "target_has_atomic"@
    ||| w == "unix"@
    ||| w == "windows"@
}

/// Whether some word of `s` (split at non-word characters) from the word
/// starting at `start`, with `i` scanned so far, is a platform word.
pub open spec fn any_platform_word(s: Seq<char>, start: int, i: int) -> bool
    decreases s.len() - i,
{
    if i < 0 || start < 0 || start > i || i >= s.len() {
        0 <= start <= s.len() && is_platform_word(s.subrange(start, s.len() as int))
    } else if !is_word_char(s[i]) {
        is_platform_word(s.subrange(start, i)) || any_platform_word(s, i + 1, i + 1)
    } else {
        any_platform_word(s, start, i + 1)
    }
}

/// A cfg predicate is a platform constraint when, after ASCII lowering and
/// blanking quoted strings, one of its words is a platform option name.
pub open spec fn spec_is_platform_cfg(p: Seq<char>) -> bool {
    any_platform_word(spec_strip_quoted(p.map_values(|c: char| ascii_lower(c))), 0, 0)
}

/// No character of `s` is a double quote.
pub open spec fn no_quote(s: Seq<char>) -> bool {
    forall|k: int| 0 <= k < s.len() ==> #[trigger] s[k] != '"'
}

/// No character of `s` is a double quote or a backslash: the contents of a
/// quoted value that closes at its first quote.
pub open spec fn plain_quoted_contents(s: Seq<char>) -> bool {
    forall|k: int| 0 <= k < s.len() ==> #[trigger] s[k] != '"' && s[k] != '\\'
}

/// `n` spaces.
pub open spec fn spaces(n: nat) -> Seq<char> {
    Seq::new(n, |_k: int| ' ')
}

proof fn lemma_strip_shift(s: Seq<char>, p: int, t: Seq<char>, q: int, st: bool)
    requires
        0 <= p <= s.len(),
        0 <= q <= t.len(),
        s.subrange(p, s.len() as int) == t.subrange(q, t.len() as int),
    ensures
        strip_from(s, p, st) == strip_from(t, q, st),
    decreases s.len() - p,
{
    let ss = s.subrange(p, s.len() as int);
    let tt = t.subrange(q, t.len() as int);
    assert(ss.len() == tt.len());
    if p < s.len() {
        assert(s[p] == ss[0] && t[q] == tt[0]);
        assert(s.subrange(p + 1, s.len() as int) =~= t.subrange(q + 1, t.len() as int)) by {
            assert forall|k: int| 0 <= k < s.len() - p - 1 implies #[trigger] s.subrange(p + 1, s.len() as int)[k]
                == t.subrange(q + 1, t.len() as int)[k] by {
                assert(ss[k + 1] == tt[k + 1]);
            }
        }
        lemma_strip_shift(s, p + 1, t, q + 1, true);
        lemma_strip_shift(s, p + 1, t, q + 1, false);
        if p + 1 < s.len() {
            assert(s[p + 1] == ss[1] && t[q + 1] == tt[1]);
        }
        if p + 2 <= s.len() {
            assert(s.subrange(p + 2, s.len() as int) =~= t.subrange(q + 2, t.len() as int)) by {
                assert forall|k: int| 0 <= k < s.len() - p - 2 implies #[trigger] s.subrange(p + 2, s.len() as int)[k]
                    == t.subrange(q + 2, t.len() as int)[k] by {
                    assert(ss[k + 2] == tt[k + 2]);
                }
            }
            lemma_strip_shift(s, p + 2, t, q + 2, true);
        } else {
            assert(strip_from(s, p + 2, true) == Seq::<char>::empty());
            assert(strip_from(t, q + 2, true) == Seq::<char>::empty());
        }
    }
}

proof fn lemma_strip_unquoted_run(s: Seq<char>, i: int, e: int)
    requires
        0 <= i <= e <= s.len(),
        forall|k: int| i <= k < e ==> #[trigger] s[k] != '"',
    ensures
        strip_from(s, i, false) == s.subrange(i, e) + strip_from(s, e, false),
    decreases e - i,
{
    if i < e {
        lemma_strip_unquoted_run(s, i + 1, e);
        assert(seq![s[i]] + (s.subrange(i + 1, e) + strip_from(s, e, false)) =~= s.subrange(i, e)
            + strip_from(s, e, false));
    } else {
        assert(s.subrange(i, e) + strip_from(s, e, false) =~= strip_from(s, e, false));
    }
}

proof fn lemma_strip_plain_run(s: Seq<char>, i: int, e: int)
    requires
        0 <= i <= e <= s.len(),
        forall|k: int| i <= k < e ==> #[trigger] s[k] != '"' && s[k] != '\\',
    ensures
        strip_from(s, i, true) == spaces((e - i) as nat) + strip_from(s, e, true),
    decreases e - i,
{
    if i < e {
        lemma_strip_plain_run(s, i + 1, e);
        assert(seq![' '] + (spaces((e - i - 1) as nat) + strip_from(s, e, true)) =~= spaces(
            (e - i) as nat,
        ) + strip_from(s, e, true));
    } else {
        assert(spaces(0) + strip_from(s, e, true) =~= strip_from(s, e, true));
    }
}

/// Blanking one quoted value: the text before it is kept, the value and its
/// quotes become spaces, and the rest is blanked on its own.
proof fn lemma_strip_one_quoted(a: Seq<char>, v: Seq<char>, z: Seq<char>)
    requires
        no_quote(a),
        plain_quoted_contents(v),
    ensures
        spec_strip_quoted(a + seq!['"'] + v + seq!['"'] + z) == a + spaces((v.len() + 2) as nat)
            + spec_strip_quoted(z),
{
    let s = a + seq!['"'] + v + seq!['"'] + z;
    let n = a.len() as int;
    let m = v.len() as int;
    assert forall|k: int| 0 <= k < n implies #[trigger] s[k] != '"' by {
        assert(s[k] == a[k]);
    }
    lemma_strip_unquoted_run(s, 0, n);
    assert(s.subrange(0, n) =~= a);
    assert(s[n] == '"');
    assert forall|k: int| n + 1 <= k < n + 1 + m implies #[trigger] s[k] != '"' && s[k] != '\\' by {
        assert(s[k] == v[k - n - 1]);
    }
    lemma_strip_plain_run(s, n + 1, n + 1 + m);
    assert(s[n + 1 + m] == '"');
    assert(s.subrange(n + m + 2, s.len() as int) =~= z.subrange(0, z.len() as int));
    lemma_strip_shift(s, n + m + 2, z, 0, false);
    assert(strip_from(s, n, false) == seq![' '] + strip_from(s, n + 1, true));
    assert(strip_from(s, n + 1 + m, true) == seq![' '] + strip_from(s, n + m + 2, false));
    assert(a + (seq![' '] + (spaces(m as nat) + (seq![' '] + strip_from(z, 0, false)))) =~= a + spaces(
        (m + 2) as nat,
    ) + strip_from(z, 0, false));
}

proof fn lemma_empty_not_platform_word()
    ensures
        !is_platform_word(seq![]),
{
    reveal_strlit("target_arch");
    reveal_strlit("target_os");
    reveal_strlit("target_family");
    reveal_strlit("target_env");
    reveal_strlit("target_vendor");
    reveal_strlit("target_pointer_width");
    reveal_strlit("target_endian");
    reveal_strlit("target_has_atomic");
    reveal_strlit("unix");
    reveal_strlit("windows");
    assert("target_arch"@.len() > 0 && "target_os"@.len() > 0 && "target_family"@.len() > 0);
    assert("target_env"@.len() > 0 && "target_vendor"@.len() > 0 && "target_endian"@.len() > 0);
    assert("target_pointer_width"@.len() > 0 && "target_has_atomic"@.len() > 0);
    assert("unix"@.len() > 0 && "windows"@.len() > 0);
}

proof fn lemma_words_shift(s: Seq<char>, st1: int, i1: int, t: Seq<char>, st2: int, i2: int)
    requires
        0 <= st1 <= i1 <= s.len(),
        0 <= st2 <= i2 <= t.len(),
        i1 - st1 == i2 - st2,
        s.subrange(st1, s.len() as int) == t.subrange(st2, t.len() as int),
    ensures
        any_platform_word(s, st1, i1) == any_platform_word(t, st2, i2),
    decreases s.len() - i1,
{
    let ss = s.subrange(st1, s.len() as int);
    let tt = t.subrange(st2, t.len() as int);
    assert(ss.len() == tt.len());
    if i1 < s.len() {
        assert(s[i1] == ss[i1 - st1] && t[i2] == tt[i2 - st2]);
        assert(s.subrange(st1, i1) =~= t.subrange(st2, i2)) by {
            assert forall|k: int| 0 <= k < i1 - st1 implies #[trigger] s.subrange(st1, i1)[k] == t.subrange(st2, i2)[k] by {
                assert(ss[k] == tt[k]);
            }
        }
        assert(s.subrange(i1 + 1, s.len() as int) =~= t.subrange(i2 + 1, t.len() as int)) by {
            assert forall|k: int| 0 <= k < s.len() - i1 - 1 implies #[trigger] s.subrange(i1 + 1, s.len() as int)[k]
                == t.subrange(i2 + 1, t.len() as int)[k] by {
                assert(ss[i1 - st1 + 1 + k] == tt[i2 - st2 + 1 + k]);
            }
        }
        lemma_words_shift(s, i1 + 1, i1 + 1, t, i2 + 1, i2 + 1);
        lemma_words_shift(s, st1, i1 + 1, t, st2, i2 + 1);
    } else {
        assert(s.subrange(st1, s.len() as int) =~= t.subrange(st2, t.len() as int));
    }
}

proof fn lemma_words_skip_spaces(s: Seq<char>, p: int, e: int)
    requires
        0 <= p <= e <= s.len(),
        forall|k: int| p <= k < e ==> #[trigger] s[k] == ' ',
    ensures
        any_platform_word(s, p, p) == any_platform_word(s, e, e),
    decreases e - p,
{
    if p < e {
        lemma_empty_not_platform_word();
        assert(s.subrange(p, p) =~= Seq::<char>::empty());
        assert(!is_word_char(s[p]));
        lemma_words_skip_spaces(s, p + 1, e);
    }
}

proof fn lemma_words_before_spaces(a: Seq<char>, n: nat, r: Seq<char>, st: int, i: int)
    requires
        n >= 1,
        0 <= st <= i <= a.len(),
    ensures
        any_platform_word(a + spaces(n) + r, st, i) == any_platform_word(a + seq![' '] + r, st, i),
    decreases a.len() - i,
{
    let x = a + spaces(n) + r;
    let y = a + seq![' '] + r;
    let la = a.len() as int;
    if i < la {
        assert(x[i] == a[i] && y[i] == a[i]);
        assert(x.subrange(st, i) =~= y.subrange(st, i));
        lemma_words_before_spaces(a, n, r, i + 1, i + 1);
        lemma_words_before_spaces(a, n, r, st, i + 1);
    } else {
        assert(x[la] == ' ' && y[la] == ' ');
        assert(x.subrange(st, la) =~= y.subrange(st, la));
        assert forall|k: int| la + 1 <= k < la + n implies #[trigger] x[k] == ' ' by {}
        lemma_words_skip_spaces(x, la + 1, la + n);
        assert(x.subrange(la + n, x.len() as int) =~= y.subrange(la + 1, y.len() as int));
        lemma_words_shift(x, la + n, la + n, y, la + 1, la + 1);
    }
}

/// What a quoted value holds never decides whether a cfg predicate is a
/// platform constraint: a predicate whose one quoted value (after unquoted
/// text) holds `v` is a platform constraint exactly when the same predicate
/// holding `w` in its place is, for any quote- and backslash-free `v`, `w`.
/// So `feature = "target_arch"` never counts as one.
pub proof fn lemma_quoted_value_never_decides(a: Seq<char>, v: Seq<char>, w: Seq<char>, z: Seq<char>)
    requires
        no_quote(a),
        plain_quoted_contents(v),
        plain_quoted_contents(w),
    ensures
        spec_is_platform_cfg(a + seq!['"'] + v + seq!['"'] + z) == spec_is_platform_cfg(a + seq!['"'] + w
            + seq!['"'] + z),
{
    let f = |c: char| ascii_lower(c);
    let la = a.map_values(f);
    let lv = v.map_values(f);
    let lw = w.map_values(f);
    let lz = z.map_values(f);
    assert((a + seq!['"'] + v + seq!['"'] + z).map_values(f) =~= la + seq!['"'] + lv + seq!['"'] + lz);
    assert((a + seq!['"'] + w + seq!['"'] + z).map_values(f) =~= la + seq!['"'] + lw + seq!['"'] + lz);
    assert(no_quote(la)) by {
        assert forall|k: int| 0 <= k < la.len() implies #[trigger] la[k] != '"' by {
            assert(a[k] != '"');
        }
    }
    assert(plain_quoted_contents(lv)) by {
        assert forall|k: int| 0 <= k < lv.len() implies #[trigger] lv[k] != '"' && lv[k] != '\\' by {
            assert(v[k] != '"' && v[k] != '\\');
        }
    }
    assert(plain_quoted_contents(lw)) by {
        assert forall|k: int| 0 <= k < lw.len() implies #[trigger] lw[k] != '"' && lw[k] != '\\' by {
            assert(w[k] != '"' && w[k] != '\\');
        }
    }
    lemma_strip_one_quoted(la, lv, lz);
    lemma_strip_one_quoted(la, lw, lz);
    let rz = spec_strip_quoted(lz);
    lemma_words_before_spaces(la, (lv.len() + 2) as nat, rz, 0, 0);
    lemma_words_before_spaces(la, (lw.len() + 2) as nat, rz, 0, 0);
}

fn is_platform_word_exec(w: &[char]) -> (r: bool)
    ensures
        r == is_platform_word(w@),
{
    let keys: [&str; 10] = [
        "target_arch",
        "target_os",
        "target_family",
        "target_env",
        "target_vendor",
        "target_pointer_width",
        "target_endian",
        "target_has_atomic",
        "unix",
        "windows",
    ];
    let mut k: usize = 0;
    while k < 10
        invariant
            k <= 10,
            keys@ == seq![
                "target_arch",
                "target_os",
                "target_family",
                "target_env",
                "target_vendor",
                "target_pointer_width",
                "target_endian",
                "target_has_atomic",
                "unix",
                "windows",
            ],
            forall|j: int| 0 <= j < k ==> w@ != (#[trigger] keys@[j])@,
        decreases 10 - k,
    {
        let key = chars_of(keys[k]);
        if chars_eq(w, key.as_slice()) {
            return true;
        }
        k += 1;
    }
    assert(!is_platform_word(w@)) by {
        assert(w@ != keys@[0]@);
        assert(w@ != keys@[1]@);
        assert(w@ != keys@[2]@);
        assert(w@ != keys@[3]@);
        assert(w@ != keys@[4]@);
        assert(w@ != keys@[5]@);
        assert(w@ != keys@[6]@);
        assert(w@ != keys@[7]@);
        assert(w@ != keys@[8]@);
        assert(w@ != keys@[9]@);
    }
    false
}

/// Whether a cfg predicate constrains the platform (mentions a `target_*`
/// option or bare `unix`/`windows` outside quoted strings).
pub fn is_platform_cfg(predicate: &str) -> (r: bool)
    ensures
        r == spec_is_platform_cfg(predicate@),
{
    let cs = chars_of(predicate);
    let lower = ascii_lowercase(cs.as_slice());
    let lower_s = string_of(lower.as_slice());
    let stripped = strip_quoted(lower_s.as_str());
    let st = chars_of(stripped.as_str());
    let n = st.len();
    let mut start: usize = 0;
    let mut i: usize = 0;
    assert(st@ == spec_strip_quoted(predicate@.map_values(|c: char| ascii_lower(c))));
    while i < n
        invariant
            n == st@.len(),
            st@ == spec_strip_quoted(predicate@.map_values(|c: char| ascii_lower(c))),
            start <= i <= n,
            any_platform_word(st@, start as int, i as int) == any_platform_word(st@, 0, 0),
        decreases n - i,
    {
        let c = st[i];
        let wc = char_is_alphanumeric(c) || c == '_';
        if !wc {
            let w = subrange_vec(st.as_slice(), start, i);
            if is_platform_word_exec(w.as_slice()) {
                return true;
            }
            i += 1;
            start = i;
        } else {
            i += 1;
        }
    }
    let w = subrange_vec(st.as_slice(), start, n);
    is_platform_word_exec(w.as_slice())
}

// ---------------------------------------------------------------------------
// Cargo cfg selectors
// ---------------------------------------------------------------------------

/// A `cfg(...)` selector unwrapped and whitespace-collapsed; any other
/// selector unchanged.
pub open spec fn spec_normalize_cargo_cfg_selector(t: Seq<char>) -> Seq<char> {
    if t.len() >= 5 && has_prefix(t, "cfg("@) && t.last() == ')' {
        collapse_ws(t.subrange(4, t.len() - 1))
    } else {
        t
    }
}

/// Normalizes a Cargo `cfg(...)` dependency selector to the canonical
/// unwrapped predicate form used for Rust cfg predicates.
pub fn normalize_cargo_cfg_selector(target: &str) -> (r: String)
    ensures
        r@ == spec_normalize_cargo_cfg_selector(target@),
{
    let t = chars_of(target);
    let pre = chars_of("cfg(");
    if t.len() >= 5 && chars_start_with(t.as_slice(), pre.as_slice()) && t[t.len() - 1] == ')' {
        let inner = subrange_vec(t.as_slice(), 4, t.len() - 1);
        let c = collapse_whitespace(inner.as_slice());
        string_of(c.as_slice())
    } else {
        string_of(t.as_slice())
    }
}

// ---------------------------------------------------------------------------
// Package paths and bench names
// ---------------------------------------------------------------------------

/// The package directory of a manifest path (empty for the root package).
pub open spec fn spec_package_dir(m: Seq<char>) -> Seq<char> {
    if has_suffix(m, "/Cargo.toml"@) {
        m.take(m.len() - 11)
    } else if has_suffix(m, "\\Cargo.toml"@) {
        m.take(m.len() - 11)
    } else if m == "Cargo.toml"@ {
        seq![]
    } else {
        m
    }
}

/// Strips `/Cargo.toml` from a manifest path to get the package directory.
pub fn package_dir(manifest_path: &str) -> (r: &str)
    ensures
        r@ == spec_package_dir(manifest_path@),
{
    let m = chars_of(manifest_path);
    let a = chars_of("/Cargo.toml");
    let b = chars_of("\\Cargo.toml");
    let c = chars_of("Cargo.toml");
    proof {
        reveal_strlit("/Cargo.toml");
        reveal_strlit("\\Cargo.toml");
    }
    if chars_end_with(m.as_slice(), a.as_slice()) || chars_end_with(m.as_slice(), b.as_slice()) {
        manifest_path.substring_char(0, m.len() - 11)
    } else if chars_eq(m.as_slice(), c.as_slice()) {
        manifest_path.substring_char(0, 0)
    } else {
        manifest_path
    }
}

/// `pkg_dir/rel`, or `rel` when `pkg_dir` is empty.
pub open spec fn spec_join_pkg_path(dir: Seq<char>, rel: Seq<char>) -> Seq<char> {
    if dir.len() == 0 {
        rel
    } else {
        dir + seq!['/'] + rel
    }
}

/// Joins a package directory with a package-relative path.
pub fn join_pkg_path(pkg_dir: &str, rel: &str) -> (r: String)
    ensures
        r@ == spec_join_pkg_path(pkg_dir@, rel@),
{
    let d = chars_of(pkg_dir);
    let r = chars_of(rel);
    if d.len() == 0 {
        return string_of(r.as_slice());
    }
    let mut out = string_of(d.as_slice());
    push_char(&mut out, '/');
    let mut k: usize = 0;
    while k < r.len()
        invariant
            k <= r@.len(),
            out@ == d@ + seq!['/'] + r@.take(k as int),
        decreases r@.len() - k,
    {
        push_char(&mut out, r[k]);
        assert(d@ + seq!['/'] + r@.take(k + 1) =~= (d@ + seq!['/'] + r@.take(k as int)).push(
            r@[k as int],
        ));
        k += 1;
    }
    assert(r@.take(r@.len() as int) =~= r@);
    out
}

/// The `/`-separated parts of `s` (empty parts kept), from the part starting
/// at `start` with `i` scanned so far.
pub open spec fn split_slash(s: Seq<char>, start: int, i: int) -> Seq<Seq<char>>
    decreases s.len() - i,
{
    if i < 0 || start < 0 || start > i || i >= s.len() {
        if 0 <= start <= s.len() {
            seq![s.subrange(start, s.len() as int)]
        } else {
            seq![]
        }
    } else if s[i] == '/' {
        seq![s.subrange(start, i)] + split_slash(s, i + 1, i + 1)
    } else {
        split_slash(s, start, i + 1)
    }
}

/// First index of the part `benches`, at or after `k`.
pub open spec fn benches_index(parts: Seq<Seq<char>>, k: int) -> Option<int>
    decreases parts.len() - k,
{
    if k < 0 || k >= parts.len() {
        None
    } else if parts[k] == "benches"@ {
        Some(k)
    } else {
        benches_index(parts, k + 1)
    }
}

/// Conventional Cargo bench name of a project-relative bench root path:
/// `benches/<name>.rs` gives `<name>`, `benches/<name>/main.rs` gives `<name>`.
pub open spec fn spec_conventional_bench_name(p: Seq<char>) -> Option<Seq<char>> {
    let parts = split_slash(p, 0, 0);
    match benches_index(parts, 0) {
        None => None,
        Some(idx) => {
            let after = parts.skip(idx + 1);
            if after.len() == 1 {
                if has_suffix(after[0], ".rs"@) {
                    Some(after[0].take(after[0].len() - 3))
                } else {
                    None
                }
            } else if after.len() == 2 && after[1] == "main.rs"@ && after[0].len() > 0 {
                Some(after[0])
            } else {
                None
            }
        },
    }
}

fn split_on_slash(s: &[char]) -> (parts: Vec<Vec<char>>)
    ensures
        parts@.map_values(|v: Vec<char>| v@) == split_slash(s@, 0, 0),
{
    let mut parts: Vec<Vec<char>> = Vec::new();
    let mut start: usize = 0;
    let mut i: usize = 0;
    while i < s.len()
        invariant
            start <= i <= s@.len(),
            parts@.map_values(|v: Vec<char>| v@) + split_slash(s@, start as int, i as int)
                == split_slash(s@, 0, 0),
        decreases s@.len() - i,
    {
        if s[i] == '/' {
            let ghost pre = parts@.map_values(|v: Vec<char>| v@);
            let part = subrange_vec(s, start, i);
            parts.push(part);
            assert(parts@.map_values(|v: Vec<char>| v@) =~= pre.push(
                s@.subrange(start as int, i as int),
            ));
            assert(pre.push(s@.subrange(start as int, i as int)) + split_slash(s@, i + 1, i + 1)
                =~= pre + (seq![s@.subrange(start as int, i as int)] + split_slash(
                s@,
                i + 1,
                i + 1,
            )));
            i += 1;
            start = i;
        } else {
            i += 1;
        }
    }
    let ghost pre = parts@.map_values(|v: Vec<char>| v@);
    let last = subrange_vec(s, start, s.len());
    parts.push(last);
    assert(parts@.map_values(|v: Vec<char>| v@) =~= pre + split_slash(s@, start as int, i as int));
    parts
}

/// Derives the conventional Cargo bench name from a project-relative bench
/// root path; `None` for non-root paths.
pub fn conventional_bench_name(project_path: &str) -> (r: Option<String>)
    ensures
        match (r, spec_conventional_bench_name(project_path@)) {
            (Some(a), Some(b)) => a@ == b,
            (None, None) => true,
            _ => false,
        },
{
    let p = chars_of(project_path);
    let parts = split_on_slash(p.as_slice());
    let ghost pv = parts@.map_values(|v: Vec<char>| v@);
    let benches = chars_of("benches");
    let mut k: usize = 0;
    let mut found: Option<usize> = None;
    while k < parts.len() && found.is_none()
        invariant
            k <= parts@.len(),
            pv == parts@.map_values(|v: Vec<char>| v@),
            benches@ == "benches"@,
            found is None ==> benches_index(pv, k as int) == benches_index(pv, 0),
            found matches Some(x) ==> benches_index(pv, 0) == Some(x as int) && x < parts@.len(),
        decreases parts@.len() - k + if found is None { 1int } else { 0int },
    {
        if chars_eq(parts[k].as_slice(), benches.as_slice()) {
            found = Some(k);
        } else {
            k += 1;
        }
    }
    let idx = match found {
        None => {
            return None;
        },
        Some(x) => x,
    };
    let rest = parts.len() - idx - 1;
    let ghost after = pv.skip(idx + 1);
    assert(after.len() == rest);
    if rest == 1 {
        let single = &parts[idx + 1];
        assert(after[0] == single@);
        let rs = chars_of(".rs");
        if chars_end_with(single.as_slice(), rs.as_slice()) {
            proof {
                reveal_strlit(".rs");
            }
            let name = subrange_vec(single.as_slice(), 0, single.len() - 3);
            return Some(string_of(name.as_slice()));
        }
        None
    } else if rest == 2 {
        let dir = &parts[idx + 1];
        let file = &parts[idx + 2];
        assert(after[0] == dir@ && after[1] == file@);
        let main_rs = chars_of("main.rs");
        if chars_eq(file.as_slice(), main_rs.as_slice()) && dir.len() > 0 {
            return Some(string_of(dir.as_slice()));
        }
        None
    } else {
        None
    }
}

// ---------------------------------------------------------------------------
// Typed ranks and sort representations
// ---------------------------------------------------------------------------

/// Stable rank of a system dependency kind (definition order).
pub open spec fn spec_system_dep_kind_rank(k: SystemDependencyKind) -> u8 {
    match k {
        SystemDependencyKind::PkgConfig => 0,
        SystemDependencyKind::Cc => 1,
        SystemDependencyKind::Bindgen => 2,
        SystemDependencyKind::Cmake => 3,
        SystemDependencyKind::Vcpkg => 4,
        SystemDependencyKind::SystemDeps => 5,
    }
}

/// Stable rank of a system dependency kind.
pub fn system_dep_kind_rank(k: SystemDependencyKind) -> (r: u8)
    ensures
        r == spec_system_dep_kind_rank(k),
{
    match k {
        SystemDependencyKind::PkgConfig => 0,
        SystemDependencyKind::Cc => 1,
        SystemDependencyKind::Bindgen => 2,
        SystemDependencyKind::Cmake => 3,
        SystemDependencyKind::Vcpkg => 4,
        SystemDependencyKind::SystemDeps => 5,
    }
}

/// Stable rank of a dependency kind (Normal < Dev < Build).
pub fn dep_kind_rank(k: DependencyKind) -> (r: u8)
    ensures
        r == k.spec_rank(),
{
    k.rank()
}

/// Unit separator between the fields of a sort representation.
pub open spec fn US() -> char {
    '\u{1f}'
}

/// Typed `(rank, key)` representation of a target key.
pub open spec fn spec_target_key_sort_repr(key: CargoTargetKey) -> (u8, Seq<char>) {
    match key {
        CargoTargetKey::Triple { triple } => (0, triple@),
        CargoTargetKey::Cfg { display, identity } => (1, display@ + seq![US()] + identity@),
    }
}

fn append_chars(out: &mut String, s: &str)
    ensures
        final(out)@ == old(out)@ + s@,
{
    let cs = chars_of(s);
    let mut k: usize = 0;
    while k < cs.len()
        invariant
            k <= cs@.len(),
            cs@ == s@,
            out@ == old(out)@ + cs@.take(k as int),
        decreases cs@.len() - k,
    {
        push_char(out, cs[k]);
        assert(old(out)@ + cs@.take(k + 1) =~= (old(out)@ + cs@.take(k as int)).push(cs@[k as int]));
        k += 1;
    }
    assert(cs@.take(cs@.len() as int) =~= cs@);
}

/// Typed `(rank, key)` representation of a target key for sorting.
pub fn target_key_sort_repr(key: &CargoTargetKey) -> (r: (u8, String))
    ensures
        (r.0, r.1@) == spec_target_key_sort_repr(*key),
{
    match key {
        CargoTargetKey::Triple { triple } => (0, triple.clone()),
        CargoTargetKey::Cfg { display, identity } => {
            let mut s = display.clone();
            push_char(&mut s, '\u{1f}');
            append_chars(&mut s, identity.as_str());
            (1, s)
        },
    }
}

/// Typed `(rank, repr)` representation of a rustflags scope.
pub open spec fn spec_scope_sort_repr(scope: RustflagsScope) -> (u8, Seq<char>) {
    match scope {
        RustflagsScope::Build => (0, seq![]),
        RustflagsScope::Target { key } => {
            let (kr, ks) = spec_target_key_sort_repr(key);
            (1, seq![if kr == 0 { '0' } else { '1' }, US()] + ks)
        },
    }
}

/// Typed `(rank, repr)` representation of a rustflags scope for sorting.
pub fn scope_sort_repr(scope: &RustflagsScope) -> (r: (u8, String))
    ensures
        (r.0, r.1@) == spec_scope_sort_repr(*scope),
{
    match scope {
        RustflagsScope::Build => (0, String::new()),
        RustflagsScope::Target { key } => {
            let (kr, ks) = target_key_sort_repr(key);
            let mut s = String::new();
            push_char(&mut s, if kr == 0 { '0' } else { '1' });
            push_char(&mut s, '\u{1f}');
            append_chars(&mut s, ks.as_str());
            assert(s@ =~= seq![if kr == 0 { '0' } else { '1' }, US()] + ks@);
            (1, s)
        },
    }
}

// ---------------------------------------------------------------------------
// Native rustflags requirement
// ---------------------------------------------------------------------------

/// Pushes a native-rustflags requirement for `rf` in `scope` when it has
/// native-linking flags and an accepted config source; otherwise nothing.
pub fn push_native_rustflags(
    out: &mut Vec<NativeRequirement>,
    rf: &RustflagsEvidence,
    scope: RustflagsScope,
    config: Option<&ConfigSource>,
)
    ensures
        (!rf.has_native_linking || rf.native_flag_count == 0 || config is None) ==> final(out)@
            == old(out)@,
        (rf.has_native_linking && rf.native_flag_count != 0 && config is Some) ==> {
            &&& final(out)@.len() == old(out)@.len() + 1
            &&& final(out)@.take(old(out)@.len() as int) == old(out)@
            &&& final(out)@.last() matches NativeRequirement::NativeRustflags {
                scope: s,
                flag_count,
                identity,
                config: c,
            }
            &&& s == scope
            &&& flag_count == rf.native_flag_count
            &&& identity == rf.native_identity
            &&& c@ == config.unwrap()@
        },
{
    if !rf.has_native_linking || rf.native_flag_count == 0 {
        return;
    }
    let config = match config {
        Some(c) => c,
        None => {
            return;
        },
    };
    let ghost pre = out@;
    out.push(
        NativeRequirement::NativeRustflags {
            scope,
            flag_count: rf.native_flag_count,
            identity: rf.native_identity.clone(),
            config: config.clone(),
        },
    );
    assert(out@.take(pre.len() as int) =~= pre);
}

} // verus!
