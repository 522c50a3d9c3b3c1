//! Character- and byte-level text helpers shared by the inspectors.

use vstd::prelude::*;
use vstd::string::StringExecFns;

verus! {

/// The characters of `s`, in order.
pub fn chars_of(s: &str) -> (out: Vec<char>)
    ensures
        out@ == s@,
{
    let mut out: Vec<char> = Vec::new();
    for c in it: s.chars()
        invariant
            out@ == it.seq().take(it.index() as int),
            it.seq() == s@,
    {
        out.push(c);
    }
    out
}

/// Appends the character `c` to `s` (`String::push`).
#[verifier::external_body]
pub fn push_char(s: &mut String, c: char)
    ensures
        final(s)@ == old(s)@.push(c),
{
    s.push(c);
}

/// View of an optional string.
pub open spec fn opt_view(o: Option<String>) -> Option<Seq<char>> {
    match o {
        Some(s) => Some(s@),
        None => None,
    }
}

/// A copy of an optional string.
pub fn clone_opt(o: &Option<String>) -> (r: Option<String>)
    ensures
        r == *o,
{
    match o {
        Some(s) => Some(s.clone()),
        None => None,
    }
}

/// The decimal digit character of a value below 10.
pub open spec fn digit_char(d: int) -> char {
    ((d + 48) as u32) as char
}

/// Decimal rendering of a natural number, most significant digit first,
/// with no leading zeros (`0` renders as `"0"`).
pub open spec fn decimal(n: nat) -> Seq<char>
    decreases n,
{
    if n < 10 {
        seq![digit_char(n as int)]
    } else {
        decimal(n / 10).push(digit_char((n % 10) as int))
    }
}

/// Decimal rendering of `n` (what `n.to_string()` gives).
pub fn u64_decimal(n: u64) -> (s: String)
    ensures
        s@ == decimal(n as nat),
    decreases n,
{
    if n < 10 {
        let mut s = String::new();
        push_char(&mut s, char_from_ascii((n + 48) as u32));
        s
    } else {
        let mut s = u64_decimal(n / 10);
        push_char(&mut s, char_from_ascii((n % 10 + 48) as u32));
        s
    }
}

/// A string holding exactly the characters of `cs`.
pub fn string_of(cs: &[char]) -> (out: String)
    ensures
        out@ == cs@,
{
    let mut out = String::new();
    let mut k: usize = 0;
    while k < cs.len()
        invariant
            k <= cs@.len(),
            out@ == cs@.take(k as int),
        decreases cs@.len() - k,
    {
        push_char(&mut out, cs[k]);
        assert(cs@.take(k as int).push(cs@[k as int]) =~= cs@.take(k + 1));
        k += 1;
    }
    assert(cs@.take(cs@.len() as int) =~= cs@);
    out
}

/// A copy of the bytes `b[start..end]`.
pub fn copy_range(b: &[u8], start: usize, end: usize) -> (out: Vec<u8>)
    requires
        start <= end <= b@.len(),
    ensures
        out@ == b@.subrange(start as int, end as int),
{
    let mut out: Vec<u8> = Vec::new();
    let mut k: usize = start;
    while k < end
        invariant
            start <= k <= end <= b@.len(),
            out@ == b@.subrange(start as int, k as int),
        decreases end - k,
    {
        out.push(b[k]);
        assert(b@.subrange(start as int, k as int).push(b@[k as int]) =~= b@.subrange(
            start as int,
            k + 1,
        ));
        k += 1;
    }
    out
}

/// Whether `s` starts with `prefix`.
pub open spec fn has_prefix<T>(s: Seq<T>, prefix: Seq<T>) -> bool {
    prefix.len() <= s.len() && s.take(prefix.len() as int) == prefix
}

/// Whether `s` ends with `suffix`.
pub open spec fn has_suffix<T>(s: Seq<T>, suffix: Seq<T>) -> bool {
    suffix.len() <= s.len() && s.skip(s.len() - suffix.len()) == suffix
}

/// Whether the character sequence `s` starts with `prefix`.
pub fn chars_start_with(s: &[char], prefix: &[char]) -> (r: bool)
    ensures
        r == has_prefix(s@, prefix@),
{
    if prefix.len() > s.len() {
        return false;
    }
    let mut k: usize = 0;
    while k < prefix.len()
        invariant
            prefix@.len() <= s@.len(),
            k <= prefix@.len(),
            forall|j: int| 0 <= j < k ==> s@[j] == prefix@[j],
        decreases prefix@.len() - k,
    {
        if s[k] != prefix[k] {
            assert(s@.take(prefix@.len() as int)[k as int] != prefix@[k as int]);
            return false;
        }
        k += 1;
    }
    assert(s@.take(prefix@.len() as int) =~= prefix@);
    true
}

/// Whether the character sequence `s` ends with `suffix`.
pub fn chars_end_with(s: &[char], suffix: &[char]) -> (r: bool)
    ensures
        r == has_suffix(s@, suffix@),
{
    if suffix.len() > s.len() {
        return false;
    }
    let off = s.len() - suffix.len();
    let mut k: usize = 0;
    while k < suffix.len()
        invariant
            suffix@.len() <= s@.len(),
            off == s@.len() - suffix@.len(),
            k <= suffix@.len(),
            forall|j: int| 0 <= j < k ==> s@[off + j] == suffix@[j],
        decreases suffix@.len() - k,
    {
        assert(off + k < s.len());
        if s[off + k] != suffix[k] {
            assert(s@.skip(off as int)[k as int] != suffix@[k as int]);
            return false;
        }
        k += 1;
    }
    assert(s@.skip(off as int) =~= suffix@);
    true
}

/// Whether two character sequences are equal.
pub fn chars_eq(a: &[char], b: &[char]) -> (r: bool)
    ensures
        r == (a@ == b@),
{
    if a.len() != b.len() {
        return false;
    }
    let mut k: usize = 0;
    while k < a.len()
        invariant
            a@.len() == b@.len(),
            k <= a@.len(),
            forall|j: int| 0 <= j < k ==> a@[j] == b@[j],
        decreases a@.len() - k,
    {
        if a[k] != b[k] {
            return false;
        }
        k += 1;
    }
    assert(a@ =~= b@);
    true
}

/// Whether `p` occurs in `s` at index `i`.
pub open spec fn occurs_at(s: Seq<char>, p: Seq<char>, i: int) -> bool {
    0 <= i && i + p.len() <= s.len() && s.subrange(i, i + p.len()) == p
}

/// The first index at or after `i` where `p` occurs in `s`.
pub open spec fn find_from(s: Seq<char>, p: Seq<char>, i: int) -> Option<int>
    decreases s.len() + 1 - i,
{
    if i < 0 || i + p.len() > s.len() {
        None
    } else if occurs_at(s, p, i) {
        Some(i)
    } else {
        find_from(s, p, i + 1)
    }
}

/// Whether `p` occurs at position `i` of `s`.
fn chars_occur_at(s: &[char], p: &[char], i: usize) -> (r: bool)
    requires
        i + p@.len() <= s@.len(),
    ensures
        r == occurs_at(s@, p@, i as int),
{
    let n = s.len();
    let mut j: usize = 0;
    while j < p.len()
        invariant
            i + p@.len() <= s@.len(),
            n == s@.len(),
            j <= p@.len(),
            forall|k: int| 0 <= k < j ==> s@[i + k] == p@[k],
        decreases p@.len() - j,
    {
        if s[i + j] != p[j] {
            assert(s@.subrange(i as int, i + p@.len())[j as int] != p@[j as int]);
            return false;
        }
        j += 1;
    }
    assert(s@.subrange(i as int, i + p@.len()) =~= p@);
    true
}

/// The first index where `p` occurs in `s`.
pub fn find_chars(s: &[char], p: &[char]) -> (r: Option<usize>)
    ensures
        match (r, find_from(s@, p@, 0)) {
            (Some(a), Some(b)) => a == b,
            (None, None) => true,
            _ => false,
        },
        r matches Some(a) ==> a + p@.len() <= s@.len(),
{
    if p.len() > s.len() {
        return None;
    }
    let mut i: usize = 0;
    let last = s.len() - p.len();
    while i <= last
        invariant
            p@.len() <= s@.len(),
            last == s@.len() - p@.len(),
            i <= last + 1,
            find_from(s@, p@, i as int) == find_from(s@, p@, 0),
        decreases s@.len() + 1 - i,
    {
        if chars_occur_at(s, p, i) {
            return Some(i);
        }
        if i == last {
            return None;
        }
        i += 1;
    }
    None
}

/// Whether `p` occurs in `s`.
pub fn str_contains(s: &str, p: &str) -> (r: bool)
    ensures
        r == find_from(s@, p@, 0) is Some,
{
    let x = chars_of(s);
    let y = chars_of(p);
    find_chars(x.as_slice(), y.as_slice()).is_some()
}

/// Whether `c` is an ASCII digit.
pub open spec fn is_digit(c: char) -> bool {
    '0' <= c && c <= '9'
}

/// The length of the run of ASCII digits at the start of `s`.
pub open spec fn digit_run(s: Seq<char>) -> int
    decreases s.len(),
{
    if s.len() > 0 && is_digit(s[0]) {
        1 + digit_run(s.drop_first())
    } else {
        0
    }
}

/// The value of a sequence of ASCII digits.
pub open spec fn digits_value(d: Seq<char>) -> nat
    decreases d.len(),
{
    if d.len() == 0 {
        0
    } else {
        digits_value(d.drop_last()) * 10 + ((d.last() as u32) - 48) as nat
    }
}

/// The number written by the leading digits of `s`, when there are some and
/// it fits in `usize` (what `str::parse::<usize>` gives on that run).
pub open spec fn leading_usize(s: Seq<char>) -> Option<usize> {
    let d = s.take(digit_run(s));
    if d.len() == 0 || digits_value(d) > usize::MAX {
        None
    } else {
        Some(digits_value(d) as usize)
    }
}

proof fn lemma_digit_run_bounds(s: Seq<char>)
    ensures
        0 <= digit_run(s) <= s.len(),
        forall|k: int| 0 <= k < digit_run(s) ==> is_digit(#[trigger] s[k]),
        digit_run(s) < s.len() ==> !is_digit(s[digit_run(s)]),
    decreases s.len(),
{
    if s.len() > 0 && is_digit(s[0]) {
        lemma_digit_run_bounds(s.drop_first());
        assert forall|k: int| 0 <= k < digit_run(s) implies is_digit(#[trigger] s[k]) by {
            if k > 0 {
                assert(s[k] == s.drop_first()[k - 1]);
            }
        }
    }
}

/// The number written by the leading digits of `s[i..]`.
pub fn parse_leading_usize(s: &[char], i: usize) -> (r: Option<usize>)
    requires
        i <= s@.len(),
    ensures
        r == leading_usize(s@.skip(i as int)),
{
    let ghost t = s@.skip(i as int);
    proof {
        lemma_digit_run_bounds(t);
    }
    let mut j: usize = i;
    let mut value: usize = 0;
    let mut overflow = false;
    while j < s.len() && '0' <= s[j] && s[j] <= '9'
        invariant
            i <= j <= s@.len(),
            t == s@.skip(i as int),
            j - i <= digit_run(t),
            0 <= digit_run(t) <= t.len(),
            forall|k: int| 0 <= k < digit_run(t) ==> is_digit(#[trigger] t[k]),
            digit_run(t) < t.len() ==> !is_digit(t[digit_run(t)]),
            !overflow ==> value == digits_value(t.take(j - i)),
            overflow ==> digits_value(t.take(j - i)) > usize::MAX,
        decreases s@.len() - j,
    {
        assert(t.take(j + 1 - i).drop_last() =~= t.take(j - i));
        assert(t.take(j + 1 - i).last() == s@[j as int]);
        let d = (s[j] as u32 - 48) as usize;
        if !overflow {
            if value > (usize::MAX - d) / 10 {
                overflow = true;
                assert(digits_value(t.take(j + 1 - i)) > usize::MAX) by (nonlinear_arith)
                    requires
                        digits_value(t.take(j + 1 - i)) == value * 10 + d,
                        value > (usize::MAX - d) / 10,
                        d <= 9,
                ;
            } else {
                assert(value * 10 + d <= usize::MAX) by (nonlinear_arith)
                    requires
                        value <= (usize::MAX - d) / 10,
                        d <= 9,
                ;
                value = value * 10 + d;
            }
        } else {
            assert(digits_value(t.take(j + 1 - i)) >= digits_value(t.take(j - i))) by (nonlinear_arith)
                requires
                    digits_value(t.take(j + 1 - i)) == digits_value(t.take(j - i)) * 10 + d,
            ;
        }
        j += 1;
    }
    proof {
        if j - i < digit_run(t) {
            assert(t[j - i] == s@[j as int]);
        }
        assert(j - i == digit_run(t));
    }
    if j == i || overflow {
        None
    } else {
        Some(value)
    }
}

/// Whether two strings hold the same characters.
pub fn str_eq(a: &str, b: &str) -> (r: bool)
    ensures
        r == (a@ == b@),
{
    let x = chars_of(a);
    let y = chars_of(b);
    chars_eq(x.as_slice(), y.as_slice())
}

/// Whether `s` starts with `prefix`.
pub fn str_starts_with(s: &str, prefix: &str) -> (r: bool)
    ensures
        r == has_prefix(s@, prefix@),
{
    let x = chars_of(s);
    let y = chars_of(prefix);
    chars_start_with(x.as_slice(), y.as_slice())
}

/// Whether `s` ends with `suffix`.
pub fn str_ends_with(s: &str, suffix: &str) -> (r: bool)
    ensures
        r == has_suffix(s@, suffix@),
{
    let x = chars_of(s);
    let y = chars_of(suffix);
    chars_end_with(x.as_slice(), y.as_slice())
}

/// Whether the character `c` occurs in `s`.
pub fn chars_contain(s: &[char], c: char) -> (r: bool)
    ensures
        r == s@.contains(c),
{
    let mut k: usize = 0;
    while k < s.len()
        invariant
            k <= s@.len(),
            forall|j: int| 0 <= j < k ==> s@[j] != c,
        decreases s@.len() - k,
    {
        if s[k] == c {
            assert(s@[k as int] == c);
            return true;
        }
        k += 1;
    }
    false
}

/// ASCII lowercase mapping of one character (`char::to_ascii_lowercase`).
pub open spec fn ascii_lower(c: char) -> char {
    if 'A' <= c && c <= 'Z' {
        ((c as u32) + 32) as char
    } else {
        c
    }
}

/// ASCII lowercase mapping of one character.
pub fn lower_char(c: char) -> (r: char)
    ensures
        r == ascii_lower(c),
{
    if 'A' <= c && c <= 'Z' {
        let v: u32 = (c as u32) + 32;
        proof {
            assert(0x61 <= v <= 0x7a);
        }
        char_from_ascii(v)
    } else {
        c
    }
}

/// The character with the ASCII code `v`.
pub fn char_from_ascii(v: u32) -> (c: char)
    requires
        v < 128,
    ensures
        c == v as char,
{
    let b: u8 = v as u8;
    b as char
}

/// The characters of `s` with ASCII letters lowered (`str::to_ascii_lowercase`).
pub fn ascii_lowercase(s: &[char]) -> (out: Vec<char>)
    ensures
        out@ == s@.map_values(|c: char| ascii_lower(c)),
{
    let mut out: Vec<char> = Vec::new();
    let mut k: usize = 0;
    while k < s.len()
        invariant
            k <= s@.len(),
            out@ == s@.take(k as int).map_values(|c: char| ascii_lower(c)),
        decreases s@.len() - k,
    {
        let c = lower_char(s[k]);
        out.push(c);
        assert(s@.take(k + 1).map_values(|c: char| ascii_lower(c)) =~= s@.take(
            k as int,
        ).map_values(|c: char| ascii_lower(c)).push(ascii_lower(s@[k as int])));
        k += 1;
    }
    assert(s@.take(s@.len() as int) =~= s@);
    out
}

/// Unicode `White_Space` (the set `char::is_whitespace` decides).
pub open spec fn is_ws(c: char) -> bool {
    let v = c as u32;
    ||| 0x09 <= v <= 0x0d
    ||| v == 0x20
    ||| v == 0x85
    ||| v == 0xa0
    ||| v == 0x1680
    ||| 0x2000 <= v <= 0x200a
    ||| v == 0x2028
    ||| v == 0x2029
    ||| v == 0x202f
    ||| v == 0x205f
    ||| v == 0x3000
}

/// Whether `c` is Unicode white space.
pub fn is_whitespace(c: char) -> (r: bool)
    ensures
        r == is_ws(c),
{
    let v = c as u32;
    (0x09 <= v && v <= 0x0d) || v == 0x20 || v == 0x85 || v == 0xa0 || v == 0x1680 || (0x2000
        <= v && v <= 0x200a) || v == 0x2028 || v == 0x2029 || v == 0x202f || v == 0x205f || v
        == 0x3000
}

/// The maximal runs of non-white-space characters of `s`, in order (`split_whitespace`).
pub open spec fn words(s: Seq<char>) -> Seq<Seq<char>>
    decreases s.len(),
{
    words_acc(s, 0, 0)
}

/// Words of `s` from position `i`, where `s[start..i]` is the current unfinished word.
pub open spec fn words_acc(s: Seq<char>, start: int, i: int) -> Seq<Seq<char>>
    decreases s.len() - i,
{
    if i < 0 || start < 0 || start > i || i >= s.len() {
        if 0 <= start < i <= s.len() {
            seq![s.subrange(start, i)]
        } else {
            seq![]
        }
    } else if is_ws(s[i]) {
        if start < i {
            seq![s.subrange(start, i)] + words_acc(s, i + 1, i + 1)
        } else {
            words_acc(s, i + 1, i + 1)
        }
    } else {
        words_acc(s, start, i + 1)
    }
}

/// The words of `s` joined by single spaces.
pub open spec fn join_words(ws: Seq<Seq<char>>) -> Seq<char>
    decreases ws.len(),
{
    if ws.len() == 0 {
        seq![]
    } else if ws.len() == 1 {
        ws[0]
    } else {
        join_words(ws.drop_last()) + seq![' '] + ws.last()
    }
}

/// Collapses white-space runs to single spaces and trims both ends
/// (`split_whitespace().collect::<Vec<_>>().join(" ")`).
pub open spec fn collapse_ws(s: Seq<char>) -> Seq<char> {
    join_words(words(s))
}

proof fn lemma_join_push(ws: Seq<Seq<char>>, w: Seq<char>)
    ensures
        join_words(ws.push(w)) == if ws.len() == 0 {
            w
        } else {
            join_words(ws) + seq![' '] + w
        },
{
    assert(ws.push(w).drop_last() =~= ws);
}

/// White-space collapsing of a character sequence.
pub fn collapse_whitespace(s: &[char]) -> (out: Vec<char>)
    ensures
        out@ == collapse_ws(s@),
{
    let mut out: Vec<char> = Vec::new();
    let ghost mut done: Seq<Seq<char>> = seq![];
    let mut start: usize = 0;
    let mut i: usize = 0;
    let mut have_word = false;
    while i < s.len()
        invariant
            start <= i <= s@.len(),
            have_word == (done.len() > 0),
            done + words_acc(s@, start as int, i as int) == words(s@),
            out@ == join_words(done),
            forall|j: int| start <= j < i ==> !is_ws(#[trigger] s@[j]),
        decreases s@.len() - i,
    {
        if is_whitespace(s[i]) {
            if start < i {
                proof {
                    lemma_join_push(done, s@.subrange(start as int, i as int));
                    assert(done.push(s@.subrange(start as int, i as int)) + words_acc(
                        s@,
                        i + 1,
                        i + 1,
                    ) =~= done + (seq![s@.subrange(start as int, i as int)] + words_acc(
                        s@,
                        i + 1,
                        i + 1,
                    )));
                }
                if have_word {
                    out.push(' ');
                }
                let mut k = start;
                while k < i
                    invariant
                        start <= k <= i < s@.len(),
                        out@ == (if done.len() == 0 {
                            seq![]
                        } else {
                            join_words(done) + seq![' ']
                        }) + s@.subrange(start as int, k as int),
                    decreases i - k,
                {
                    out.push(s[k]);
                    proof {
                        assert(s@.subrange(start as int, k as int).push(s@[k as int]) =~= s@.subrange(start as int, k + 1));
                    }
                    k += 1;
                }
                proof {
                    done = done.push(s@.subrange(start as int, i as int));
                }
                have_word = true;
            }
            i += 1;
            start = i;
        } else {
            i += 1;
        }
    }
    if start < i {
        proof {
            lemma_join_push(done, s@.subrange(start as int, i as int));
        }
        if have_word {
            out.push(' ');
        }
        let mut k = start;
        while k < i
            invariant
                start <= k <= i == s@.len(),
                out@ == (if done.len() == 0 {
                    seq![]
                } else {
                    join_words(done) + seq![' ']
                }) + s@.subrange(start as int, k as int),
            decreases i - k,
        {
            out.push(s[k]);
            proof {
                assert(s@.subrange(start as int, k as int).push(s@[k as int]) =~= s@.subrange(start as int, k + 1));
            }
            k += 1;
        }
        proof {
            done = done.push(s@.subrange(start as int, i as int));
        }
    }
    proof {
        assert(done =~= words(s@));
    }
    out
}

} // verus!

verus! {

/// First index at or after `i` that is not white space (or the length).
pub open spec fn skip_ws(s: Seq<char>, i: int) -> int
    decreases s.len() - i,
{
    if i < 0 || i >= s.len() || !is_ws(s[i]) {
        i
    } else {
        skip_ws(s, i + 1)
    }
}

/// First index at or after `i` that is white space (or the length).
pub open spec fn word_end(s: Seq<char>, i: int) -> int
    decreases s.len() - i,
{
    if i < 0 || i >= s.len() || is_ws(s[i]) {
        i
    } else {
        word_end(s, i + 1)
    }
}

/// Largest `k <= j` such that `s[k - 1]` is not white space (or 0).
pub open spec fn rskip_ws(s: Seq<char>, j: int) -> int
    decreases j,
{
    if j <= 0 || j > s.len() || !is_ws(s[j - 1]) {
        j
    } else {
        rskip_ws(s, j - 1)
    }
}

/// `s` without leading and trailing white space (`str::trim`).
pub open spec fn trim_ws(s: Seq<char>) -> Seq<char> {
    let a = skip_ws(s, 0);
    let b = rskip_ws(s, s.len() as int);
    if a < b {
        s.subrange(a, b)
    } else {
        seq![]
    }
}

/// The first white-space separated word of `s`, or empty.
pub open spec fn first_word(s: Seq<char>) -> Seq<char> {
    let a = skip_ws(s, 0);
    s.subrange(a, word_end(s, a))
}

proof fn lemma_word_end_no_ws(s: Seq<char>, i: int)
    requires
        0 <= i <= s.len(),
    ensures
        i <= word_end(s, i) <= s.len(),
        forall|k: int| i <= k < word_end(s, i) ==> !is_ws(#[trigger] s[k]),
    decreases s.len() - i,
{
    if i < s.len() && !is_ws(s[i]) {
        lemma_word_end_no_ws(s, i + 1);
    }
}

/// The first word holds no white space.
pub proof fn lemma_first_word_no_ws(s: Seq<char>)
    ensures
        forall|k: int| 0 <= k < first_word(s).len() ==> !is_ws(#[trigger] first_word(s)[k]),
{
    let a = skip_ws(s, 0);
    lemma_skip_ws_bounds(s, 0);
    lemma_word_end_no_ws(s, a);
    assert forall|k: int| 0 <= k < first_word(s).len() implies !is_ws(#[trigger] first_word(s)[k]) by {
        assert(first_word(s)[k] == s[a + k]);
    }
}

proof fn lemma_skip_ws_bounds(s: Seq<char>, i: int)
    requires
        0 <= i <= s.len(),
    ensures
        i <= skip_ws(s, i) <= s.len(),
        forall|k: int| i <= k < skip_ws(s, i) ==> is_ws(#[trigger] s[k]),
    decreases s.len() - i,
{
    if i < s.len() && is_ws(s[i]) {
        lemma_skip_ws_bounds(s, i + 1);
    }
}

proof fn lemma_word_end_bounds(s: Seq<char>, i: int)
    requires
        0 <= i <= s.len(),
    ensures
        i <= word_end(s, i) <= s.len(),
    decreases s.len() - i,
{
    if i < s.len() && !is_ws(s[i]) {
        lemma_word_end_bounds(s, i + 1);
    }
}

proof fn lemma_rskip_ws_bounds(s: Seq<char>, j: int)
    requires
        0 <= j <= s.len(),
    ensures
        0 <= rskip_ws(s, j) <= j,
        rskip_ws(s, j) > 0 ==> !is_ws(s[rskip_ws(s, j) - 1]),
    decreases j,
{
    if j > 0 && is_ws(s[j - 1]) {
        lemma_rskip_ws_bounds(s, j - 1);
    }
}

/// Index of the first non-white-space character at or after `i`.
pub fn skip_whitespace(s: &[char], i: usize) -> (r: usize)
    requires
        i <= s@.len(),
    ensures
        r == skip_ws(s@, i as int),
        i <= r <= s@.len(),
{
    let mut k = i;
    while k < s.len() && is_whitespace(s[k])
        invariant
            i <= k <= s@.len(),
            skip_ws(s@, k as int) == skip_ws(s@, i as int),
        decreases s@.len() - k,
    {
        k += 1;
    }
    k
}

/// Index of the first white-space character at or after `i`.
pub fn find_word_end(s: &[char], i: usize) -> (r: usize)
    requires
        i <= s@.len(),
    ensures
        r == word_end(s@, i as int),
        i <= r <= s@.len(),
{
    let mut k = i;
    while k < s.len() && !is_whitespace(s[k])
        invariant
            i <= k <= s@.len(),
            word_end(s@, k as int) == word_end(s@, i as int),
        decreases s@.len() - k,
    {
        k += 1;
    }
    k
}

/// A vector of the characters `s[a..b]`.
pub fn subrange_vec(s: &[char], a: usize, b: usize) -> (out: Vec<char>)
    requires
        a <= b <= s@.len(),
    ensures
        out@ == s@.subrange(a as int, b as int),
{
    let mut out: Vec<char> = Vec::new();
    let mut k = a;
    while k < b
        invariant
            a <= k <= b <= s@.len(),
            out@ == s@.subrange(a as int, k as int),
        decreases b - k,
    {
        out.push(s[k]);
        assert(s@.subrange(a as int, k as int).push(s@[k as int]) =~= s@.subrange(a as int, k + 1));
        k += 1;
    }
    out
}

/// `s` without leading and trailing white space.
pub fn trim_chars(s: &[char]) -> (out: Vec<char>)
    ensures
        out@ == trim_ws(s@),
{
    let a = skip_whitespace(s, 0);
    let mut b = s.len();
    while b > 0 && is_whitespace(s[b - 1])
        invariant
            b <= s@.len(),
            rskip_ws(s@, b as int) == rskip_ws(s@, s@.len() as int),
        decreases b,
    {
        b -= 1;
    }
    if a < b {
        subrange_vec(s, a, b)
    } else {
        Vec::new()
    }
}

/// The first white-space separated word of `s`.
pub fn first_word_chars(s: &[char]) -> (out: Vec<char>)
    ensures
        out@ == first_word(s@),
{
    let a = skip_whitespace(s, 0);
    let b = find_word_end(s, a);
    subrange_vec(s, a, b)
}

/// The characters of `s` before its first `c` (all of `s` when absent).
pub open spec fn before_char(s: Seq<char>, c: char) -> Seq<char> {
    s.take(first_index_of(s, c, 0))
}

/// First index at or after `i` holding `c` (or the length).
pub open spec fn first_index_of(s: Seq<char>, c: char, i: int) -> int
    decreases s.len() - i,
{
    if i < 0 || i >= s.len() || s[i] == c {
        i
    } else {
        first_index_of(s, c, i + 1)
    }
}

/// The characters of `s` before its first `c`.
pub fn before_first(s: &[char], c: char) -> (out: Vec<char>)
    ensures
        out@ == before_char(s@, c),
{
    let mut k: usize = 0;
    while k < s.len() && s[k] != c
        invariant
            k <= s@.len(),
            first_index_of(s@, c, k as int) == first_index_of(s@, c, 0),
        decreases s@.len() - k,
    {
        k += 1;
    }
    subrange_vec(s, 0, k)
}

/// The characters of `s` before the first occurrence of `p` (all of `s`
/// when `p` does not occur).
pub open spec fn text_before(s: Seq<char>, p: Seq<char>) -> Seq<char> {
    match find_from(s, p, 0) {
        Some(i) => s.take(i),
        None => s,
    }
}

/// The text of `s` before the first occurrence of `p`.
pub fn before_text(s: &str, p: &str) -> (r: String)
    ensures
        r@ == text_before(s@, p@),
{
    let x = chars_of(s);
    let y = chars_of(p);
    match find_chars(x.as_slice(), y.as_slice()) {
        Some(i) => {
            let v = subrange_vec(x.as_slice(), 0, i);
            string_of(v.as_slice())
        },
        None => String::from_str(s),
    }
}

/// The `Debug` rendering of an optional count: `Some(n)` or `None`.
pub open spec fn debug_opt(o: Option<usize>) -> Seq<char> {
    match o {
        Some(n) => "Some("@ + decimal(n as nat) + ")"@,
        None => "None"@,
    }
}

/// The `Debug` rendering of an optional count.
pub fn debug_opt_usize(o: Option<usize>) -> (r: String)
    ensures
        r@ == debug_opt(o),
{
    match o {
        Some(n) => {
            let mut s = String::from_str("Some(");
            let d = u64_decimal(n as u64);
            s.append(d.as_str());
            s.append(")");
            s
        },
        None => String::from_str("None"),
    }
}

/// Literal view helper: the characters of a string slice.
pub open spec fn chars(s: &str) -> Seq<char> {
    s@
}


/// The white-space separated words of `s` (`split_whitespace`).
pub fn split_words(s: &str) -> (out: Vec<String>)
    ensures
        out@.map_values(|w: String| w@) == words(s@),
{
    let cs = chars_of(s);
    let mut out: Vec<String> = Vec::new();
    let mut start: usize = 0;
    let mut i: usize = 0;
    while i < cs.len()
        invariant
            start <= i <= cs@.len(),
            cs@ == s@,
            out@.map_values(|w: String| w@) + words_acc(cs@, start as int, i as int) == words(cs@),
        decreases cs@.len() - i,
    {
        if is_whitespace(cs[i]) {
            if start < i {
                let w = subrange_vec(cs.as_slice(), start, i);
                let ghost prev = out@.map_values(|w: String| w@);
                out.push(string_of(w.as_slice()));
                assert(out@.map_values(|w: String| w@) =~= prev.push(cs@.subrange(start as int, i as int)));
                assert(prev + words_acc(cs@, start as int, i as int) =~= prev.push(
                    cs@.subrange(start as int, i as int),
                ) + words_acc(cs@, i + 1, i + 1));
            }
            i += 1;
            start = i;
        } else {
            i += 1;
        }
    }
    if start < i {
        let w = subrange_vec(cs.as_slice(), start, i);
        let ghost prev = out@.map_values(|w: String| w@);
        out.push(string_of(w.as_slice()));
        assert(out@.map_values(|w: String| w@) =~= prev.push(cs@.subrange(start as int, i as int)));
    }
    assert(out@.map_values(|w: String| w@) =~= words(cs@));
    out
}

} // verus!
