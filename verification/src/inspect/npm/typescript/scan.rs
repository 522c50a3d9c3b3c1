//! Per-file TypeScript scans: candidate names, file roles, runtime signals
//! and fixed domain vocabulary.

use vstd::prelude::*;

use super::mask::{mask, masked_text};
use super::types::{
    TypeScriptFileRole, TypeScriptRuntimeEvidence, TypeScriptRuntimeSignal, TypeScriptVocabularyEvidence,
};
use crate::inspect::snapshot::SourceLocation;
use crate::text::{
    ascii_lower, ascii_lowercase, chars_of, find_chars, find_from, has_prefix, has_suffix, occurs_at,
    str_ends_with,
};

verus! {

// ---------------------------------------------------------------------------
// Candidate names
// ---------------------------------------------------------------------------

/// Whether a file name is a JavaScript/TypeScript source (declaration files
/// excluded).
pub open spec fn ts_source_name(n: Seq<char>) -> bool {
    &&& !has_suffix(n, ".d.ts"@)
    &&& {
        ||| has_suffix(n, ".ts"@)
        ||| has_suffix(n, ".tsx"@)
        ||| has_suffix(n, ".mts"@)
        ||| has_suffix(n, ".cts"@)
        ||| has_suffix(n, ".js"@)
        ||| has_suffix(n, ".jsx"@)
        ||| has_suffix(n, ".mjs"@)
        ||| has_suffix(n, ".cjs"@)
    }
}

/// Whether `name` is a JavaScript/TypeScript source file name.
pub fn is_source_name(name: &str) -> (r: bool)
    ensures
        r == ts_source_name(name@),
{
    !str_ends_with(name, ".d.ts") && (str_ends_with(name, ".ts") || str_ends_with(name, ".tsx")
        || str_ends_with(name, ".mts") || str_ends_with(name, ".cts") || str_ends_with(name, ".js")
        || str_ends_with(name, ".jsx") || str_ends_with(name, ".mjs") || str_ends_with(name, ".cjs"))
}

// ---------------------------------------------------------------------------
// Lines and locations
// ---------------------------------------------------------------------------

/// Number of newlines in `s`.
pub open spec fn newlines(s: Seq<char>) -> nat
    decreases s.len(),
{
    if s.len() == 0 {
        0
    } else {
        newlines(s.drop_last()) + if s.last() == '\n' {
            1nat
        } else {
            0nat
        }
    }
}

/// The 1-based line of position `k` of `s` (saturating, then truncated to
/// 32 bits).
pub open spec fn line_number(s: Seq<char>, k: int) -> u32 {
    let c: int = newlines(s.take(if k < s.len() { k } else { s.len() as int })) as int;
    let n = if c + 1 > usize::MAX { usize::MAX as int } else { c + 1int };
    n as u32
}

/// The 1-based line holding position `k` of `s`.
pub fn line_at(s: &[char], k: usize) -> (r: u32)
    ensures
        r == line_number(s@, k as int),
{
    let end = if k < s.len() { k } else { s.len() };
    let mut count: usize = 0;
    let mut i: usize = 0;
    while i < end
        invariant
            i <= end <= s@.len(),
            count == newlines(s@.take(i as int)),
            count <= i,
        decreases end - i,
    {
        assert(s@.take(i + 1).drop_last() =~= s@.take(i as int));
        if s[i] == '\n' {
            count = count + 1;
        }
        i = i + 1;
    }
    let n = count.saturating_add(1);
    #[verifier::truncate]
    (n as u32)
}

/// `base` at `line`, without a column.
pub fn located(base: &SourceLocation, line: Option<u32>) -> (r: SourceLocation)
    ensures
        r@ == (base@.0, line, None::<u32>, base@.3),
{
    SourceLocation {
        path: base.path.clone(),
        line,
        column: None,
        content_hash: base.content_hash.clone(),
    }
}

// ---------------------------------------------------------------------------
// Bounded words
// ---------------------------------------------------------------------------

/// Identifier characters: ASCII letters, digits and `_`.
pub open spec fn ident_char(c: char) -> bool {
    ('0' <= c && c <= '9') || ('a' <= c && c <= 'z') || ('A' <= c && c <= 'Z') || c == '_'
}

/// Whether `c` is a word character: an identifier character in identifier
/// mode, anything but `/` in path mode.
pub open spec fn word_char(c: char, ident: bool) -> bool {
    if ident {
        ident_char(c)
    } else {
        c != '/'
    }
}

/// Whether `w` occurs at `i` of `t` as a whole word: all of its characters
/// are word characters and its neighbours are not.
pub open spec fn word_at(t: Seq<char>, w: Seq<char>, i: int, ident: bool) -> bool {
    &&& occurs_at(t, w, i)
    &&& forall|k: int| 0 <= k < w.len() ==> #[trigger] word_char(w[k], ident)
    &&& (i == 0 || !word_char(t[i - 1], ident))
    &&& (i + w.len() == t.len() || !word_char(t[i + w.len()], ident))
}

/// Whether `w` is one of the words of `t` (`t.split(not word char).any(== w)`).
pub open spec fn has_word(t: Seq<char>, w: Seq<char>, ident: bool) -> bool {
    exists|i: int| word_at(t, w, i, ident)
}

fn is_word_char(c: char, ident: bool) -> (r: bool)
    ensures
        r == word_char(c, ident),
{
    if ident {
        ('0' <= c && c <= '9') || ('a' <= c && c <= 'z') || ('A' <= c && c <= 'Z') || c == '_'
    } else {
        c != '/'
    }
}

fn occurs_here(t: &[char], w: &[char], i: usize) -> (r: bool)
    requires
        i + w@.len() <= t@.len(),
    ensures
        r == occurs_at(t@, w@, i as int),
{
    let tl = t.len();
    let mut k: usize = 0;
    while k < w.len()
        invariant
            i + w@.len() <= t@.len(),
            tl == t@.len(),
            k <= w@.len(),
            forall|j: int| 0 <= j < k ==> t@[i + j] == w@[j],
        decreases w@.len() - k,
    {
        if t[i + k] != w[k] {
            assert(t@.subrange(i as int, i + w@.len())[k as int] != w@[k as int]);
            return false;
        }
        k = k + 1;
    }
    assert(t@.subrange(i as int, i + w@.len()) =~= w@);
    true
}

/// Whether `w` is a whole word of `t`.
pub fn has_bounded_word(t: &[char], w: &[char], ident: bool) -> (r: bool)
    ensures
        r == has_word(t@, w@, ident),
{
    let mut k: usize = 0;
    while k < w.len()
        invariant
            k <= w@.len(),
            forall|j: int| 0 <= j < k ==> #[trigger] word_char(w@[j], ident),
        decreases w@.len() - k,
    {
        if !is_word_char(w[k], ident) {
            assert(forall|i: int| !word_at(t@, w@, i, ident)) by {
                assert(!word_char(w@[k as int], ident));
            }
            return false;
        }
        k = k + 1;
    }
    if w.len() > t.len() {
        assert(forall|i: int| !word_at(t@, w@, i, ident));
        return false;
    }
    let last = t.len() - w.len();
    let mut i: usize = 0;
    let mut done = false;
    while !done
        invariant
            last + w@.len() == t@.len(),
            i <= last,
            forall|j: int| 0 <= j < w@.len() ==> #[trigger] word_char(w@[j], ident),
            forall|j: int| 0 <= j < i ==> !word_at(t@, w@, j, ident),
            done ==> !word_at(t@, w@, i as int, ident) && i == last,
        decreases last - i + if done { 0int } else { 1int },
    {
        let left = i == 0 || !is_word_char(t[i - 1], ident);
        let end = i + w.len();
        let right = end == t.len() || !is_word_char(t[end], ident);
        if left && right && occurs_here(t, w, i) {
            assert(word_at(t@, w@, i as int, ident));
            return true;
        }
        if i == last {
            done = true;
        } else {
            i = i + 1;
        }
    }
    assert(done);
    assert forall|j: int| !word_at(t@, w@, j, ident) by {
        if j < 0 {
            assert(!occurs_at(t@, w@, j));
        } else if j < i {
        } else if j == i {
        } else {
            assert(!occurs_at(t@, w@, j));
        }
    }
    false
}

/// Whether `text` holds `identifier` as a whole identifier token.
pub fn has_identifier(text: &[char], identifier: &str) -> (r: bool)
    ensures
        r == has_word(text@, identifier@, true),
{
    let id = chars_of(identifier);
    has_bounded_word(text, id.as_slice(), true)
}

// ---------------------------------------------------------------------------
// Path segments and roles
// ---------------------------------------------------------------------------

/// Start of the last `/`-separated segment of `p[..j]`.
pub open spec fn segment_start(p: Seq<char>, j: int) -> int
    decreases j,
{
    if j <= 0 {
        0
    } else if p[j - 1] == '/' {
        j
    } else {
        segment_start(p, j - 1)
    }
}

/// The last `/`-separated segment of `p` (`rsplit('/').next()`).
pub open spec fn last_segment(p: Seq<char>) -> Seq<char> {
    p.skip(segment_start(p, p.len() as int))
}

/// The last `/`-separated segment of `p`.
pub fn last_segment_of(p: &[char]) -> (r: Vec<char>)
    ensures
        r@ == last_segment(p@),
{
    let mut j = p.len();
    while j > 0 && p[j - 1] != '/'
        invariant
            j <= p@.len(),
            segment_start(p@, p@.len() as int) == segment_start(p@, j as int),
        decreases j,
    {
        j = j - 1;
    }
    let mut out: Vec<char> = Vec::new();
    let mut k = j;
    while k < p.len()
        invariant
            j <= k <= p@.len(),
            out@ == p@.subrange(j as int, k as int),
        decreases p@.len() - k,
    {
        out.push(p[k]);
        k = k + 1;
    }
    assert(out@ =~= p@.skip(j as int));
    out
}

/// Whether `s` occurs in `t`.
pub open spec fn contains(t: Seq<char>, s: Seq<char>) -> bool {
    find_from(t, s, 0) is Some
}

/// The project role of a normalized path: tests first, then examples, then
/// configuration, else ordinary source.
pub open spec fn file_role(path: Seq<char>) -> TypeScriptFileRole {
    let lower = path.map_values(|c: char| ascii_lower(c));
    let name = last_segment(lower);
    if contains(name, ".test."@) || contains(name, ".spec."@) || has_word(lower, "test"@, false)
        || has_word(lower, "tests"@, false) || has_word(lower, "__tests__"@, false) {
        TypeScriptFileRole::Test
    } else if has_word(lower, "example"@, false) || has_word(lower, "examples"@, false) || has_word(
        lower,
        "demo"@,
        false,
    ) || has_word(lower, "demos"@, false) {
        TypeScriptFileRole::Example
    } else if contains(name, "config."@) {
        TypeScriptFileRole::Config
    } else {
        TypeScriptFileRole::Source
    }
}

fn contains_str(t: &[char], s: &str) -> (r: bool)
    ensures
        r == contains(t@, s@),
{
    let p = chars_of(s);
    find_chars(t, p.as_slice()).is_some()
}

fn has_segment(t: &[char], s: &str) -> (r: bool)
    ensures
        r == has_word(t@, s@, false),
{
    let p = chars_of(s);
    has_bounded_word(t, p.as_slice(), false)
}

/// The conservative project role of a normalized path.
pub fn classify_file(path: &str) -> (r: TypeScriptFileRole)
    ensures
        r == file_role(path@),
{
    let chars = chars_of(path);
    let lower = ascii_lowercase(chars.as_slice());
    let name = last_segment_of(lower.as_slice());
    let l = lower.as_slice();
    let n = name.as_slice();
    if contains_str(n, ".test.") || contains_str(n, ".spec.") || has_segment(l, "test") || has_segment(
        l,
        "tests",
    ) || has_segment(l, "__tests__") {
        TypeScriptFileRole::Test
    } else if has_segment(l, "example") || has_segment(l, "examples") || has_segment(l, "demo")
        || has_segment(l, "demos") {
        TypeScriptFileRole::Example
    } else if contains_str(n, "config.") {
        TypeScriptFileRole::Config
    } else {
        TypeScriptFileRole::Source
    }
}

// ---------------------------------------------------------------------------
// Runtime signals
// ---------------------------------------------------------------------------

/// The runtime and bundler signals of a source file, in signal order: the
/// file name selects Vite or Webpack, and whole identifiers of the code
/// (comments and strings masked) select browser, Node.js and WebAssembly.
pub open spec fn runtime_signals(path: Seq<char>, text: Seq<char>) -> Seq<TypeScriptRuntimeSignal> {
    let name = last_segment(path);
    let code = masked_text(text, true);
    (if has_prefix(name, "vite.config."@) {
        seq![TypeScriptRuntimeSignal::Vite]
    } else {
        seq![]
    }) + (if has_prefix(name, "webpack.config."@) {
        seq![TypeScriptRuntimeSignal::Webpack]
    } else {
        seq![]
    }) + (if has_word(code, "window"@, true) || has_word(code, "document"@, true) || has_word(
        code,
        "navigator"@,
        true,
    ) {
        seq![TypeScriptRuntimeSignal::Browser]
    } else {
        seq![]
    }) + (if has_word(code, "process"@, true) || has_word(code, "Buffer"@, true) || has_word(
        code,
        "__dirname"@,
        true,
    ) || has_word(code, "__filename"@, true) {
        seq![TypeScriptRuntimeSignal::Node]
    } else {
        seq![]
    }) + (if has_word(code, "WebAssembly"@, true) {
        seq![TypeScriptRuntimeSignal::WebAssembly]
    } else {
        seq![]
    })
}

/// Signals of runtime evidence.
pub open spec fn signals_of(v: Seq<TypeScriptRuntimeEvidence>) -> Seq<TypeScriptRuntimeSignal> {
    v.map_values(|e: TypeScriptRuntimeEvidence| e.signal)
}

fn push_signal(
    out: &mut Vec<TypeScriptRuntimeEvidence>,
    signal: TypeScriptRuntimeSignal,
    base: &SourceLocation,
)
    ensures
        signals_of(final(out)@) == signals_of(old(out)@).push(signal),
        final(out)@.len() == old(out)@.len() + 1,
        forall|k: int| 0 <= k < old(out)@.len() ==> #[trigger] final(out)@[k] == old(out)@[k],
        final(out)@.last().source@ == base@,
{
    let ghost o = out@;
    out.push(TypeScriptRuntimeEvidence { signal, source: base.clone() });
    assert(signals_of(out@) =~= signals_of(o).push(signal));
}

/// The runtime and bundler signals of one source file, each located at `base`.
pub fn scan_runtime(path: &str, text: &str, base: &SourceLocation) -> (r: Vec<TypeScriptRuntimeEvidence>)
    ensures
        signals_of(r@) == runtime_signals(path@, text@),
        forall|k: int| 0 <= k < r@.len() ==> (#[trigger] r@[k]).source@ == base@,
{
    let p = chars_of(path);
    let name = last_segment_of(p.as_slice());
    let code_text = mask(text, true);
    let code = chars_of(code_text.as_str());
    let c = code.as_slice();
    let ghost expected = runtime_signals(path@, text@);
    let mut out: Vec<TypeScriptRuntimeEvidence> = Vec::new();
    let ghost mut so_far: Seq<TypeScriptRuntimeSignal> = seq![];
    let vite = crate::text::chars_start_with(name.as_slice(), chars_of("vite.config.").as_slice());
    if vite {
        push_signal(&mut out, TypeScriptRuntimeSignal::Vite, base);
    }
    let webpack = crate::text::chars_start_with(name.as_slice(), chars_of("webpack.config.").as_slice());
    if webpack {
        push_signal(&mut out, TypeScriptRuntimeSignal::Webpack, base);
    }
    let browser = has_identifier(c, "window") || has_identifier(c, "document") || has_identifier(
        c,
        "navigator",
    );
    if browser {
        push_signal(&mut out, TypeScriptRuntimeSignal::Browser, base);
    }
    let node = has_identifier(c, "process") || has_identifier(c, "Buffer") || has_identifier(c, "__dirname")
        || has_identifier(c, "__filename");
    if node {
        push_signal(&mut out, TypeScriptRuntimeSignal::Node, base);
    }
    let wasm = has_identifier(c, "WebAssembly");
    if wasm {
        push_signal(&mut out, TypeScriptRuntimeSignal::WebAssembly, base);
    }
    assert(signals_of(out@) =~= expected);
    out
}

// ---------------------------------------------------------------------------
// Vocabulary
// ---------------------------------------------------------------------------

/// One vocabulary hit: the canonical term and the position of the first
/// occurrence of its needle in the lowercased text.
pub open spec fn term_hit(lower: Seq<char>, needle: Seq<char>, canonical: Seq<char>) -> Seq<(Seq<char>, int)> {
    match find_from(lower, needle, 0) {
        Some(k) => seq![(canonical, k)],
        None => seq![],
    }
}

/// Fixed domain vocabulary found in `text`, in table order, each with the
/// position of its first case-insensitive occurrence.
pub open spec fn vocabulary_hits(text: Seq<char>) -> Seq<(Seq<char>, int)> {
    let lower = text.map_values(|c: char| ascii_lower(c));
    term_hit(lower, "geometric algebra"@, "geometric algebra"@) + term_hit(lower, "multivector"@, "multivector"@)
        + term_hit(lower, "rotor"@, "rotor"@) + term_hit(lower, "tropical"@, "tropical algebra"@) + term_hit(
        lower,
        "dual number"@,
        "dual number"@,
    ) + term_hit(lower, "surreal"@, "surreal number"@) + term_hit(
        lower,
        "combinatorial game"@,
        "combinatorial game theory"@,
    ) + term_hit(lower, "clifford"@, "Clifford algebra"@)
}

/// View of vocabulary evidence: term and location.
pub open spec fn vocabulary_view(e: TypeScriptVocabularyEvidence) -> (Seq<char>, (
    Seq<char>,
    Option<u32>,
    Option<u32>,
    Seq<char>,
)) {
    (e.term@, e.source@)
}

/// Vocabulary evidence `text` yields at `base`: each hit located at the
/// line of its first occurrence.
pub open spec fn vocabulary_evidence(text: Seq<char>, base: (Seq<char>, Option<u32>, Option<u32>, Seq<char>)) -> Seq<
    (Seq<char>, (Seq<char>, Option<u32>, Option<u32>, Seq<char>)),
> {
    vocabulary_hits(text).map_values(
        |h: (Seq<char>, int)| (h.0, (base.0, Some(line_number(text, h.1)), None::<u32>, base.3)),
    )
}

fn push_term(
    lower: &[char],
    text: &[char],
    needle: &str,
    canonical: &str,
    base: &SourceLocation,
    out: &mut Vec<TypeScriptVocabularyEvidence>,
)
    ensures
        final(out)@.map_values(|e: TypeScriptVocabularyEvidence| vocabulary_view(e)) == old(out)@.map_values(
            |e: TypeScriptVocabularyEvidence| vocabulary_view(e),
        ) + term_hit(lower@, needle@, canonical@).map_values(
            |h: (Seq<char>, int)| (h.0, (base@.0, Some(line_number(text@, h.1)), None::<u32>, base@.3)),
        ),
{
    let n = chars_of(needle);
    let ghost o = out@;
    match find_chars(lower, n.as_slice()) {
        Some(k) => {
            let line = line_at(text, k);
            out.push(
                TypeScriptVocabularyEvidence { term: String::from_str(canonical), source: located(base, Some(line)) },
            );
            assert(out@.map_values(|e: TypeScriptVocabularyEvidence| vocabulary_view(e)) =~= o.map_values(
                |e: TypeScriptVocabularyEvidence| vocabulary_view(e),
            ) + term_hit(lower@, needle@, canonical@).map_values(
                |h: (Seq<char>, int)| (h.0, (base@.0, Some(line_number(text@, h.1)), None::<u32>, base@.3)),
            ));
        },
        None => {
            assert(o.map_values(|e: TypeScriptVocabularyEvidence| vocabulary_view(e)) =~= o.map_values(
                |e: TypeScriptVocabularyEvidence| vocabulary_view(e),
            ) + term_hit(lower@, needle@, canonical@).map_values(
                |h: (Seq<char>, int)| (h.0, (base@.0, Some(line_number(text@, h.1)), None::<u32>, base@.3)),
            ));
        },
    }
}

/// Fixed domain vocabulary of one source file.
pub fn scan_vocabulary(text: &str, base: &SourceLocation) -> (r: Vec<TypeScriptVocabularyEvidence>)
    ensures
        r@.map_values(|e: TypeScriptVocabularyEvidence| vocabulary_view(e)) == vocabulary_evidence(text@, base@),
{
    let t = chars_of(text);
    let lower = ascii_lowercase(t.as_slice());
    let l = lower.as_slice();
    let ts = t.as_slice();
    let mut out: Vec<TypeScriptVocabularyEvidence> = Vec::new();
    push_term(l, ts, "geometric algebra", "geometric algebra", base, &mut out);
    push_term(l, ts, "multivector", "multivector", base, &mut out);
    push_term(l, ts, "rotor", "rotor", base, &mut out);
    push_term(l, ts, "tropical", "tropical algebra", base, &mut out);
    push_term(l, ts, "dual number", "dual number", base, &mut out);
    push_term(l, ts, "surreal", "surreal number", base, &mut out);
    push_term(l, ts, "combinatorial game", "combinatorial game theory", base, &mut out);
    push_term(l, ts, "clifford", "Clifford algebra", base, &mut out);
    let ghost lw = text@.map_values(|c: char| ascii_lower(c));
    let ghost f = |h: (Seq<char>, int)| (h.0, (base@.0, Some(line_number(text@, h.1)), None::<u32>, base@.3));
    assert(vocabulary_evidence(text@, base@) =~= term_hit(lw, "geometric algebra"@, "geometric algebra"@).map_values(f)
        + term_hit(lw, "multivector"@, "multivector"@).map_values(f) + term_hit(lw, "rotor"@, "rotor"@).map_values(f)
        + term_hit(lw, "tropical"@, "tropical algebra"@).map_values(f) + term_hit(lw, "dual number"@, "dual number"@).map_values(f)
        + term_hit(lw, "surreal"@, "surreal number"@).map_values(f) + term_hit(lw, "combinatorial game"@, "combinatorial game theory"@).map_values(f)
        + term_hit(lw, "clifford"@, "Clifford algebra"@).map_values(f));
    out
}

} // verus!
