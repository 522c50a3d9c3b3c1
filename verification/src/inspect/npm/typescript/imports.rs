//! Conservative, package-scoped import scanning.
//!
//! Sources are masked (comments removed, strings kept), split into
//! `;`-terminated statements, and each statement is white-space normalized
//! before fixed import shapes of the Amari WASM package are recognized.

use vstd::prelude::*;

use super::mask::{mask, masked_text};
use super::scan::{line_at, line_number, located};
use super::types::{ImportV, TypeScriptImport, TypeScriptImportKind};
use crate::inspect::npm::project::amari_wasm;
use crate::inspect::snapshot::SourceLocation;
use crate::text::{
    before_char, before_first, chars_of, chars_start_with, collapse_whitespace, collapse_ws, find_chars,
    find_from, first_index_of, has_prefix, is_whitespace, is_ws, occurs_at, split_words, string_of,
    skip_whitespace, skip_ws, subrange_vec, trim_chars, trim_ws, words,
};

verus! {

/// View of a source location.
pub type LocV = (Seq<char>, Option<u32>, Option<u32>, Seq<char>);

/// An import of the Amari WASM package.
pub open spec fn import_of(
    imported: Option<Seq<char>>,
    local: Option<Seq<char>>,
    kind: TypeScriptImportKind,
    type_only: bool,
    src: LocV,
) -> ImportV {
    (amari_wasm(), imported, local, kind, type_only, src)
}

/// Views of imports.
pub open spec fn import_views(v: Seq<TypeScriptImport>) -> Seq<ImportV> {
    v.map_values(|i: TypeScriptImport| i@)
}

/// Bounds of the first index of a character at or after `i`.
pub proof fn lemma_first_index_bounds(s: Seq<char>, c: char, i: int)
    requires
        0 <= i,
    ensures
        i <= first_index_of(s, c, i),
        i <= s.len() ==> first_index_of(s, c, i) <= s.len(),
        first_index_of(s, c, i) < s.len() ==> s[first_index_of(s, c, i)] == c,
        forall|k: int| i <= k < first_index_of(s, c, i) ==> s[k] != c,
    decreases s.len() - i,
{
    if i < s.len() && s[i] != c {
        lemma_first_index_bounds(s, c, i + 1);
    }
}

/// Index of the first `c` at or after `i`, or the length when there is none.
pub fn index_from(s: &[char], c: char, i: usize) -> (r: usize)
    requires
        i <= s@.len(),
    ensures
        r == first_index_of(s@, c, i as int),
        i <= r <= s@.len(),
{
    proof {
        lemma_first_index_bounds(s@, c, i as int);
    }
    let mut k = i;
    while k < s.len() && s[k] != c
        invariant
            i <= k <= s@.len(),
            first_index_of(s@, c, k as int) == first_index_of(s@, c, i as int),
        decreases s@.len() - k,
    {
        k += 1;
    }
    k
}

// ---------------------------------------------------------------------------
// Clause parts
// ---------------------------------------------------------------------------

/// The named binding of one `{ ... }` item: `Export` or `Export as Local`.
pub open spec fn named_binding(piece: Seq<char>, type_only: bool, src: LocV) -> ImportV {
    let parts = words(piece);
    let local = if parts.len() == 3 && parts[1] == seq!['a', 's'] {
        parts[2]
    } else {
        parts[0]
    };
    import_of(Some(parts[0]), Some(local), TypeScriptImportKind::Named, type_only, src)
}

/// Named bindings of the `,`-separated items of `inner` from position `i`,
/// each trimmed, empty items skipped.
pub open spec fn named_from(inner: Seq<char>, i: int, type_only: bool, src: LocV) -> Seq<ImportV>
    decreases inner.len() + 1 - i,
{
    if i < 0 || i > inner.len() {
        seq![]
    } else {
        let e = first_index_of(inner, ',', i);
        proof {
            lemma_first_index_bounds(inner, ',', i);
        }
        let piece = trim_ws(inner.subrange(i, e));
        (if piece.len() > 0 {
            seq![named_binding(piece, type_only, src)]
        } else {
            seq![]
        }) + (if e < inner.len() {
            named_from(inner, e + 1, type_only, src)
        } else {
            seq![]
        })
    }
}

/// Index of the last `c` in `s[..j]`, or -1.
pub open spec fn last_index_of(s: Seq<char>, c: char, j: int) -> int
    decreases j,
{
    if j <= 0 {
        -1
    } else if s[j - 1] == c {
        j - 1
    } else {
        last_index_of(s, c, j - 1)
    }
}

/// Named imports of a clause: the items between its first `{` and its last
/// `}`.
pub open spec fn named_imports(clause: Seq<char>, type_only: bool, src: LocV) -> Seq<ImportV> {
    let start = first_index_of(clause, '{', 0);
    let end = last_index_of(clause, '}', clause.len() as int);
    if start >= clause.len() || end < 0 || end <= start {
        seq![]
    } else {
        named_from(clause.subrange(start + 1, end), 0, type_only, src)
    }
}

/// The word after the first `* as` of `ws` from index `i`.
pub open spec fn namespace_word(ws: Seq<Seq<char>>, i: int) -> Option<Seq<char>>
    decreases ws.len() - i,
{
    if i < 0 || i + 3 > ws.len() {
        None
    } else if ws[i] == seq!['*'] && ws[i + 1] == seq!['a', 's'] {
        Some(ws[i + 2])
    } else {
        namespace_word(ws, i + 1)
    }
}

/// `s` without trailing commas.
pub open spec fn trim_commas_end(s: Seq<char>) -> Seq<char>
    decreases s.len(),
{
    if s.len() > 0 && s.last() == ',' {
        trim_commas_end(s.drop_last())
    } else {
        s
    }
}

/// The namespace import of a clause (`* as name`), if any.
pub open spec fn namespace_imports(clause: Seq<char>, type_only: bool, src: LocV) -> Seq<ImportV> {
    match namespace_word(words(clause), 0) {
        Some(w) => seq![import_of(None, Some(trim_commas_end(w)), TypeScriptImportKind::Namespace, type_only, src)],
        None => seq![],
    }
}

/// The default import of a clause: its first `,`-separated part, when that
/// is neither a `{` list nor a `*` namespace.
pub open spec fn default_imports(clause: Seq<char>, type_only: bool, src: LocV) -> Seq<ImportV> {
    let first = trim_ws(before_char(clause, ','));
    if first.len() > 0 && first[0] != '{' && first[0] != '*' {
        seq![import_of(Some("default"@), Some(first), TypeScriptImportKind::Default, type_only, src)]
    } else {
        seq![]
    }
}

/// The `type ` keyword.
pub open spec fn type_keyword() -> Seq<char> {
    seq!['t', 'y', 'p', 'e', ' ']
}

/// `s` with every leading `type ` removed.
pub open spec fn strip_type_prefix(s: Seq<char>) -> Seq<char>
    decreases s.len(),
{
    if has_prefix(s, type_keyword()) {
        strip_type_prefix(s.skip(5))
    } else {
        s
    }
}

/// All imports named by a static import clause.
pub open spec fn clause_imports(clause: Seq<char>, type_only: bool, src: LocV) -> Seq<ImportV> {
    named_imports(clause, type_only, src) + namespace_imports(clause, type_only, src) + default_imports(
        clause,
        type_only,
        src,
    )
}

// ---------------------------------------------------------------------------
// Statements
// ---------------------------------------------------------------------------

/// `from "<package>"`.
pub open spec fn from_double() -> Seq<char> {
    "from \"@justinelliottcobb/amari-wasm\""@
}

/// `from '<package>'`.
pub open spec fn from_single() -> Seq<char> {
    "from '@justinelliottcobb/amari-wasm'"@
}

/// The static imports of a normalized statement: after its first
/// `import `, up to the first package marker.
pub open spec fn static_imports(n: Seq<char>, src: LocV) -> Seq<ImportV> {
    match find_from(n, "import "@, 0) {
        Some(st) => {
            let stmt = n.skip(st);
            let mk = match find_from(stmt, from_double(), 0) {
                Some(m) => Some(m),
                None => find_from(stmt, from_single(), 0),
            };
            match mk {
                Some(m) => {
                    let c0 = trim_ws(stmt.subrange(7, m));
                    let ty = has_prefix(c0, type_keyword());
                    let clause = if ty {
                        trim_ws(strip_type_prefix(c0))
                    } else {
                        c0
                    };
                    clause_imports(clause, ty, src)
                },
                None => seq![],
            }
        },
        None => seq![],
    }
}

/// A package import without bindings, when `present`.
pub open spec fn bare_import(present: bool, kind: TypeScriptImportKind, src: LocV) -> Seq<ImportV> {
    if present {
        seq![import_of(None, None, kind, false, src)]
    } else {
        seq![]
    }
}

/// Whether `p` occurs in `s`.
pub open spec fn holds(s: Seq<char>, p: Seq<char>) -> bool {
    find_from(s, p, 0) is Some
}

/// Dynamic, `require` and side-effect imports of a normalized statement,
/// found in its white-space-free form.
pub open spec fn bare_imports(n: Seq<char>, src: LocV) -> Seq<ImportV> {
    let c = strip_ws(n);
    bare_import(holds(c, "import(\"@justinelliottcobb/amari-wasm\")"@), TypeScriptImportKind::Dynamic, src)
        + bare_import(holds(c, "import('@justinelliottcobb/amari-wasm')"@), TypeScriptImportKind::Dynamic, src)
        + bare_import(holds(c, "require(\"@justinelliottcobb/amari-wasm\")"@), TypeScriptImportKind::Require, src)
        + bare_import(holds(c, "require('@justinelliottcobb/amari-wasm')"@), TypeScriptImportKind::Require, src)
        + bare_import(has_prefix(c, "import\"@justinelliottcobb/amari-wasm\""@), TypeScriptImportKind::SideEffect, src)
        + bare_import(has_prefix(c, "import'@justinelliottcobb/amari-wasm'"@), TypeScriptImportKind::SideEffect, src)
}

/// Imports of one `;`-terminated statement located at `src`.
pub open spec fn statement_imports(chunk: Seq<char>, src: LocV) -> Seq<ImportV> {
    let n = collapse_ws(chunk);
    static_imports(n, src) + bare_imports(n, src)
}

/// Imports of the statements of masked text `s` from position `start`, each
/// located at the line of the statement's first non-blank character.
pub open spec fn imports_from(s: Seq<char>, start: int, base: LocV) -> Seq<ImportV>
    decreases s.len() - start,
{
    if start < 0 || start >= s.len() {
        seq![]
    } else {
        let e = first_index_of(s, ';', start);
        proof {
            lemma_first_index_bounds(s, ';', start);
        }
        let end = if e < s.len() {
            e + 1
        } else {
            s.len() as int
        };
        statement_imports(
            s.subrange(start, end),
            (base.0, Some(line_number(s, skip_ws(s, start))), None::<u32>, base.3),
        )
            + imports_from(s, end, base)
    }
}

/// Imports of the Amari WASM package in a source file (comments masked).
pub open spec fn source_imports(text: Seq<char>, base: LocV) -> Seq<ImportV> {
    imports_from(masked_text(text, false), 0, base)
}

// ---------------------------------------------------------------------------
// Executable scanning
// ---------------------------------------------------------------------------

fn new_import(
    imported: Option<String>,
    local: Option<String>,
    kind: TypeScriptImportKind,
    type_only: bool,
    src: &SourceLocation,
) -> (r: TypeScriptImport)
    ensures
        r@ == import_of(
            match imported {
                Some(s) => Some(s@),
                None => None,
            },
            match local {
                Some(s) => Some(s@),
                None => None,
            },
            kind,
            type_only,
            src@,
        ),
{
    TypeScriptImport {
        package_name: String::from_str("@justinelliottcobb/amari-wasm"),
        imported_name: imported,
        local_name: local,
        kind,
        type_only,
        source: src.clone(),
    }
}

fn push_import(out: &mut Vec<TypeScriptImport>, item: TypeScriptImport)
    ensures
        import_views(final(out)@) == import_views(old(out)@).push(item@),
{
    let ghost o = out@;
    out.push(item);
    assert(import_views(out@) =~= import_views(o).push(item@));
}

proof fn lemma_skip_ws_stops(s: Seq<char>, i: int)
    requires
        0 <= i,
    ensures
        i <= crate::text::skip_ws(s, i),
        crate::text::skip_ws(s, i) < s.len() ==> !is_ws(s[crate::text::skip_ws(s, i)]),
    decreases s.len() - i,
{
    if i < s.len() && is_ws(s[i]) {
        lemma_skip_ws_stops(s, i + 1);
    }
}

proof fn lemma_rskip_ws_le(s: Seq<char>, j: int)
    ensures
        crate::text::rskip_ws(s, j) <= j,
    decreases j,
{
    if j > 0 && j <= s.len() && is_ws(s[j - 1]) {
        lemma_rskip_ws_le(s, j - 1);
    }
}

/// The first character of a non-empty trimmed text is not white space.
proof fn lemma_trim_first(s: Seq<char>)
    ensures
        trim_ws(s).len() > 0 ==> !is_ws(trim_ws(s)[0]),
{
    lemma_skip_ws_stops(s, 0);
    lemma_rskip_ws_le(s, s.len() as int);
}

proof fn lemma_words_acc_nonempty(s: Seq<char>, start: int, i: int)
    requires
        0 <= start < i <= s.len(),
    ensures
        crate::text::words_acc(s, start, i).len() > 0,
    decreases s.len() - i,
{
    if i < s.len() && !is_ws(s[i]) {
        lemma_words_acc_nonempty(s, start, i + 1);
    }
}

/// A text that starts with a non-white-space character has a word.
proof fn lemma_words_nonempty(s: Seq<char>)
    requires
        s.len() > 0,
        !is_ws(s[0]),
    ensures
        words(s).len() > 0,
{
    lemma_words_acc_nonempty(s, 0, 1);
}

fn named_binding_of(piece: &[char], type_only: bool, src: &SourceLocation) -> (r: TypeScriptImport)
    requires
        piece@.len() > 0,
        !is_ws(piece@[0]),
    ensures
        r@ == named_binding(piece@, type_only, src@),
{
    let text = string_of(piece);
    let parts = split_words(text.as_str());
    let ghost pv = parts@.map_values(|w: String| w@);
    proof {
        lemma_words_nonempty(piece@);
        reveal_strlit("as");
        assert("as"@ =~= seq!['a', 's']);
    }
    assert(pv.len() > 0);
    assert(pv[0] == parts@[0]@);
    let imported = parts[0].clone();
    let local = if parts.len() == 3 && crate::text::str_eq(parts[1].as_str(), "as") {
        assert(pv[1] == parts@[1]@);
        assert(pv[2] == parts@[2]@);
        parts[2].clone()
    } else {
        proof {
            if parts@.len() == 3 {
                assert(pv[1] == parts@[1]@);
            }
        }
        parts[0].clone()
    };
    new_import(Some(imported), Some(local), TypeScriptImportKind::Named, type_only, src)
}

fn push_named_items(inner: &[char], type_only: bool, src: &SourceLocation, out: &mut Vec<TypeScriptImport>)
    ensures
        import_views(final(out)@) == import_views(old(out)@) + named_from(inner@, 0, type_only, src@),
{
    let ghost o = import_views(out@);
    let mut i: usize = 0;
    let mut done = false;
    assert(o =~= o + Seq::<ImportV>::empty());
    while !done
        invariant
            i <= inner@.len(),
            !done ==> import_views(out@) + named_from(inner@, i as int, type_only, src@) == o + named_from(
                inner@,
                0,
                type_only,
                src@,
            ),
            done ==> import_views(out@) == o + named_from(inner@, 0, type_only, src@),
        decreases inner@.len() + 1 - i, if done { 0int } else { 1int },
    {
        let e = index_from(inner, ',', i);
        proof {
            lemma_first_index_bounds(inner@, ',', i as int);
        }
        let raw = subrange_vec(inner, i, e);
        let piece = trim_chars(raw.as_slice());
        let ghost before = import_views(out@);
        let ghost tail = if e < inner@.len() {
            named_from(inner@, e + 1, type_only, src@)
        } else {
            seq![]
        };
        assert(named_from(inner@, i as int, type_only, src@) == (if piece@.len() > 0 {
            seq![named_binding(piece@, type_only, src@)]
        } else {
            seq![]
        }) + tail);
        if piece.len() > 0 {
            proof {
                lemma_trim_first(raw@);
            }
            let item = named_binding_of(piece.as_slice(), type_only, src);
            push_import(out, item);
            assert(import_views(out@) + tail =~= before + named_from(inner@, i as int, type_only, src@));
        } else {
            assert(import_views(out@) + tail =~= before + named_from(inner@, i as int, type_only, src@));
        }
        if e < inner.len() {
            i = e + 1;
        } else {
            assert(import_views(out@) =~= import_views(out@) + tail);
            done = true;
        }
    }
}

fn last_index(s: &[char], c: char) -> (r: Option<usize>)
    ensures
        match r {
            Some(k) => k as int == last_index_of(s@, c, s@.len() as int) && k < s@.len(),
            None => last_index_of(s@, c, s@.len() as int) < 0,
        },
{
    let mut j = s.len();
    while j > 0 && s[j - 1] != c
        invariant
            j <= s@.len(),
            last_index_of(s@, c, j as int) == last_index_of(s@, c, s@.len() as int),
        decreases j,
    {
        j = j - 1;
    }
    if j == 0 {
        None
    } else {
        Some(j - 1)
    }
}

fn push_named_imports(clause: &[char], type_only: bool, src: &SourceLocation, out: &mut Vec<TypeScriptImport>)
    ensures
        import_views(final(out)@) == import_views(old(out)@) + named_imports(clause@, type_only, src@),
{
    let start = index_from(clause, '{', 0);
    match last_index(clause, '}') {
        Some(end) => {
            if start < clause.len() && start < end {
                let inner = subrange_vec(clause, start + 1, end);
                push_named_items(inner.as_slice(), type_only, src, out);
            } else {
                assert(import_views(out@) =~= import_views(out@) + Seq::<ImportV>::empty());
            }
        },
        None => {
            assert(import_views(out@) =~= import_views(out@) + Seq::<ImportV>::empty());
        },
    }
}

fn trim_commas(s: &[char]) -> (r: Vec<char>)
    ensures
        r@ == trim_commas_end(s@),
{
    let mut j = s.len();
    assert(s@.take(s@.len() as int) =~= s@);
    while j > 0 && s[j - 1] == ','
        invariant
            j <= s@.len(),
            trim_commas_end(s@.take(j as int)) == trim_commas_end(s@),
        decreases j,
    {
        assert(s@.take(j as int).drop_last() =~= s@.take(j - 1));
        j = j - 1;
    }
    assert(s@.take(s@.len() as int) =~= s@);
    let r = subrange_vec(s, 0, j);
    assert(r@ =~= s@.take(j as int));
    r
}

fn push_namespace_import(clause: &[char], type_only: bool, src: &SourceLocation, out: &mut Vec<TypeScriptImport>)
    ensures
        import_views(final(out)@) == import_views(old(out)@) + namespace_imports(clause@, type_only, src@),
{
    let ghost o = import_views(out@);
    let text = string_of(clause);
    let ws = split_words(text.as_str());
    let ghost wv = ws@.map_values(|w: String| w@);
    proof {
        reveal_strlit("*");
        reveal_strlit("as");
    }
    let mut i: usize = 0;
    assert("*"@ =~= seq!['*']);
    assert("as"@ =~= seq!['a', 's']);
    while i < ws.len() && ws.len() - i >= 3
        invariant
            i <= ws@.len(),
            "*"@ == seq!['*'],
            import_views(out@) == o,
            o == import_views(old(out)@),
            "as"@ == seq!['a', 's'],
            wv == ws@.map_values(|w: String| w@),
            wv == words(clause@),
            namespace_word(wv, i as int) == namespace_word(wv, 0),
        decreases ws@.len() - i,
    {
        assert(wv[i as int] == ws@[i as int]@);
        assert(wv[i + 1] == ws@[i + 1]@);
        if crate::text::str_eq(ws[i].as_str(), "*") && crate::text::str_eq(ws[i + 1].as_str(), "as") {
            assert(wv[i + 2] == ws@[i + 2]@);
            let w = chars_of(ws[i + 2].as_str());
            let local = trim_commas(w.as_slice());
            let item = new_import(None, Some(string_of(local.as_slice())), TypeScriptImportKind::Namespace, type_only, src);
            assert(namespace_word(wv, i as int) == Some(wv[i + 2]));
            assert(namespace_imports(clause@, type_only, src@) =~= seq![item@]);
            push_import(out, item);
            assert(import_views(out@) =~= o + namespace_imports(clause@, type_only, src@));
            return;
        }
        i = i + 1;
    }
    assert(namespace_word(wv, i as int) is None);
    assert(namespace_imports(clause@, type_only, src@) =~= Seq::<ImportV>::empty());
    assert(import_views(out@) =~= o + namespace_imports(clause@, type_only, src@));
}

fn push_default_import(clause: &[char], type_only: bool, src: &SourceLocation, out: &mut Vec<TypeScriptImport>)
    ensures
        import_views(final(out)@) == import_views(old(out)@) + default_imports(clause@, type_only, src@),
{
    let head = before_first(clause, ',');
    let first = trim_chars(head.as_slice());
    if first.len() > 0 && first[0] != '{' && first[0] != '*' {
        let item = new_import(
            Some(String::from_str("default")),
            Some(string_of(first.as_slice())),
            TypeScriptImportKind::Default,
            type_only,
            src,
        );
        push_import(out, item);
    } else {
        assert(import_views(out@) =~= import_views(out@) + Seq::<ImportV>::empty());
    }
}

fn push_clause_imports(clause: &[char], type_only: bool, src: &SourceLocation, out: &mut Vec<TypeScriptImport>)
    ensures
        import_views(final(out)@) == import_views(old(out)@) + clause_imports(clause@, type_only, src@),
{
    let ghost o = import_views(out@);
    push_named_imports(clause, type_only, src, out);
    push_namespace_import(clause, type_only, src, out);
    push_default_import(clause, type_only, src, out);
    assert(import_views(out@) =~= o + clause_imports(clause@, type_only, src@));
}

fn strip_type(s: &[char]) -> (r: Vec<char>)
    ensures
        r@ == strip_type_prefix(s@),
{
    let kw = vec!['t', 'y', 'p', 'e', ' '];
    assert(kw@ =~= type_keyword());
    let mut i: usize = 0;
    let mut cur = subrange_vec(s, 0, s.len());
    assert(cur@ =~= s@.skip(0));
    assert(cur@ =~= s@);
    let n = s.len();
    while chars_start_with(cur.as_slice(), kw.as_slice())
        invariant
            n == s@.len(),
            i <= s@.len(),
            cur@ == s@.skip(i as int),
            kw@ == type_keyword(),
            strip_type_prefix(cur@) == strip_type_prefix(s@),
        decreases s@.len() - i,
    {
        assert(cur@.len() >= 5);
        assert(cur@.skip(5) =~= s@.skip(i + 5));
        i = i + 5;
        cur = subrange_vec(s, i, s.len());
        assert(cur@ =~= s@.skip(i as int));
    }
    cur
}

proof fn lemma_find_from_occurs(s: Seq<char>, p: Seq<char>, i: int)
    requires
        find_from(s, p, i) is Some,
    ensures
        occurs_at(s, p, find_from(s, p, i)->0),
        i <= find_from(s, p, i)->0,
    decreases s.len() + 1 - i,
{
    if !(i < 0 || i + p.len() > s.len()) && !occurs_at(s, p, i) {
        lemma_find_from_occurs(s, p, i + 1);
    }
}

fn push_static_imports(n: &[char], src: &SourceLocation, out: &mut Vec<TypeScriptImport>)
    ensures
        import_views(final(out)@) == import_views(old(out)@) + static_imports(n@, src@),
{
    let imp = chars_of("import ");
    let st = match find_chars(n, imp.as_slice()) {
        Some(k) => k,
        None => {
            assert(import_views(out@) =~= import_views(out@) + Seq::<ImportV>::empty());
            return;
        },
    };
    proof {
        lemma_find_from_occurs(n@, "import "@, 0);
    }
    let stmt = subrange_vec(n, st, n.len());
    assert(stmt@ =~= n@.skip(st as int));
    let dq = chars_of("from \"@justinelliottcobb/amari-wasm\"");
    let sq = chars_of("from '@justinelliottcobb/amari-wasm'");
    proof {
        reveal_strlit("from \"@justinelliottcobb/amari-wasm\"");
        reveal_strlit("from '@justinelliottcobb/amari-wasm'");
    }
    let m = match find_chars(stmt.as_slice(), dq.as_slice()) {
        Some(k) => {
            proof {
                lemma_find_from_occurs(stmt@, from_double(), 0);
                assert(stmt@[k as int] == stmt@.subrange(k as int, k + from_double().len())[0]);
            }
            k
        },
        None => match find_chars(stmt.as_slice(), sq.as_slice()) {
            Some(k) => {
                proof {
                    lemma_find_from_occurs(stmt@, from_single(), 0);
                    assert(stmt@[k as int] == stmt@.subrange(k as int, k + from_single().len())[0]);
                }
                k
            },
            None => {
                assert(import_views(out@) =~= import_views(out@) + Seq::<ImportV>::empty());
                return;
            },
        },
    };
    proof {
        reveal_strlit("import ");
        assert(stmt@.subrange(0, 7) =~= "import "@);
        assert(stmt@[m as int] == 'f');
        if m < 7 {
            assert(stmt@.subrange(0, 7)[m as int] == stmt@[m as int]);
        }
    }
    let raw = subrange_vec(stmt.as_slice(), 7, m);
    let c0 = trim_chars(raw.as_slice());
    let kw = vec!['t', 'y', 'p', 'e', ' '];
    assert(kw@ =~= type_keyword());
    let ty = chars_start_with(c0.as_slice(), kw.as_slice());
    let clause = if ty {
        let stripped = strip_type(c0.as_slice());
        trim_chars(stripped.as_slice())
    } else {
        c0
    };
    push_clause_imports(clause.as_slice(), ty, src, out);
}

/// `s` without white space.
pub open spec fn strip_ws(s: Seq<char>) -> Seq<char>
    decreases s.len(),
{
    if s.len() == 0 {
        seq![]
    } else if is_ws(s.last()) {
        strip_ws(s.drop_last())
    } else {
        strip_ws(s.drop_last()).push(s.last())
    }
}

fn compact_chars(s: &[char]) -> (r: Vec<char>)
    ensures
        r@ == strip_ws(s@),
{
    let mut out: Vec<char> = Vec::new();
    let mut i: usize = 0;
    while i < s.len()
        invariant
            i <= s@.len(),
            out@ == strip_ws(s@.take(i as int)),
        decreases s@.len() - i,
    {
        assert(s@.take(i + 1).drop_last() =~= s@.take(i as int));
        if !is_whitespace(s[i]) {
            out.push(s[i]);
        }
        i = i + 1;
    }
    assert(s@.take(s@.len() as int) =~= s@);
    out
}

fn push_bare(present: bool, kind: TypeScriptImportKind, src: &SourceLocation, out: &mut Vec<TypeScriptImport>)
    ensures
        import_views(final(out)@) == import_views(old(out)@) + bare_import(present, kind, src@),
{
    if present {
        let item = new_import(None, None, kind, false, src);
        push_import(out, item);
    } else {
        assert(import_views(out@) =~= import_views(out@) + Seq::<ImportV>::empty());
    }
}

fn holds_text(s: &[char], p: &str) -> (r: bool)
    ensures
        r == holds(s@, p@),
{
    let q = chars_of(p);
    find_chars(s, q.as_slice()).is_some()
}

fn starts_text(s: &[char], p: &str) -> (r: bool)
    ensures
        r == has_prefix(s@, p@),
{
    let q = chars_of(p);
    chars_start_with(s, q.as_slice())
}

fn push_bare_imports(n: &[char], src: &SourceLocation, out: &mut Vec<TypeScriptImport>)
    ensures
        import_views(final(out)@) == import_views(old(out)@) + bare_imports(n@, src@),
{
    let ghost o = import_views(out@);
    let c = compact_chars(n);
    let cs = c.as_slice();
    push_bare(holds_text(cs, "import(\"@justinelliottcobb/amari-wasm\")"), TypeScriptImportKind::Dynamic, src, out);
    push_bare(holds_text(cs, "import('@justinelliottcobb/amari-wasm')"), TypeScriptImportKind::Dynamic, src, out);
    push_bare(holds_text(cs, "require(\"@justinelliottcobb/amari-wasm\")"), TypeScriptImportKind::Require, src, out);
    push_bare(holds_text(cs, "require('@justinelliottcobb/amari-wasm')"), TypeScriptImportKind::Require, src, out);
    push_bare(starts_text(cs, "import\"@justinelliottcobb/amari-wasm\""), TypeScriptImportKind::SideEffect, src, out);
    push_bare(starts_text(cs, "import'@justinelliottcobb/amari-wasm'"), TypeScriptImportKind::SideEffect, src, out);
    assert(import_views(out@) =~= o + bare_imports(n@, src@));
}

fn push_statement_imports(chunk: &[char], src: &SourceLocation, out: &mut Vec<TypeScriptImport>)
    ensures
        import_views(final(out)@) == import_views(old(out)@) + statement_imports(chunk@, src@),
{
    let ghost o = import_views(out@);
    let n = collapse_whitespace(chunk);
    push_static_imports(n.as_slice(), src, out);
    push_bare_imports(n.as_slice(), src, out);
    assert(import_views(out@) =~= o + statement_imports(chunk@, src@));
}

/// Package-scoped imports of one source file, statement by statement, each
/// located at the line of its statement's first non-blank character.
pub fn scan_imports(text: &str, base: &SourceLocation) -> (r: Vec<TypeScriptImport>)
    ensures
        import_views(r@) == source_imports(text@, base@),
{
    let cleaned = mask(text, false);
    let s = chars_of(cleaned.as_str());
    let ghost sv = s@;
    let mut out: Vec<TypeScriptImport> = Vec::new();
    let mut start: usize = 0;
    while start < s.len()
        invariant
            sv == s@,
            sv == masked_text(text@, false),
            start <= sv.len(),
            import_views(out@) + imports_from(sv, start as int, base@) == imports_from(sv, 0, base@),
        decreases sv.len() - start,
    {
        let e = index_from(s.as_slice(), ';', start);
        proof {
            lemma_first_index_bounds(sv, ';', start as int);
        }
        let end = if e < s.len() { e + 1 } else { s.len() };
        let chunk = subrange_vec(s.as_slice(), start, end);
        let first = skip_whitespace(s.as_slice(), start);
        let line = line_at(s.as_slice(), first);
        let src = located(base, Some(line));
        let ghost before = import_views(out@);
        push_statement_imports(chunk.as_slice(), &src, &mut out);
        assert(import_views(out@) + imports_from(sv, end as int, base@) =~= before + imports_from(
            sv,
            start as int,
            base@,
        ));
        start = end;
    }
    assert(import_views(out@) =~= import_views(out@) + imports_from(sv, start as int, base@));
    out
}

} // verus!
