//! Bounded curated vocabulary extraction from source-anchored doc segments,
//! comment segments, and README text.
//!
//! Matching is ASCII case-insensitive over bytes. Every evidence record is
//! anchored by a 1-based line/column location when one is known.

use vstd::prelude::*;
use vstd::string::StringSliceAdditionalSpecFns;

use crate::inspect::rust::comments::AnnotatedSegment;
use crate::inspect::rust::parser::{count_le, spec_line_col, strictly_increasing, DocSegment, LineOffsets};
use crate::inspect::rust::types::VocabularyEvidence;
use crate::inspect::snapshot::SourceLocation;
use crate::order::{char_lex_lt, lemma_char_lex_asymmetric, lemma_char_lex_irreflexive, lemma_char_lex_transitive};

verus! {

/// Maximum number of vocabulary evidence records kept per file.
pub const MAX_VOCAB_PER_FILE: usize = 20;

/// Number of curated vocabulary terms.
pub const VOCAB_TERM_COUNT: usize = 16;

// ---------------------------------------------------------------------------
// ASCII case-insensitive matching
// ---------------------------------------------------------------------------

/// ASCII lowercase of a byte.
pub open spec fn lower_byte(c: u8) -> u8 {
    if 0x41 <= c && c <= 0x5a {
        (c + 32) as u8
    } else {
        c
    }
}

/// `p` matches `t` at `s`, ASCII-case-insensitively, over ASCII text bytes.
pub open spec fn ci_match_at(t: Seq<u8>, p: Seq<u8>, s: int) -> bool {
    &&& 0 <= s
    &&& s + p.len() <= t.len()
    &&& forall|j: int|
        0 <= j < p.len() ==> #[trigger] t[s + j] < 128 && lower_byte(t[s + j]) == lower_byte(p[j])
}

/// The first match position at or after `s`.
pub open spec fn first_ci_match(t: Seq<u8>, p: Seq<u8>, s: int) -> Option<int>
    decreases t.len() - s,
{
    if s < 0 || s + p.len() > t.len() {
        None
    } else if ci_match_at(t, p, s) {
        Some(s)
    } else {
        first_ci_match(t, p, s + 1)
    }
}

/// Whether every byte of `p` is ASCII.
pub open spec fn all_ascii(p: Seq<u8>) -> bool {
    forall|j: int| 0 <= j < p.len() ==> #[trigger] p[j] < 128
}

/// The first ASCII-case-insensitive occurrence of a nonempty ASCII pattern.
pub open spec fn find_ci(t: Seq<u8>, p: Seq<u8>) -> Option<int> {
    if p.len() == 0 || p.len() > t.len() || !all_ascii(p) {
        None
    } else {
        first_ci_match(t, p, 0)
    }
}

fn lower_u8(c: u8) -> (r: u8)
    ensures
        r == lower_byte(c),
{
    if 0x41 <= c && c <= 0x5a {
        c + 32
    } else {
        c
    }
}

fn match_at(t: &[u8], p: &[u8], s: usize) -> (r: bool)
    requires
        s + p@.len() <= t@.len(),
    ensures
        r == ci_match_at(t@, p@, s as int),
{
    let mut j: usize = 0;
    while j < p.len()
        invariant
            s + p@.len() <= t@.len(),
            j <= p@.len(),
            forall|i: int|
                0 <= i < j ==> #[trigger] t@[s + i] < 128 && lower_byte(t@[s + i]) == lower_byte(
                    p@[i],
                ),
        decreases p@.len() - j,
    {
        assert(s + j < t.len());
        let tc = t[s + j];
        if tc >= 128 || lower_u8(tc) != lower_u8(p[j]) {
            assert(!(t@[s + j] < 128 && lower_byte(t@[s + j]) == lower_byte(p@[j as int])));
            return false;
        }
        j += 1;
    }
    true
}

/// First ASCII-case-insensitive occurrence of `p` in `t` (byte offset).
pub fn find_ci_bytes(t: &[u8], p: &[u8]) -> (r: Option<usize>)
    ensures
        match (r, find_ci(t@, p@)) {
            (Some(a), Some(b)) => a == b && a + p@.len() <= t@.len(),
            (None, None) => true,
            _ => false,
        },
{
    let pl = p.len();
    let tl = t.len();
    if pl == 0 || pl > tl {
        return None;
    }
    let mut j: usize = 0;
    while j < pl
        invariant
            pl == p@.len(),
            j <= pl,
            forall|i: int| 0 <= i < j ==> #[trigger] p@[i] < 128,
        decreases pl - j,
    {
        if p[j] >= 128 {
            assert(!all_ascii(p@));
            return None;
        }
        j += 1;
    }
    let mut s: usize = 0;
    while s <= tl - pl
        invariant
            pl == p@.len(),
            tl == t@.len(),
            0 < pl <= tl,
            all_ascii(p@),
            s <= tl - pl + 1,
            first_ci_match(t@, p@, s as int) == first_ci_match(t@, p@, 0),
        decreases tl - pl + 1 - s,
    {
        if match_at(t, p, s) {
            return Some(s);
        }
        s += 1;
    }
    None
}

/// First ASCII-case-insensitive occurrence of `pattern` in `text`, as a
/// byte offset. Empty or non-ASCII patterns never match.
pub fn find_ascii_case_insensitive(text: &str, pattern: &str) -> (r: Option<usize>)
    ensures
        match (r, find_ci(text.spec_bytes(), pattern.spec_bytes())) {
            (Some(a), Some(b)) => a == b,
            (None, None) => true,
            _ => false,
        },
{
    find_ci_bytes(text.as_bytes(), pattern.as_bytes())
}

// ---------------------------------------------------------------------------
// Vocabulary table
// ---------------------------------------------------------------------------

/// Normalized name of term `t`.
pub open spec fn term_name(t: int) -> Seq<char> {
    if t == 0 {
        "tropical_algebra"@
    } else if t == 1 {
        "shortest_path"@
    } else if t == 2 {
        "geometric_algebra"@
    } else if t == 3 {
        "autodiff"@
    } else if t == 4 {
        "wasm"@
    } else if t == 5 {
        "no_std"@
    } else if t == 6 {
        "ffi"@
    } else if t == 7 {
        "native_linker"@
    } else if t == 8 {
        "blas"@
    } else if t == 9 {
        "gpu"@
    } else if t == 10 {
        "network_optimization"@
    } else if t == 11 {
        "dynamical_systems"@
    } else if t == 12 {
        "topology"@
    } else if t == 13 {
        "information_geometry"@
    } else if t == 14 {
        "holographic"@
    } else {
        "game_theory"@
    }
}

/// Position of term `t`'s name in byte-lexicographic order of all names.
pub open spec fn term_rank(t: int) -> int {
    if t == 0 {
        14
    } else if t == 1 {
        12
    } else if t == 2 {
        5
    } else if t == 3 {
        0
    } else if t == 4 {
        15
    } else if t == 5 {
        11
    } else if t == 6 {
        3
    } else if t == 7 {
        9
    } else if t == 8 {
        1
    } else if t == 9 {
        6
    } else if t == 10 {
        10
    } else if t == 11 {
        2
    } else if t == 12 {
        13
    } else if t == 13 {
        8
    } else if t == 14 {
        7
    } else {
        4
    }
}

/// Number of patterns of term `t`.
pub open spec fn pattern_count(t: int) -> int {
    if t == 0 || t == 4 || t == 7 || t == 8 || t == 11 || t == 12 {
        6
    } else if t == 1 || t == 6 || t == 10 || t == 13 {
        4
    } else if t == 2 || t == 3 || t == 5 || t == 9 {
        8
    } else {
        5
    }
}

/// Pattern `k` of term `t`.
pub open spec fn term_pattern(t: int, k: int) -> Seq<char> {
    if t == 0 {
        if k == 0 {
            "tropical algebra"@
        } else if k == 1 {
            "max-plus"@
        } else if k == 2 {
            "maxplus"@
        } else if k == 3 {
            "min-plus"@
        } else if k == 4 {
            "minplus"@
        } else {
            "tropical semiring"@
        }
    } else if t == 1 {
        if k == 0 {
            "shortest path"@
        } else if k == 1 {
            "shortest-path"@
        } else if k == 2 {
            "dijkstra"@
        } else {
            "viterbi"@
        }
    } else if t == 2 {
        if k == 0 {
            "geometric algebra"@
        } else if k == 1 {
            "clifford algebra"@
        } else if k == 2 {
            "clifford"@
        } else if k == 3 {
            "multivector"@
        } else if k == 4 {
            "bivector"@
        } else if k == 5 {
            "trivector"@
        } else if k == 6 {
            "rotor"@
        } else {
            "geometric product"@
        }
    } else if t == 3 {
        if k == 0 {
            "autodiff"@
        } else if k == 1 {
            "automatic differentiation"@
        } else if k == 2 {
            "dual number"@
        } else if k == 3 {
            "dual numbers"@
        } else if k == 4 {
            "forward mode"@
        } else if k == 5 {
            "forward-mode"@
        } else if k == 6 {
            "reverse mode"@
        } else {
            "reverse-mode"@
        }
    } else if t == 4 {
        if k == 0 {
            "wasm"@
        } else if k == 1 {
            "webassembly"@
        } else if k == 2 {
            "web assembly"@
        } else if k == 3 {
            "wasm-bindgen"@
        } else if k == 4 {
            "wasm-pack"@
        } else {
            "wasm target"@
        }
    } else if t == 5 {
        if k == 0 {
            "no_std"@
        } else if k == 1 {
            "no-std"@
        } else if k == 2 {
            "#![no_std]"@
        } else if k == 3 {
            "#! [no_std]"@
        } else if k == 4 {
            "no std"@
        } else if k == 5 {
            "embedded"@
        } else if k == 6 {
            "bare-metal"@
        } else {
            "bare metal"@
        }
    } else if t == 6 {
        if k == 0 {
            "ffi"@
        } else if k == 1 {
            "foreign function interface"@
        } else if k == 2 {
            "c ffi"@
        } else {
            "c abi"@
        }
    } else if t == 7 {
        if k == 0 {
            "native"@
        } else if k == 1 {
            "linker"@
        } else if k == 2 {
            "native linker"@
        } else if k == 3 {
            "native-link"@
        } else if k == 4 {
            "system linker"@
        } else {
            "linking"@
        }
    } else if t == 8 {
        if k == 0 {
            "blas"@
        } else if k == 1 {
            "lapack"@
        } else if k == 2 {
            "atlas"@
        } else if k == 3 {
            "openblas"@
        } else if k == 4 {
            "intel mkl"@
        } else {
            "accelerate framework"@
        }
    } else if t == 9 {
        if k == 0 {
            "gpu"@
        } else if k == 1 {
            "cuda"@
        } else if k == 2 {
            "opencl"@
        } else if k == 3 {
            "vulkan"@
        } else if k == 4 {
            "compute shader"@
        } else if k == 5 {
            "wgpu"@
        } else if k == 6 {
            "webgpu"@
        } else {
            "gpgpu"@
        }
    } else if t == 10 {
        if k == 0 {
            "network optimization"@
        } else if k == 1 {
            "network"@
        } else if k == 2 {
            "graph optimization"@
        } else {
            "propagation"@
        }
    } else if t == 11 {
        if k == 0 {
            "dynamical system"@
        } else if k == 1 {
            "ode"@
        } else if k == 2 {
            "ordinary differential equation"@
        } else if k == 3 {
            "stability"@
        } else if k == 4 {
            "bifurcation"@
        } else {
            "chaos"@
        }
    } else if t == 12 {
        if k == 0 {
            "topology"@
        } else if k == 1 {
            "algebraic topology"@
        } else if k == 2 {
            "homology"@
        } else if k == 3 {
            "persistent homology"@
        } else if k == 4 {
            "morse theory"@
        } else {
            "simplicial"@
        }
    } else if t == 13 {
        if k == 0 {
            "information geometry"@
        } else if k == 1 {
            "fisher information"@
        } else if k == 2 {
            "dually flat"@
        } else {
            "alpha connection"@
        }
    } else if t == 14 {
        if k == 0 {
            "holographic"@
        } else if k == 1 {
            "vector symbolic architecture"@
        } else if k == 2 {
            "vsa"@
        } else if k == 3 {
            "hyperdimensional computing"@
        } else {
            "hd computing"@
        }
    } else {
        if k == 0 {
            "game theory"@
        } else if k == 1 {
            "combinatorial game"@
        } else if k == 2 {
            "nimber"@
        } else if k == 3 {
            "surreal number"@
        } else {
            "cgt"@
        }
    }
}

/// Normalized name of term `t`.
fn term_name_str(t: usize) -> (r: &'static str)
    requires
        t < 16,
    ensures
        r@ == term_name(t as int),
{
    match t {
        0 => "tropical_algebra",
        1 => "shortest_path",
        2 => "geometric_algebra",
        3 => "autodiff",
        4 => "wasm",
        5 => "no_std",
        6 => "ffi",
        7 => "native_linker",
        8 => "blas",
        9 => "gpu",
        10 => "network_optimization",
        11 => "dynamical_systems",
        12 => "topology",
        13 => "information_geometry",
        14 => "holographic",
        _ => "game_theory",
    }
}

/// Alphabetical rank of term `t`.
fn term_rank_of(t: usize) -> (r: usize)
    requires
        t < 16,
    ensures
        r == term_rank(t as int),
        r < 16,
{
    match t {
        0 => 14,
        1 => 12,
        2 => 5,
        3 => 0,
        4 => 15,
        5 => 11,
        6 => 3,
        7 => 9,
        8 => 1,
        9 => 6,
        10 => 10,
        11 => 2,
        12 => 13,
        13 => 8,
        14 => 7,
        _ => 4,
    }
}

/// Number of patterns of term `t`.
fn pattern_count_of(t: usize) -> (r: usize)
    requires
        t < 16,
    ensures
        r == pattern_count(t as int),
{
    match t {
        0 => 6,
        1 => 4,
        2 => 8,
        3 => 8,
        4 => 6,
        5 => 8,
        6 => 4,
        7 => 6,
        8 => 6,
        9 => 8,
        10 => 4,
        11 => 6,
        12 => 6,
        13 => 4,
        14 => 5,
        _ => 5,
    }
}

/// Pattern `k` of term `t`.
fn pattern_str(t: usize, k: usize) -> (r: &'static str)
    requires
        t < 16,
        k < pattern_count(t as int),
    ensures
        r@ == term_pattern(t as int, k as int),
{
    match t {
        0 => match k {
            0 => "tropical algebra",
            1 => "max-plus",
            2 => "maxplus",
            3 => "min-plus",
            4 => "minplus",
            _ => "tropical semiring",
        },
        1 => match k {
            0 => "shortest path",
            1 => "shortest-path",
            2 => "dijkstra",
            _ => "viterbi",
        },
        2 => match k {
            0 => "geometric algebra",
            1 => "clifford algebra",
            2 => "clifford",
            3 => "multivector",
            4 => "bivector",
            5 => "trivector",
            6 => "rotor",
            _ => "geometric product",
        },
        3 => match k {
            0 => "autodiff",
            1 => "automatic differentiation",
            2 => "dual number",
            3 => "dual numbers",
            4 => "forward mode",
            5 => "forward-mode",
            6 => "reverse mode",
            _ => "reverse-mode",
        },
        4 => match k {
            0 => "wasm",
            1 => "webassembly",
            2 => "web assembly",
            3 => "wasm-bindgen",
            4 => "wasm-pack",
            _ => "wasm target",
        },
        5 => match k {
            0 => "no_std",
            1 => "no-std",
            2 => "#![no_std]",
            3 => "#! [no_std]",
            4 => "no std",
            5 => "embedded",
            6 => "bare-metal",
            _ => "bare metal",
        },
        6 => match k {
            0 => "ffi",
            1 => "foreign function interface",
            2 => "c ffi",
            _ => "c abi",
        },
        7 => match k {
            0 => "native",
            1 => "linker",
            2 => "native linker",
            3 => "native-link",
            4 => "system linker",
            _ => "linking",
        },
        8 => match k {
            0 => "blas",
            1 => "lapack",
            2 => "atlas",
            3 => "openblas",
            4 => "intel mkl",
            _ => "accelerate framework",
        },
        9 => match k {
            0 => "gpu",
            1 => "cuda",
            2 => "opencl",
            3 => "vulkan",
            4 => "compute shader",
            5 => "wgpu",
            6 => "webgpu",
            _ => "gpgpu",
        },
        10 => match k {
            0 => "network optimization",
            1 => "network",
            2 => "graph optimization",
            _ => "propagation",
        },
        11 => match k {
            0 => "dynamical system",
            1 => "ode",
            2 => "ordinary differential equation",
            3 => "stability",
            4 => "bifurcation",
            _ => "chaos",
        },
        12 => match k {
            0 => "topology",
            1 => "algebraic topology",
            2 => "homology",
            3 => "persistent homology",
            4 => "morse theory",
            _ => "simplicial",
        },
        13 => match k {
            0 => "information geometry",
            1 => "fisher information",
            2 => "dually flat",
            _ => "alpha connection",
        },
        14 => match k {
            0 => "holographic",
            1 => "vector symbolic architecture",
            2 => "vsa",
            3 => "hyperdimensional computing",
            _ => "hd computing",
        },
        _ => match k {
            0 => "game theory",
            1 => "combinatorial game",
            2 => "nimber",
            3 => "surreal number",
            _ => "cgt",
        },
    }
}

// ---------------------------------------------------------------------------
// Scan model
// ---------------------------------------------------------------------------

/// Source-location view: path, line, column, content hash.
pub type LocV = (Seq<char>, Option<u32>, Option<u32>, Seq<char>);

/// View of an optional source location.
pub open spec fn opt_loc(o: Option<SourceLocation>) -> Option<LocV> {
    match o {
        Some(s) => Some(s@),
        None => None,
    }
}

/// A found term with its location (before naming and sorting).
pub type HitV = (int, Option<LocV>);

/// Offset of the first pattern of term `t` (from pattern `k` on) found in `text`.
pub open spec fn term_hit_from(text: Seq<u8>, t: int, k: int) -> Option<int>
    decreases pattern_count(t) - k,
{
    if k < 0 || k >= pattern_count(t) {
        None
    } else {
        match find_ci(text, vstd::utf8::encode_utf8(term_pattern(t, k))) {
            Some(r) => Some(r),
            None => term_hit_from(text, t, k + 1),
        }
    }
}

/// Dedup key of a hit: term, line, column.
pub open spec fn hit_key(h: HitV) -> (int, Option<u32>, Option<u32>) {
    match h.1 {
        Some(l) => (h.0, l.1, l.2),
        None => (h.0, None, None),
    }
}

/// Adds hit `h` unless the cap is reached or its key was already recorded.
pub open spec fn absorb(ev: Seq<HitV>, h: HitV) -> Seq<HitV> {
    if ev.len() >= MAX_VOCAB_PER_FILE || exists|i: int|
        0 <= i < ev.len() && #[trigger] hit_key(ev[i]) == hit_key(h) {
        ev
    } else {
        ev.push(h)
    }
}

/// Location of a doc-segment hit at byte `rel` of the segment text.
pub open spec fn doc_loc(l: LocV, rel: int) -> LocV {
    (
        l.0,
        l.1,
        match l.2 {
            Some(c) => Some((c + rel) as u32),
            None => None,
        },
        l.3,
    )
}

/// Scans terms `t..` of a doc segment `(text bytes, location)`.
pub open spec fn doc_terms(ev: Seq<HitV>, d: (Seq<u8>, LocV), t: int) -> Seq<HitV>
    decreases 16 - t,
{
    if t < 0 || t >= 16 {
        ev
    } else {
        let ev2 = match term_hit_from(d.0, t, 0) {
            Some(rel) => absorb(ev, (t, Some(doc_loc(d.1, rel)))),
            None => ev,
        };
        doc_terms(ev2, d, t + 1)
    }
}

/// Scans doc segments `i..`.
pub open spec fn docs_pass(ev: Seq<HitV>, docs: Seq<(Seq<u8>, LocV)>, i: int) -> Seq<HitV>
    decreases docs.len() - i,
{
    if i < 0 || i >= docs.len() {
        ev
    } else {
        docs_pass(doc_terms(ev, docs[i], 0), docs, i + 1)
    }
}

/// Location of a hit at absolute byte offset `x` of the file.
pub open spec fn text_loc(x: int, path: Seq<char>, hash: Seq<char>, offs: Seq<int>) -> Option<LocV> {
    match spec_line_col(offs, x) {
        Some((l, c)) => Some((path, Some(l), Some(c), hash)),
        None => None,
    }
}

/// Scans terms `t..` of text bytes anchored at byte offset `off`.
pub open spec fn text_terms(
    ev: Seq<HitV>,
    text: Seq<u8>,
    off: int,
    path: Seq<char>,
    hash: Seq<char>,
    offs: Seq<int>,
    t: int,
) -> Seq<HitV>
    decreases 16 - t,
{
    if t < 0 || t >= 16 {
        ev
    } else {
        let ev2 = match term_hit_from(text, t, 0) {
            Some(rel) => absorb(ev, (t, text_loc(off + rel, path, hash, offs))),
            None => ev,
        };
        text_terms(ev2, text, off, path, hash, offs, t + 1)
    }
}

/// Scans comment segments `i..`.
pub open spec fn comments_pass(
    ev: Seq<HitV>,
    segs: Seq<(Seq<u8>, int)>,
    path: Seq<char>,
    hash: Seq<char>,
    offs: Seq<int>,
    i: int,
) -> Seq<HitV>
    decreases segs.len() - i,
{
    if i < 0 || i >= segs.len() {
        ev
    } else {
        comments_pass(
            text_terms(ev, segs[i].0, segs[i].1, path, hash, offs, 0),
            segs,
            path,
            hash,
            offs,
            i + 1,
        )
    }
}

/// Whether a hit's term has alphabetical rank `r`.
pub open spec fn rank_is(r: int) -> spec_fn(HitV) -> bool {
    |h: HitV| term_rank(h.0) == r
}

/// Hits of rank `r..` in rank order, each rank keeping discovery order.
pub open spec fn by_rank_from(ev: Seq<HitV>, r: int) -> Seq<HitV>
    decreases 16 - r,
{
    if r < 0 || r >= 16 {
        seq![]
    } else {
        ev.filter(rank_is(r)) + by_rank_from(ev, r + 1)
    }
}

/// All hits of a file before sorting: doc segments, then comments, then README.
pub open spec fn raw_hits(
    docs: Seq<(Seq<u8>, LocV)>,
    segs: Seq<(Seq<u8>, int)>,
    readme: Option<Seq<u8>>,
    path: Seq<char>,
    hash: Seq<char>,
    offs: Seq<int>,
) -> Seq<HitV> {
    let e1 = docs_pass(seq![], docs, 0);
    let e2 = comments_pass(e1, segs, path, hash, offs, 0);
    match readme {
        Some(r) => text_terms(e2, r, 0, path, hash, offs, 0),
        None => e2,
    }
}

/// The evidence records of a file: hits sorted stably by term name.
pub open spec fn spec_scan_vocabulary(
    docs: Seq<(Seq<u8>, LocV)>,
    segs: Seq<(Seq<u8>, int)>,
    readme: Option<Seq<u8>>,
    path: Seq<char>,
    hash: Seq<char>,
    offs: Seq<int>,
) -> Seq<(Seq<char>, Seq<char>, Option<LocV>)> {
    by_rank_from(raw_hits(docs, segs, readme, path, hash, offs), 0).map_values(
        |h: HitV| (path, term_name(h.0), h.1),
    )
}

proof fn lemma_doc_terms_capped(ev: Seq<HitV>, d: (Seq<u8>, LocV), t: int)
    requires
        ev.len() >= MAX_VOCAB_PER_FILE,
    ensures
        doc_terms(ev, d, t) == ev,
    decreases 16 - t,
{
    if 0 <= t < 16 {
        lemma_doc_terms_capped(ev, d, t + 1);
    }
}

proof fn lemma_docs_pass_capped(ev: Seq<HitV>, docs: Seq<(Seq<u8>, LocV)>, i: int)
    requires
        ev.len() >= MAX_VOCAB_PER_FILE,
    ensures
        docs_pass(ev, docs, i) == ev,
    decreases docs.len() - i,
{
    if 0 <= i < docs.len() {
        lemma_doc_terms_capped(ev, docs[i], 0);
        lemma_docs_pass_capped(ev, docs, i + 1);
    }
}

proof fn lemma_text_terms_capped(
    ev: Seq<HitV>,
    text: Seq<u8>,
    off: int,
    path: Seq<char>,
    hash: Seq<char>,
    offs: Seq<int>,
    t: int,
)
    requires
        ev.len() >= MAX_VOCAB_PER_FILE,
    ensures
        text_terms(ev, text, off, path, hash, offs, t) == ev,
    decreases 16 - t,
{
    if 0 <= t < 16 {
        lemma_text_terms_capped(ev, text, off, path, hash, offs, t + 1);
    }
}

/// The curated term of alphabetical rank `r`.
pub open spec fn term_at_rank(r: int) -> int {
    if r == 0 {
        3
    } else if r == 1 {
        8
    } else if r == 2 {
        11
    } else if r == 3 {
        6
    } else if r == 4 {
        15
    } else if r == 5 {
        2
    } else if r == 6 {
        9
    } else if r == 7 {
        14
    } else if r == 8 {
        13
    } else if r == 9 {
        7
    } else if r == 10 {
        10
    } else if r == 11 {
        5
    } else if r == 12 {
        1
    } else if r == 13 {
        12
    } else if r == 14 {
        0
    } else {
        4
    }
}

proof fn lemma_adjacent_names_ordered(r: int)
    requires
        0 <= r < 15,
    ensures
        char_lex_lt(term_name(term_at_rank(r)), term_name(term_at_rank(r + 1))),
{
    reveal_strlit("tropical_algebra");
    reveal_strlit("shortest_path");
    reveal_strlit("geometric_algebra");
    reveal_strlit("autodiff");
    reveal_strlit("wasm");
    reveal_strlit("no_std");
    reveal_strlit("ffi");
    reveal_strlit("native_linker");
    reveal_strlit("blas");
    reveal_strlit("gpu");
    reveal_strlit("network_optimization");
    reveal_strlit("dynamical_systems");
    reveal_strlit("topology");
    reveal_strlit("information_geometry");
    reveal_strlit("holographic");
    reveal_strlit("game_theory");
    reveal_with_fuel(char_lex_lt, 3);
    let a = term_name(term_at_rank(r));
    let b = term_name(term_at_rank(r + 1));
    assert(a.len() > 1 && b.len() > 1);
    assert(a.drop_first()[0] == a[1] && b.drop_first()[0] == b[1]);
}

proof fn lemma_names_ordered_by_rank(r1: int, r2: int)
    requires
        0 <= r1 < r2 < 16,
    ensures
        char_lex_lt(term_name(term_at_rank(r1)), term_name(term_at_rank(r2))),
    decreases r2 - r1,
{
    lemma_adjacent_names_ordered(r2 - 1);
    if r1 < r2 - 1 {
        lemma_names_ordered_by_rank(r1, r2 - 1);
        lemma_char_lex_transitive(
            term_name(term_at_rank(r1)),
            term_name(term_at_rank(r2 - 1)),
            term_name(term_at_rank(r2)),
        );
    }
}

/// The rank of a term is its name's place in alphabetical order: terms of
/// lower rank have names that sort strictly first, so distinct terms have
/// distinct names.
pub proof fn lemma_term_rank_orders_names(a: int, b: int)
    requires
        0 <= a < 16,
        0 <= b < 16,
    ensures
        0 <= term_rank(a) < 16,
        term_rank(a) < term_rank(b) ==> char_lex_lt(term_name(a), term_name(b)),
        term_rank(a) == term_rank(b) ==> a == b,
        a != b ==> term_name(a) != term_name(b),
{
    assert(term_at_rank(term_rank(a)) == a);
    assert(term_at_rank(term_rank(b)) == b);
    if term_rank(a) < term_rank(b) {
        lemma_names_ordered_by_rank(term_rank(a), term_rank(b));
    }
    if term_rank(b) < term_rank(a) {
        lemma_names_ordered_by_rank(term_rank(b), term_rank(a));
        lemma_char_lex_irreflexive(term_name(a));
        lemma_char_lex_asymmetric(term_name(b), term_name(a));
    }
    if term_rank(a) < term_rank(b) {
        lemma_char_lex_irreflexive(term_name(a));
    }
}

/// No two hits share a `(term, line, column)` key.
pub open spec fn keys_distinct(ev: Seq<HitV>) -> bool {
    forall|i: int, j: int| 0 <= i < j < ev.len() ==> hit_key(#[trigger] ev[i]) != hit_key(#[trigger] ev[j])
}

/// What every stage of the scan keeps of its hits: at most
/// [`MAX_VOCAB_PER_FILE`], distinct keys, and curated term indices.
pub open spec fn hits_ok(ev: Seq<HitV>) -> bool {
    &&& ev.len() <= MAX_VOCAB_PER_FILE
    &&& keys_distinct(ev)
    &&& forall|i: int| 0 <= i < ev.len() ==> 0 <= (#[trigger] ev[i]).0 < 16
}

proof fn lemma_absorb_ok(ev: Seq<HitV>, h: HitV)
    requires
        hits_ok(ev),
        0 <= h.0 < 16,
    ensures
        hits_ok(absorb(ev, h)),
{
    if !(ev.len() >= MAX_VOCAB_PER_FILE || exists|i: int| 0 <= i < ev.len() && #[trigger] hit_key(ev[i]) == hit_key(h)) {
        let e2 = ev.push(h);
        assert forall|i: int, j: int| 0 <= i < j < e2.len() implies hit_key(#[trigger] e2[i]) != hit_key(
            #[trigger] e2[j],
        ) by {
            if j == ev.len() {
                assert(e2[i] == ev[i]);
            } else {
                assert(e2[i] == ev[i] && e2[j] == ev[j]);
            }
        }
        assert forall|i: int| 0 <= i < e2.len() implies 0 <= (#[trigger] e2[i]).0 < 16 by {
            if i < ev.len() {
                assert(e2[i] == ev[i]);
            }
        }
    }
}

proof fn lemma_doc_terms_ok(ev: Seq<HitV>, d: (Seq<u8>, LocV), t: int)
    requires
        hits_ok(ev),
    ensures
        hits_ok(doc_terms(ev, d, t)),
    decreases 16 - t,
{
    if 0 <= t < 16 {
        match term_hit_from(d.0, t, 0) {
            Some(rel) => {
                lemma_absorb_ok(ev, (t, Some(doc_loc(d.1, rel))));
                lemma_doc_terms_ok(absorb(ev, (t, Some(doc_loc(d.1, rel)))), d, t + 1);
            },
            None => {
                lemma_doc_terms_ok(ev, d, t + 1);
            },
        }
    }
}

proof fn lemma_docs_pass_ok(ev: Seq<HitV>, docs: Seq<(Seq<u8>, LocV)>, i: int)
    requires
        hits_ok(ev),
    ensures
        hits_ok(docs_pass(ev, docs, i)),
    decreases docs.len() - i,
{
    if 0 <= i < docs.len() {
        lemma_doc_terms_ok(ev, docs[i], 0);
        lemma_docs_pass_ok(doc_terms(ev, docs[i], 0), docs, i + 1);
    }
}

proof fn lemma_text_terms_ok(
    ev: Seq<HitV>,
    text: Seq<u8>,
    off: int,
    path: Seq<char>,
    hash: Seq<char>,
    offs: Seq<int>,
    t: int,
)
    requires
        hits_ok(ev),
    ensures
        hits_ok(text_terms(ev, text, off, path, hash, offs, t)),
    decreases 16 - t,
{
    if 0 <= t < 16 {
        match term_hit_from(text, t, 0) {
            Some(rel) => {
                let h = (t, text_loc(off + rel, path, hash, offs));
                lemma_absorb_ok(ev, h);
                lemma_text_terms_ok(absorb(ev, h), text, off, path, hash, offs, t + 1);
            },
            None => {
                lemma_text_terms_ok(ev, text, off, path, hash, offs, t + 1);
            },
        }
    }
}

proof fn lemma_comments_pass_ok(
    ev: Seq<HitV>,
    segs: Seq<(Seq<u8>, int)>,
    path: Seq<char>,
    hash: Seq<char>,
    offs: Seq<int>,
    i: int,
)
    requires
        hits_ok(ev),
    ensures
        hits_ok(comments_pass(ev, segs, path, hash, offs, i)),
    decreases segs.len() - i,
{
    if 0 <= i < segs.len() {
        lemma_text_terms_ok(ev, segs[i].0, segs[i].1, path, hash, offs, 0);
        lemma_comments_pass_ok(
            text_terms(ev, segs[i].0, segs[i].1, path, hash, offs, 0),
            segs,
            path,
            hash,
            offs,
            i + 1,
        );
    }
}

/// Whether a hit's term has alphabetical rank `r` or later.
pub open spec fn rank_from(r: int) -> spec_fn(HitV) -> bool {
    |h: HitV| term_rank(h.0) >= r
}

proof fn lemma_filter_kept(s: Seq<HitV>, p: spec_fn(HitV) -> bool)
    requires
        keys_distinct(s),
    ensures
        keys_distinct(s.filter(p)),
        forall|i: int| 0 <= i < s.filter(p).len() ==> p(#[trigger] s.filter(p)[i]) && s.contains(s.filter(p)[i]),
    decreases s.len(),
{
    reveal(Seq::filter);
    if s.len() > 0 {
        let t = s.drop_last();
        assert(keys_distinct(t)) by {
            assert forall|i: int, j: int| 0 <= i < j < t.len() implies hit_key(#[trigger] t[i]) != hit_key(
                #[trigger] t[j],
            ) by {
                assert(t[i] == s[i] && t[j] == s[j]);
            }
        }
        lemma_filter_kept(t, p);
        let ft = t.filter(p);
        let f = s.filter(p);
        assert forall|i: int| 0 <= i < f.len() implies p(#[trigger] f[i]) && s.contains(f[i]) by {
            if i < ft.len() {
                assert(f[i] == ft[i]);
                let k = choose|k: int| 0 <= k < t.len() && t[k] == ft[i];
                assert(s[k] == t[k]);
            } else {
                assert(f[i] == s.last());
                assert(s[s.len() - 1] == s.last());
            }
        }
        if p(s.last()) {
            assert forall|i: int, j: int| 0 <= i < j < f.len() implies hit_key(#[trigger] f[i]) != hit_key(
                #[trigger] f[j],
            ) by {
                assert(f[i] == ft[i]);
                if j < ft.len() {
                    assert(f[j] == ft[j]);
                } else {
                    assert(f[j] == s.last());
                    let k = choose|k: int| 0 <= k < t.len() && t[k] == ft[i];
                    assert(s[k] == t[k] && s[s.len() - 1] == s.last());
                }
            }
        }
    }
}

proof fn lemma_filter_split_len(s: Seq<HitV>, r: int)
    ensures
        s.filter(rank_from(r)).len() == s.filter(rank_is(r)).len() + s.filter(rank_from(r + 1)).len(),
    decreases s.len(),
{
    reveal(Seq::filter);
    if s.len() > 0 {
        lemma_filter_split_len(s.drop_last(), r);
    }
}

proof fn lemma_by_rank(ev: Seq<HitV>, r: int)
    requires
        keys_distinct(ev),
        0 <= r <= 16,
    ensures
        keys_distinct(by_rank_from(ev, r)),
        by_rank_from(ev, r).len() <= ev.filter(rank_from(r)).len(),
        forall|i: int|
            0 <= i < by_rank_from(ev, r).len() ==> term_rank((#[trigger] by_rank_from(ev, r)[i]).0) >= r
                && ev.contains(by_rank_from(ev, r)[i]),
        forall|i: int, j: int|
            0 <= i < j < by_rank_from(ev, r).len() ==> term_rank((#[trigger] by_rank_from(ev, r)[i]).0)
                <= term_rank((#[trigger] by_rank_from(ev, r)[j]).0),
    decreases 16 - r,
{
    if r < 16 {
        lemma_by_rank(ev, r + 1);
        lemma_filter_kept(ev, rank_is(r));
        lemma_filter_split_len(ev, r);
        let a = ev.filter(rank_is(r));
        let b = by_rank_from(ev, r + 1);
        let o = by_rank_from(ev, r);
        assert(o == a + b);
        assert forall|i: int| 0 <= i < o.len() implies term_rank((#[trigger] o[i]).0) >= r && ev.contains(o[i]) by {
            if i < a.len() {
                assert(o[i] == a[i]);
                assert(rank_is(r)(a[i]));
            } else {
                assert(o[i] == b[i - a.len()]);
            }
        }
        assert forall|i: int, j: int| 0 <= i < j < o.len() implies term_rank((#[trigger] o[i]).0) <= term_rank(
            (#[trigger] o[j]).0,
        ) by {
            if j < a.len() {
                assert(o[i] == a[i] && o[j] == a[j]);
                assert(rank_is(r)(a[i]) && rank_is(r)(a[j]));
            } else if i < a.len() {
                assert(o[i] == a[i] && o[j] == b[j - a.len()]);
                assert(rank_is(r)(a[i]));
            } else {
                assert(o[i] == b[i - a.len()] && o[j] == b[j - a.len()]);
            }
        }
        assert forall|i: int, j: int| 0 <= i < j < o.len() implies hit_key(#[trigger] o[i]) != hit_key(
            #[trigger] o[j],
        ) by {
            if j < a.len() {
                assert(o[i] == a[i] && o[j] == a[j]);
            } else if i < a.len() {
                assert(o[i] == a[i] && o[j] == b[j - a.len()]);
                assert(rank_is(r)(a[i]));
                assert(term_rank(b[j - a.len()].0) >= r + 1);
            } else {
                assert(o[i] == b[i - a.len()] && o[j] == b[j - a.len()]);
            }
        }
    } else {
        assert(by_rank_from(ev, r) =~= Seq::<HitV>::empty());
    }
}

/// The hits of a file in reporting order: the raw hits grouped by the
/// alphabetical rank of their term names.
pub open spec fn vocabulary_hits(
    docs: Seq<(Seq<u8>, LocV)>,
    segs: Seq<(Seq<u8>, int)>,
    readme: Option<Seq<u8>>,
    path: Seq<char>,
    hash: Seq<char>,
    offs: Seq<int>,
) -> Seq<HitV> {
    by_rank_from(raw_hits(docs, segs, readme, path, hash, offs), 0)
}

/// The vocabulary of a file is capped, unique and ordered: at most
/// [`MAX_VOCAB_PER_FILE`] entries, no two with the same term at the same line
/// and column, ordered by the alphabetical rank of their term names, and each
/// naming the scanned file.
pub proof fn lemma_vocabulary_capped_sorted_unique(
    docs: Seq<(Seq<u8>, LocV)>,
    segs: Seq<(Seq<u8>, int)>,
    readme: Option<Seq<u8>>,
    path: Seq<char>,
    hash: Seq<char>,
    offs: Seq<int>,
)
    ensures
        ({
            let h = vocabulary_hits(docs, segs, readme, path, hash, offs);
            let r = spec_scan_vocabulary(docs, segs, readme, path, hash, offs);
            &&& r == h.map_values(|x: HitV| (path, term_name(x.0), x.1))
            &&& r.len() <= MAX_VOCAB_PER_FILE
            &&& keys_distinct(h)
            &&& forall|i: int, j: int|
                0 <= i < j < h.len() ==> term_rank((#[trigger] h[i]).0) <= term_rank((#[trigger] h[j]).0)
            &&& forall|i: int| 0 <= i < r.len() ==> (#[trigger] r[i]).0 == path
        }),
{
    let e0 = Seq::<HitV>::empty();
    assert(hits_ok(e0));
    lemma_docs_pass_ok(e0, docs, 0);
    let e1 = docs_pass(e0, docs, 0);
    lemma_comments_pass_ok(e1, segs, path, hash, offs, 0);
    let e2 = comments_pass(e1, segs, path, hash, offs, 0);
    match readme {
        Some(rd) => {
            lemma_text_terms_ok(e2, rd, 0, path, hash, offs, 0);
        },
        None => {},
    }
    let raw = raw_hits(docs, segs, readme, path, hash, offs);
    assert(hits_ok(raw));
    lemma_by_rank(raw, 0);
    raw.lemma_filter_len(rank_from(0));
}

/// Line and column of an optional location.
pub open spec fn loc_line_col(o: Option<LocV>) -> (Option<u32>, Option<u32>) {
    match o {
        Some(l) => (l.1, l.2),
        None => (None, None),
    }
}

/// Entries `r` of the vocabulary of file `path`: at most
/// [`MAX_VOCAB_PER_FILE`], each naming the file, sorted by term name, and no
/// two with the same term at the same line and column.
pub open spec fn vocabulary_law(r: Seq<(Seq<char>, Seq<char>, Option<LocV>)>, path: Seq<char>) -> bool {
    &&& r.len() <= MAX_VOCAB_PER_FILE
    &&& forall|i: int| 0 <= i < r.len() ==> (#[trigger] r[i]).0 == path
    &&& forall|i: int, j: int|
        0 <= i < j < r.len() ==> (#[trigger] r[i]).1 == (#[trigger] r[j]).1 || char_lex_lt(r[i].1, r[j].1)
    &&& forall|i: int, j: int|
        0 <= i < j < r.len() ==> ((#[trigger] r[i]).1, loc_line_col(r[i].2)) != ((#[trigger] r[j]).1, loc_line_col(
            r[j].2,
        ))
}

/// The vocabulary of a file, as entries: at most [`MAX_VOCAB_PER_FILE`]
/// of them, each naming the scanned file, sorted by term name, and no two
/// with the same term at the same line and column.
pub proof fn lemma_scan_vocabulary_law(
    docs: Seq<(Seq<u8>, LocV)>,
    segs: Seq<(Seq<u8>, int)>,
    readme: Option<Seq<u8>>,
    path: Seq<char>,
    hash: Seq<char>,
    offs: Seq<int>,
)
    ensures
        vocabulary_law(spec_scan_vocabulary(docs, segs, readme, path, hash, offs), path),
{
    lemma_vocabulary_capped_sorted_unique(docs, segs, readme, path, hash, offs);
    let h = vocabulary_hits(docs, segs, readme, path, hash, offs);
    let raw = raw_hits(docs, segs, readme, path, hash, offs);
    let r = spec_scan_vocabulary(docs, segs, readme, path, hash, offs);
    let e0 = Seq::<HitV>::empty();
    lemma_docs_pass_ok(e0, docs, 0);
    lemma_comments_pass_ok(docs_pass(e0, docs, 0), segs, path, hash, offs, 0);
    match readme {
        Some(rd) => {
            lemma_text_terms_ok(comments_pass(docs_pass(e0, docs, 0), segs, path, hash, offs, 0), rd, 0, path, hash, offs, 0);
        },
        None => {},
    }
    lemma_by_rank(raw, 0);
    assert forall|i: int| 0 <= i < h.len() implies 0 <= (#[trigger] h[i]).0 < 16 by {
        assert(raw.contains(h[i]));
        let k = choose|k: int| 0 <= k < raw.len() && raw[k] == h[i];
    }
    assert forall|i: int, j: int| 0 <= i < j < r.len() implies (#[trigger] r[i]).1 == (#[trigger] r[j]).1
        || char_lex_lt(r[i].1, r[j].1) by {
        assert(0 <= h[i].0 < 16 && 0 <= h[j].0 < 16);
        lemma_term_rank_orders_names(h[i].0, h[j].0);
        if term_rank(h[i].0) == term_rank(h[j].0) {
            assert(h[i].0 == h[j].0);
        }
    }
    assert forall|i: int, j: int| 0 <= i < j < r.len() implies ((#[trigger] r[i]).1, loc_line_col(r[i].2)) != (
        (#[trigger] r[j]).1,
        loc_line_col(r[j].2),
    ) by {
        assert(0 <= h[i].0 < 16 && 0 <= h[j].0 < 16);
        lemma_term_rank_orders_names(h[i].0, h[j].0);
        assert(hit_key(h[i]) != hit_key(h[j]));
    }
}

/// Whether a location's line and column, when known, are at least 1.
pub open spec fn loc_ok(o: Option<LocV>) -> bool {
    match o {
        Some(l) => (match l.1 {
            Some(x) => x >= 1,
            None => true,
        }) && (match l.2 {
            Some(c) => c >= 1,
            None => true,
        }),
        None => true,
    }
}

/// Whether every hit's location has line and column at least 1.
pub open spec fn hits_located(ev: Seq<HitV>) -> bool {
    forall|i: int| 0 <= i < ev.len() ==> loc_ok((#[trigger] ev[i]).1)
}

/// Doc segments whose lines and columns, when known, are at least 1, and
/// whose text fits after its column in a `u32`.
pub open spec fn docs_located(docs: Seq<(Seq<u8>, LocV)>) -> bool {
    forall|i: int|
        0 <= i < docs.len() ==> (match (#[trigger] docs[i]).1.1 {
            Some(x) => x >= 1,
            None => true,
        }) && (match docs[i].1.2 {
            Some(c) => c >= 1 && c + docs[i].0.len() <= u32::MAX,
            None => true,
        })
}

/// A line-start table from 0, strictly increasing, whose reach (its last
/// start plus 8192) fits in a `u32`.
pub open spec fn offs_located(offs: Seq<int>) -> bool {
    &&& offs.len() >= 1
    &&& offs[0] == 0
    &&& strictly_increasing(offs)
    &&& offs.last() + 8192 < u32::MAX
}

proof fn lemma_first_ci_bound(t: Seq<u8>, p: Seq<u8>, s: int)
    requires
        0 <= s,
    ensures
        first_ci_match(t, p, s) matches Some(r) ==> s <= r && r + p.len() <= t.len(),
    decreases t.len() - s,
{
    if !(s + p.len() > t.len()) && !ci_match_at(t, p, s) {
        lemma_first_ci_bound(t, p, s + 1);
    }
}

proof fn lemma_term_hit_bound(text: Seq<u8>, t: int, k: int)
    ensures
        term_hit_from(text, t, k) matches Some(r) ==> 0 <= r < text.len(),
    decreases pattern_count(t) - k,
{
    if 0 <= k < pattern_count(t) {
        let p = vstd::utf8::encode_utf8(term_pattern(t, k));
        lemma_first_ci_bound(text, p, 0);
        if find_ci(text, p) is None {
            lemma_term_hit_bound(text, t, k + 1);
        }
    }
}

proof fn lemma_offs_at_least_index(offs: Seq<int>, i: int)
    requires
        offs.len() >= 1,
        offs[0] == 0,
        strictly_increasing(offs),
        0 <= i < offs.len(),
    ensures
        offs[i] >= i,
    decreases i,
{
    if i > 0 {
        lemma_offs_at_least_index(offs, i - 1);
    }
}

proof fn lemma_count_le_bounds(offs: Seq<int>, x: int)
    requires
        offs.len() >= 1,
        offs[0] <= x,
        strictly_increasing(offs),
    ensures
        1 <= count_le(offs, x) <= offs.len(),
        offs[count_le(offs, x) - 1] <= x,
    decreases offs.len(),
{
    if offs.len() > 1 {
        let d = offs.drop_last();
        assert(strictly_increasing(d)) by {
            assert forall|i: int, j: int| 0 <= i < j < d.len() implies d[i] < d[j] by {
                assert(d[i] == offs[i] && d[j] == offs[j]);
            }
        }
        lemma_count_le_bounds(d, x);
        assert(count_le(offs, x) == count_le(d, x) + if offs.last() <= x {
            1int
        } else {
            0int
        });
        if offs.last() <= x {
            assert forall|k: int| 0 <= k < d.len() implies #[trigger] d[k] <= x by {
                assert(d[k] == offs[k]);
                assert(offs[k] < offs[offs.len() - 1]);
            }
            lemma_count_le_all(d, x);
        } else {
            assert(offs[count_le(d, x) - 1] == d[count_le(d, x) - 1]);
        }
    } else {
        assert(offs.drop_last().len() == 0);
        assert(count_le(offs.drop_last(), x) == 0);
        assert(offs.last() == offs[0]);
    }
}

proof fn lemma_count_le_all(offs: Seq<int>, x: int)
    requires
        forall|k: int| 0 <= k < offs.len() ==> #[trigger] offs[k] <= x,
    ensures
        count_le(offs, x) == offs.len(),
    decreases offs.len(),
{
    if offs.len() > 0 {
        let d = offs.drop_last();
        assert forall|k: int| 0 <= k < d.len() implies #[trigger] d[k] <= x by {
            assert(d[k] == offs[k]);
        }
        lemma_count_le_all(d, x);
    }
}

proof fn lemma_line_col_ok(offs: Seq<int>, x: int)
    requires
        offs_located(offs),
        0 <= x,
    ensures
        spec_line_col(offs, x) matches Some((l, c)) ==> l >= 1 && c >= 1,
{
    if x <= offs.last() + 8192 {
        lemma_count_le_bounds(offs, x);
        lemma_offs_at_least_index(offs, offs.len() - 1);
        let n = count_le(offs, x);
        assert(n <= offs.len() <= offs.last() + 1);
        assert(1 <= x - offs[n - 1] + 1 <= u32::MAX);
    }
}

proof fn lemma_absorb_located(ev: Seq<HitV>, h: HitV)
    requires
        hits_located(ev),
        loc_ok(h.1),
    ensures
        hits_located(absorb(ev, h)),
{
    let e2 = absorb(ev, h);
    assert forall|i: int| 0 <= i < e2.len() implies loc_ok((#[trigger] e2[i]).1) by {
        if i < ev.len() {
            assert(e2[i] == ev[i]);
        }
    }
}

proof fn lemma_doc_terms_located(ev: Seq<HitV>, d: (Seq<u8>, LocV), t: int)
    requires
        hits_located(ev),
        match d.1.1 {
            Some(x) => x >= 1,
            None => true,
        },
        match d.1.2 {
            Some(c) => c >= 1 && c + d.0.len() <= u32::MAX,
            None => true,
        },
    ensures
        hits_located(doc_terms(ev, d, t)),
    decreases 16 - t,
{
    if 0 <= t < 16 {
        lemma_term_hit_bound(d.0, t, 0);
        match term_hit_from(d.0, t, 0) {
            Some(rel) => {
                let h = (t, Some(doc_loc(d.1, rel)));
                lemma_absorb_located(ev, h);
                lemma_doc_terms_located(absorb(ev, h), d, t + 1);
            },
            None => {
                lemma_doc_terms_located(ev, d, t + 1);
            },
        }
    }
}

proof fn lemma_docs_pass_located(ev: Seq<HitV>, docs: Seq<(Seq<u8>, LocV)>, i: int)
    requires
        hits_located(ev),
        docs_located(docs),
    ensures
        hits_located(docs_pass(ev, docs, i)),
    decreases docs.len() - i,
{
    if 0 <= i < docs.len() {
        assert(docs_located(docs));
        let d = docs[i];
        lemma_doc_terms_located(ev, d, 0);
        lemma_docs_pass_located(doc_terms(ev, d, 0), docs, i + 1);
    }
}

proof fn lemma_text_terms_located(
    ev: Seq<HitV>,
    text: Seq<u8>,
    off: int,
    path: Seq<char>,
    hash: Seq<char>,
    offs: Seq<int>,
    t: int,
)
    requires
        hits_located(ev),
        offs_located(offs),
        0 <= off,
    ensures
        hits_located(text_terms(ev, text, off, path, hash, offs, t)),
    decreases 16 - t,
{
    if 0 <= t < 16 {
        lemma_term_hit_bound(text, t, 0);
        match term_hit_from(text, t, 0) {
            Some(rel) => {
                let h = (t, text_loc(off + rel, path, hash, offs));
                lemma_line_col_ok(offs, off + rel);
                lemma_absorb_located(ev, h);
                lemma_text_terms_located(absorb(ev, h), text, off, path, hash, offs, t + 1);
            },
            None => {
                lemma_text_terms_located(ev, text, off, path, hash, offs, t + 1);
            },
        }
    }
}

proof fn lemma_comments_pass_located(
    ev: Seq<HitV>,
    segs: Seq<(Seq<u8>, int)>,
    path: Seq<char>,
    hash: Seq<char>,
    offs: Seq<int>,
    i: int,
)
    requires
        hits_located(ev),
        offs_located(offs),
        forall|k: int| 0 <= k < segs.len() ==> 0 <= (#[trigger] segs[k]).1,
    ensures
        hits_located(comments_pass(ev, segs, path, hash, offs, i)),
    decreases segs.len() - i,
{
    if 0 <= i < segs.len() {
        assert(0 <= segs[i].1);
        lemma_text_terms_located(ev, segs[i].0, segs[i].1, path, hash, offs, 0);
        lemma_comments_pass_located(
            text_terms(ev, segs[i].0, segs[i].1, path, hash, offs, 0),
            segs,
            path,
            hash,
            offs,
            i + 1,
        );
    }
}

/// Whether each doc segment's line and column, when known, are at least 1.
pub open spec fn docs_one_based(docs: Seq<DocSegment>) -> bool {
    forall|i: int|
        0 <= i < docs.len() ==> (match (#[trigger] docs[i]).source.line {
            Some(x) => x >= 1,
            None => true,
        }) && (match docs[i].source.column {
            Some(c) => c >= 1,
            None => true,
        })
}

/// Vocabulary locations are 1-based: when the doc segments' lines and
/// columns are at least 1 (and each text fits after its column in a `u32`),
/// and the file's line starts reach no further than a `u32` holds, every
/// entry's line and column, when known, are at least 1.
pub proof fn lemma_vocabulary_locations(
    docs: Seq<(Seq<u8>, LocV)>,
    segs: Seq<(Seq<u8>, int)>,
    readme: Option<Seq<u8>>,
    path: Seq<char>,
    hash: Seq<char>,
    offs: Seq<int>,
)
    requires
        docs_located(docs),
        offs_located(offs),
        forall|k: int| 0 <= k < segs.len() ==> 0 <= (#[trigger] segs[k]).1,
    ensures
        forall|i: int|
            0 <= i < spec_scan_vocabulary(docs, segs, readme, path, hash, offs).len() ==> loc_ok(
                (#[trigger] spec_scan_vocabulary(docs, segs, readme, path, hash, offs)[i]).2,
            ),
{
    let e0 = Seq::<HitV>::empty();
    lemma_docs_pass_located(e0, docs, 0);
    lemma_docs_pass_ok(e0, docs, 0);
    let e1 = docs_pass(e0, docs, 0);
    lemma_comments_pass_located(e1, segs, path, hash, offs, 0);
    lemma_comments_pass_ok(e1, segs, path, hash, offs, 0);
    let e2 = comments_pass(e1, segs, path, hash, offs, 0);
    match readme {
        Some(rd) => {
            lemma_text_terms_located(e2, rd, 0, path, hash, offs, 0);
            lemma_text_terms_ok(e2, rd, 0, path, hash, offs, 0);
        },
        None => {},
    }
    let raw = raw_hits(docs, segs, readme, path, hash, offs);
    assert(hits_located(raw));
    lemma_by_rank(raw, 0);
    let h = by_rank_from(raw, 0);
    let r = spec_scan_vocabulary(docs, segs, readme, path, hash, offs);
    assert forall|i: int| 0 <= i < r.len() implies loc_ok((#[trigger] r[i]).2) by {
        assert(raw.contains(h[i]));
        let k = choose|k: int| 0 <= k < raw.len() && raw[k] == h[i];
        assert(loc_ok(raw[k].1));
    }
}

// ---------------------------------------------------------------------------
// Scan implementation
// ---------------------------------------------------------------------------

/// A found term index with its location.
struct Hit {
    term: usize,
    source: Option<SourceLocation>,
}

impl View for Hit {
    type V = HitV;

    closed spec fn view(&self) -> HitV {
        (self.term as int, opt_loc(self.source))
    }
}

spec fn hits_view(v: Seq<Hit>) -> Seq<HitV> {
    v.map_values(|h: Hit| h@)
}

spec fn hits_wf(v: Seq<Hit>) -> bool {
    forall|i: int| 0 <= i < v.len() ==> (#[trigger] v[i]).term < 16
}

/// Offset of the first pattern of term `t` found in `text`.
fn first_term_hit(text: &[u8], t: usize) -> (r: Option<usize>)
    requires
        t < 16,
    ensures
        match (r, term_hit_from(text@, t as int, 0)) {
            (Some(a), Some(b)) => a == b && a < text@.len(),
            (None, None) => true,
            _ => false,
        },
{
    let n = pattern_count_of(t);
    let mut k: usize = 0;
    while k < n
        invariant
            t < 16,
            n == pattern_count(t as int),
            k <= n,
            term_hit_from(text@, t as int, k as int) == term_hit_from(text@, t as int, 0),
        decreases n - k,
    {
        let p = pattern_str(t, k);
        let pb = p.as_bytes();
        match find_ci_bytes(text, pb) {
            Some(rel) => {
                proof {
                    assert(pb@.len() > 0);
                }
                return Some(rel);
            },
            None => {},
        }
        k += 1;
    }
    None
}

/// Records a hit unless the cap is reached or its `(term, line, column)`
/// was already recorded for this file.
fn push_vocab_evidence(term: usize, loc: Option<SourceLocation>, evidence: &mut Vec<Hit>)
    requires
        term < 16,
        hits_wf(old(evidence)@),
    ensures
        hits_wf(final(evidence)@),
        hits_view(final(evidence)@) == absorb(
            hits_view(old(evidence)@),
            (term as int, opt_loc(loc)),
        ),
{
    let ghost h: HitV = (term as int, opt_loc(loc));
    if evidence.len() >= MAX_VOCAB_PER_FILE {
        return;
    }
    let (line, column) = match &loc {
        Some(s) => (s.line, s.column),
        None => (None, None),
    };
    let mut i: usize = 0;
    let mut found = false;
    while i < evidence.len() && !found
        invariant
            i <= evidence@.len(),
            hit_key(h) == (term as int, line, column),
            found ==> exists|j: int| 0 <= j < evidence@.len() && #[trigger] hit_key(hits_view(evidence@)[j]) == hit_key(h),
            !found ==> forall|j: int| 0 <= j < i ==> #[trigger] hit_key(hits_view(evidence@)[j]) != hit_key(h),
        decreases evidence@.len() - i + if found { 0int } else { 1int },
    {
        let e = &evidence[i];
        let (el, ec) = match &e.source {
            Some(s) => (s.line, s.column),
            None => (None, None),
        };
        if e.term == term && el == line && ec == column {
            assert(hit_key(hits_view(evidence@)[i as int]) == hit_key(h));
            found = true;
        } else {
            i += 1;
        }
    }
    if found {
        return;
    }
    let ghost before = hits_view(evidence@);
    evidence.push(Hit { term, source: loc });
    assert(hits_view(evidence@) =~= before.push(h));
    assert(hits_wf(evidence@));
}

/// Scans text (anchored at `byte_offset` in the file) for vocabulary terms.
fn scan_text_for_vocab(
    text: &[u8],
    byte_offset: usize,
    evidence: &mut Vec<Hit>,
    path: &str,
    content_hash: &str,
    line_offsets: &LineOffsets,
)
    requires
        byte_offset + text@.len() <= usize::MAX,
        line_offsets.wf(),
        hits_wf(old(evidence)@),
    ensures
        hits_wf(final(evidence)@),
        hits_view(final(evidence)@) == text_terms(
            hits_view(old(evidence)@),
            text@,
            byte_offset as int,
            path@,
            content_hash@,
            line_offsets@,
            0,
        ),
{
    let mut t: usize = 0;
    while t < VOCAB_TERM_COUNT && evidence.len() < MAX_VOCAB_PER_FILE
        invariant
            t <= 16,
            byte_offset + text@.len() <= usize::MAX,
            line_offsets.wf(),
            hits_wf(evidence@),
            text_terms(
                hits_view(evidence@),
                text@,
                byte_offset as int,
                path@,
                content_hash@,
                line_offsets@,
                t as int,
            ) == text_terms(
                hits_view(old(evidence)@),
                text@,
                byte_offset as int,
                path@,
                content_hash@,
                line_offsets@,
                0,
            ),
        decreases 16 - t,
    {
        match first_term_hit(text, t) {
            Some(rel) => {
                let abs = byte_offset + rel;
                let loc = match line_offsets.line_col(abs) {
                    Some((line, column)) => Some(
                        SourceLocation {
                            path: path.to_owned(),
                            line: Some(line),
                            column: Some(column),
                            content_hash: content_hash.to_owned(),
                        },
                    ),
                    None => None,
                };
                push_vocab_evidence(t, loc, evidence);
            },
            None => {},
        }
        t += 1;
    }
    if t < VOCAB_TERM_COUNT {
        proof {
            lemma_text_terms_capped(
                hits_view(evidence@),
                text@,
                byte_offset as int,
                path@,
                content_hash@,
                line_offsets@,
                t as int,
            );
        }
    }
}

/// Scans the doc segment `seg` for vocabulary terms.
fn scan_doc_segment(seg: &DocSegment, evidence: &mut Vec<Hit>)
    requires
        match seg.source.column {
            Some(c) => c + vstd::utf8::encode_utf8(seg.text@).len() <= u32::MAX,
            None => true,
        },
        hits_wf(old(evidence)@),
    ensures
        hits_wf(final(evidence)@),
        hits_view(final(evidence)@) == doc_terms(
            hits_view(old(evidence)@),
            (vstd::utf8::encode_utf8(seg.text@), seg.source@),
            0,
        ),
{
    let text = seg.text.as_str().as_bytes();
    let ghost d = (vstd::utf8::encode_utf8(seg.text@), seg.source@);
    let mut t: usize = 0;
    while t < VOCAB_TERM_COUNT && evidence.len() < MAX_VOCAB_PER_FILE
        invariant
            t <= 16,
            hits_wf(evidence@),
            text@ == d.0,
            d == (vstd::utf8::encode_utf8(seg.text@), seg.source@),
            match seg.source.column {
                Some(c) => c + vstd::utf8::encode_utf8(seg.text@).len() <= u32::MAX,
                None => true,
            },
            doc_terms(hits_view(evidence@), d, t as int) == doc_terms(
                hits_view(old(evidence)@),
                d,
                0,
            ),
        decreases 16 - t,
    {
        match first_term_hit(text, t) {
            Some(rel) => {
                let column = match seg.source.column {
                    Some(c) => Some(c + rel as u32),
                    None => None,
                };
                let loc = SourceLocation {
                    path: seg.source.path.clone(),
                    line: seg.source.line,
                    column,
                    content_hash: seg.source.content_hash.clone(),
                };
                assert(loc@ == doc_loc(seg.source@, rel as int));
                push_vocab_evidence(t, Some(loc), evidence);
            },
            None => {},
        }
        t += 1;
    }
    if t < VOCAB_TERM_COUNT {
        proof {
            lemma_doc_terms_capped(hits_view(evidence@), d, t as int);
        }
    }
}

/// Views of doc segments: text bytes and location.
pub open spec fn docs_view(docs: Seq<DocSegment>) -> Seq<(Seq<u8>, LocV)> {
    docs.map_values(|d: DocSegment| (vstd::utf8::encode_utf8(d.text@), d.source@))
}

/// Views of comment segments.
pub open spec fn segs_view(segs: Seq<AnnotatedSegment>) -> Seq<(Seq<u8>, int)> {
    segs.map_values(|s: AnnotatedSegment| s@)
}

/// Name of each hit, ordered stably by term name.
fn name_and_sort(hits: &Vec<Hit>, path: &str) -> (out: Vec<VocabularyEvidence>)
    requires
        hits_wf(hits@),
    ensures
        out@.map_values(|e: VocabularyEvidence| e@) == by_rank_from(hits_view(hits@), 0).map_values(
            |h: HitV| (path@, term_name(h.0), h.1),
        ),
{
    let ghost hv = hits_view(hits@);
    let ghost f = |h: HitV| (path@, term_name(h.0), h.1);
    let mut out: Vec<VocabularyEvidence> = Vec::new();
    let mut r: usize = 0;
    while r < VOCAB_TERM_COUNT
        invariant
            r <= 16,
            hits_wf(hits@),
            hv == hits_view(hits@),
            f == (|h: HitV| (path@, term_name(h.0), h.1)),
            out@.map_values(|e: VocabularyEvidence| e@) + by_rank_from(hv, r as int).map_values(f)
                == by_rank_from(hv, 0).map_values(f),
        decreases 16 - r,
    {
        let ghost start = out@.map_values(|e: VocabularyEvidence| e@);
        let mut i: usize = 0;
        while i < hits.len()
            invariant
                r < 16,
                hits_wf(hits@),
                i <= hits@.len(),
                hv == hits_view(hits@),
                f == (|h: HitV| (path@, term_name(h.0), h.1)),
                out@.map_values(|e: VocabularyEvidence| e@) == start + hv.take(i as int).filter(rank_is(r as int)).map_values(f),
            decreases hits@.len() - i,
        {
            let h = &hits[i];
            proof {
                assert(hv.take(i + 1).drop_last() =~= hv.take(i as int));
                assert(hv.take(i + 1).last() == hv[i as int]);
                reveal_with_fuel(Seq::filter, 1);
            }
            if term_rank_of(h.term) == r {
                let loc = match &h.source {
                    Some(s) => Some(s.clone()),
                    None => None,
                };
                let e = VocabularyEvidence {
                    path: path.to_owned(),
                    term: term_name_str(h.term).to_owned(),
                    source: loc,
                };
                let ghost prev = out@.map_values(|e: VocabularyEvidence| e@);
                out.push(e);
                proof {
                    assert(out@.map_values(|e: VocabularyEvidence| e@) =~= prev.push(e@));
                    assert(hv.take(i + 1).filter(rank_is(r as int)) =~= hv.take(
                        i as int,
                    ).filter(rank_is(r as int)).push(hv[i as int]));
                    assert(hv.take(i + 1).filter(rank_is(r as int)).map_values(f)
                        =~= hv.take(i as int).filter(rank_is(r as int)).map_values(
                        f,
                    ).push(f(hv[i as int])));
                }
            } else {
                proof {
                    assert(hv.take(i + 1).filter(rank_is(r as int)) =~= hv.take(
                        i as int,
                    ).filter(rank_is(r as int)));
                }
            }
            i += 1;
        }
        proof {
            assert(hv.take(hits@.len() as int) =~= hv);
            let a = hv.filter(rank_is(r as int));
            let b = by_rank_from(hv, r + 1);
            assert((a + b).map_values(f) =~= a.map_values(f) + b.map_values(f));
        }
        r += 1;
    }
    proof {
        assert(by_rank_from(hv, 16) =~= seq![]);
        assert(out@.map_values(|e: VocabularyEvidence| e@) + seq![] =~= out@.map_values(
            |e: VocabularyEvidence| e@,
        ));
    }
    out
}

/// Scans doc segments, comment segments, and optional README text of one
/// file for curated vocabulary terms.
///
/// Each term contributes at most one hit per segment (its first matching
/// pattern); hits with an already-seen `(term, line, column)` are dropped and
/// at most [`MAX_VOCAB_PER_FILE`] hits are kept. The result is sorted stably
/// by term name.
pub fn scan_vocabulary(
    doc_segments: &[DocSegment],
    comment_segments: &[AnnotatedSegment],
    readme_source: Option<&str>,
    path: &str,
    content_hash: &str,
    line_offsets: &LineOffsets,
) -> (evidence: Vec<VocabularyEvidence>)
    requires
        line_offsets.wf(),
        forall|i: int|
            0 <= i < doc_segments@.len() ==> match (#[trigger] doc_segments@[i]).source.column {
                Some(c) => c + vstd::utf8::encode_utf8(doc_segments@[i].text@).len() <= u32::MAX,
                None => true,
            },
        forall|i: int|
            0 <= i < comment_segments@.len() ==> (#[trigger] comment_segments@[i]).byte_start
                + comment_segments@[i].text@.len() <= usize::MAX,
    ensures
        evidence@.map_values(|e: VocabularyEvidence| e@) == spec_scan_vocabulary(
            docs_view(doc_segments@),
            segs_view(comment_segments@),
            match readme_source {
                Some(r) => Some(r.spec_bytes()),
                None => None,
            },
            path@,
            content_hash@,
            line_offsets@,
        ),
        vocabulary_law(evidence@.map_values(|e: VocabularyEvidence| e@), path@),
        docs_one_based(doc_segments@) && line_offsets@.last() + 8192 < u32::MAX ==> forall|i: int|
            0 <= i < evidence@.len() ==> loc_ok(opt_loc((#[trigger] evidence@[i]).source)),
{
    let mut hits: Vec<Hit> = Vec::new();
    let ghost docs = docs_view(doc_segments@);
    assert(hits_view(hits@) =~= seq![]);
    let mut i: usize = 0;
    while i < doc_segments.len() && hits.len() < MAX_VOCAB_PER_FILE
        invariant
            i <= doc_segments@.len(),
            hits_wf(hits@),
            docs == docs_view(doc_segments@),
            forall|i: int|
                0 <= i < doc_segments@.len() ==> match (#[trigger] doc_segments@[i]).source.column {
                    Some(c) => c + vstd::utf8::encode_utf8(doc_segments@[i].text@).len() <= u32::MAX,
                    None => true,
                },
            docs_pass(hits_view(hits@), docs, i as int) == docs_pass(seq![], docs, 0),
        decreases doc_segments@.len() - i,
    {
        scan_doc_segment(&doc_segments[i], &mut hits);
        i += 1;
    }
    if i < doc_segments.len() {
        proof {
            lemma_docs_pass_capped(hits_view(hits@), docs, i as int);
        }
    }
    let ghost segs = segs_view(comment_segments@);
    let mut j: usize = 0;
    while j < comment_segments.len()
        invariant
            j <= comment_segments@.len(),
            hits_wf(hits@),
            segs == segs_view(comment_segments@),
            line_offsets.wf(),
            forall|i: int|
                0 <= i < comment_segments@.len() ==> (#[trigger] comment_segments@[i]).byte_start
                    + comment_segments@[i].text@.len() <= usize::MAX,
            comments_pass(hits_view(hits@), segs, path@, content_hash@, line_offsets@, j as int)
                == comments_pass(
                docs_pass(seq![], docs, 0),
                segs,
                path@,
                content_hash@,
                line_offsets@,
                0,
            ),
        decreases comment_segments@.len() - j,
    {
        let seg = &comment_segments[j];
        scan_text_for_vocab(
            seg.text.as_slice(),
            seg.byte_start,
            &mut hits,
            path,
            content_hash,
            line_offsets,
        );
        j += 1;
    }
    match readme_source {
        Some(readme) => {
            let rb = readme.as_bytes();
            assert(rb@.len() == rb.len());
            scan_text_for_vocab(
                rb,
                0,
                &mut hits,
                path,
                content_hash,
                line_offsets,
            );
        },
        None => {},
    }
    let out = name_and_sort(&hits, path);
    proof {
        lemma_scan_vocabulary_law(
            docs_view(doc_segments@),
            segs_view(comment_segments@),
            match readme_source {
                Some(r) => Some(r.spec_bytes()),
                None => None,
            },
            path@,
            content_hash@,
            line_offsets@,
        );
        let dv = docs_view(doc_segments@);
        let sv = segs_view(comment_segments@);
        let rv = match readme_source {
            Some(r) => Some(r.spec_bytes()),
            None => None,
        };
        if docs_one_based(doc_segments@) && line_offsets@.last() + 8192 < u32::MAX {
            assert(docs_located(dv)) by {
                assert forall|i: int| 0 <= i < dv.len() implies (match (#[trigger] dv[i]).1.1 {
                    Some(x) => x >= 1,
                    None => true,
                }) && (match dv[i].1.2 {
                    Some(c) => c >= 1 && c + dv[i].0.len() <= u32::MAX,
                    None => true,
                }) by {
                    assert(dv[i] == (vstd::utf8::encode_utf8(doc_segments@[i].text@), doc_segments@[i].source@));
                }
            }
            assert forall|k: int| 0 <= k < sv.len() implies 0 <= (#[trigger] sv[k]).1 by {
                assert(sv[k] == comment_segments@[k]@);
            }
            lemma_vocabulary_locations(dv, sv, rv, path@, content_hash@, line_offsets@);
            let ev = out@.map_values(|e: VocabularyEvidence| e@);
            assert forall|i: int| 0 <= i < out@.len() implies loc_ok(opt_loc((#[trigger] out@[i]).source)) by {
                assert(ev[i] == out@[i]@);
            }
        }
    }
    out
}

} // verus!
