//! Lexical extraction of comment segments from Rust source bytes.
//!
//! String, raw-string, byte-string and character literals are skipped so that
//! their contents never count as comments. Block comments nest.

use vstd::prelude::*;

use vstd::string::StringSliceAdditionalSpecFns;

use crate::text::copy_range;

verus! {

/// A comment's text together with the byte offset that anchors it in the source.
#[derive(Debug)]
pub struct AnnotatedSegment {
    /// The raw bytes of the comment body (without the comment markers).
    pub text: Vec<u8>,
    /// Byte offset of the segment's anchor in the original source.
    pub byte_start: usize,
}

impl View for AnnotatedSegment {
    type V = (Seq<u8>, int);

    open spec fn view(&self) -> (Seq<u8>, int) {
        (self.text@, self.byte_start as int)
    }
}

pub open spec fn NL() -> u8 {
    0x0a
}

pub open spec fn SLASH() -> u8 {
    0x2f
}

pub open spec fn STAR() -> u8 {
    0x2a
}

pub open spec fn DQUOTE() -> u8 {
    0x22
}

pub open spec fn SQUOTE() -> u8 {
    0x27
}

pub open spec fn BACKSLASH() -> u8 {
    0x5c
}

pub open spec fn HASH() -> u8 {
    0x23
}

pub open spec fn LOWER_R() -> u8 {
    0x72
}

pub open spec fn LOWER_B() -> u8 {
    0x62
}

/// End of a line comment body starting at `j`: the next newline or the end.
pub open spec fn line_end(b: Seq<u8>, j: int) -> int
    decreases b.len() - j,
{
    if j < 0 || j >= b.len() || b[j] == NL() {
        j
    } else {
        line_end(b, j + 1)
    }
}

/// Scan of a (nested) block comment body from `j` at nesting `depth`:
/// the position where scanning stops and the end of the comment text.
pub open spec fn block_scan(b: Seq<u8>, j: int, depth: int, text_end: int) -> (int, int)
    decreases b.len() - j,
{
    if 0 <= j && j + 1 < b.len() && depth > 0 {
        if b[j] == SLASH() && b[j + 1] == STAR() {
            block_scan(b, j + 2, depth + 1, text_end)
        } else if b[j] == STAR() && b[j + 1] == SLASH() {
            if depth == 1 {
                block_scan(b, j + 2, 0, j)
            } else {
                block_scan(b, j + 2, depth - 1, text_end)
            }
        } else {
            block_scan(b, j + 1, depth, text_end)
        }
    } else {
        (j, text_end)
    }
}

/// End of a quoted literal body starting at `j` and closed by `q`;
/// a backslash escapes the next byte; `nl` makes a newline end it too.
pub open spec fn quoted_end(b: Seq<u8>, j: int, q: u8, nl: bool) -> int
    decreases b.len() + 2 - j,
{
    if j < 0 || j >= b.len() {
        j
    } else if b[j] == BACKSLASH() {
        quoted_end(b, j + 2, q, nl)
    } else if b[j] == q {
        j + 1
    } else if nl && b[j] == NL() {
        j + 1
    } else {
        quoted_end(b, j + 1, q, nl)
    }
}

/// First position at or after `j` that is not a `#`.
pub open spec fn hashes_end(b: Seq<u8>, j: int) -> int
    decreases b.len() - j,
{
    if j < 0 || j >= b.len() || b[j] != HASH() {
        j
    } else {
        hashes_end(b, j + 1)
    }
}

/// Number of consecutive `#` at `j`, at most `h`.
pub open spec fn close_count(b: Seq<u8>, j: int, h: int) -> int
    decreases h,
{
    if h <= 0 || j < 0 || j >= b.len() || b[j] != HASH() {
        0
    } else {
        1 + close_count(b, j + 1, h - 1)
    }
}

/// End of a raw string body starting at `j` that closes with `"` and `h` hashes.
pub open spec fn raw_body_end(b: Seq<u8>, j: int, h: int) -> int
    decreases b.len() - j,
{
    if j < 0 || j >= b.len() {
        j
    } else if b[j] == DQUOTE() {
        let c = close_count(b, j + 1, h);
        if c == h {
            j + 1 + c
        } else if 0 <= c && j + 1 + c <= b.len() {
            raw_body_end(b, j + 1 + c, h)
        } else {
            j
        }
    } else {
        raw_body_end(b, j + 1, h)
    }
}

/// End of a raw string literal whose hashes start at `j` (just after the `r`).
pub open spec fn raw_from(b: Seq<u8>, j: int) -> int {
    let k = hashes_end(b, j);
    if k < b.len() && b[k] == DQUOTE() {
        raw_body_end(b, k + 1, k - j)
    } else {
        k
    }
}

/// One lexer step at `i`: the next position and, for a comment, the
/// segment `(text start, text end, anchor)`.
pub open spec fn lex_step(b: Seq<u8>, i: int) -> (int, Option<(int, int, int)>) {
    let c = b[i];
    if c == SLASH() && i + 1 < b.len() {
        if b[i + 1] == SLASH() {
            let e = line_end(b, i + 2);
            (e, Some((i + 2, e, i + 2)))
        } else if b[i + 1] == STAR() {
            let r = block_scan(b, i + 2, 1, i + 2);
            (r.0, if r.1 > i + 2 { Some((i + 2, r.1, i)) } else { None })
        } else {
            (i + 1, None)
        }
    } else if c == DQUOTE() {
        (quoted_end(b, i + 1, DQUOTE(), true), None)
    } else if c == LOWER_R() && i + 1 < b.len() && (b[i + 1] == DQUOTE() || b[i + 1] == HASH()) {
        (raw_from(b, i + 1), None)
    } else if c == LOWER_B() && i + 1 < b.len() {
        if b[i + 1] == DQUOTE() {
            (quoted_end(b, i + 2, DQUOTE(), true), None)
        } else if b[i + 1] == LOWER_R() && i + 2 < b.len() && (b[i + 2] == DQUOTE() || b[i + 2]
            == HASH()) {
            (raw_from(b, i + 2), None)
        } else if b[i + 1] == SQUOTE() {
            (quoted_end(b, i + 2, SQUOTE(), false), None)
        } else {
            (i + 1, None)
        }
    } else if c == SQUOTE() {
        (quoted_end(b, i + 1, SQUOTE(), true), None)
    } else {
        (i + 1, None)
    }
}

/// Comment segments `(text, anchor)` found when lexing from `i`.
pub open spec fn lex_from(b: Seq<u8>, i: int) -> Seq<(Seq<u8>, int)>
    decreases b.len() + 1 - i,
{
    if i < 0 || i >= b.len() {
        seq![]
    } else {
        let (next, seg) = lex_step(b, i);
        let here: Seq<(Seq<u8>, int)> = match seg {
            Some((s, e, a)) => seq![(b.subrange(s, e), a)],
            None => seq![],
        };
        if i < next <= b.len() + 1 {
            here + lex_from(b, next)
        } else {
            here
        }
    }
}

/// All comment segments of the source bytes `b`, in source order.
pub open spec fn comment_segments(b: Seq<u8>) -> Seq<(Seq<u8>, int)> {
    lex_from(b, 0)
}

/// Whether segment `(t, a)` is anchored in `b`: its text is the bytes at its
/// anchor (a line comment), or the bytes just after a `/*` at its anchor (a
/// block comment).
pub open spec fn anchored(b: Seq<u8>, seg: (Seq<u8>, int)) -> bool {
    let (t, a) = seg;
    &&& 0 <= a
    &&& ({
        ||| a + t.len() <= b.len() && b.subrange(a, a + t.len()) == t
        ||| a + 2 + t.len() <= b.len() && b[a] == SLASH() && b[a + 1] == STAR() && b.subrange(
            a + 2,
            a + 2 + t.len(),
        ) == t
    })
}

proof fn lemma_line_end_bounds(b: Seq<u8>, j: int)
    requires
        0 <= j <= b.len(),
    ensures
        j <= line_end(b, j) <= b.len(),
        line_end(b, j) < b.len() ==> b[line_end(b, j)] == NL(),
    decreases b.len() - j,
{
    if j < b.len() && b[j] != NL() {
        lemma_line_end_bounds(b, j + 1);
    }
}

proof fn lemma_block_scan_bounds(b: Seq<u8>, j: int, depth: int, te: int)
    requires
        0 <= j,
        te <= b.len(),
    ensures
        block_scan(b, j, depth, te).0 >= j,
        block_scan(b, j, depth, te).1 <= b.len(),
        block_scan(b, j, depth, te).1 == te || block_scan(b, j, depth, te).1 >= j,
    decreases b.len() - j,
{
    if 0 <= j && j + 1 < b.len() && depth > 0 {
        if b[j] == SLASH() && b[j + 1] == STAR() {
            lemma_block_scan_bounds(b, j + 2, depth + 1, te);
        } else if b[j] == STAR() && b[j + 1] == SLASH() {
            if depth == 1 {
                lemma_block_scan_bounds(b, j + 2, 0, j);
            } else {
                lemma_block_scan_bounds(b, j + 2, depth - 1, te);
            }
        } else {
            lemma_block_scan_bounds(b, j + 1, depth, te);
        }
    }
}

proof fn lemma_lex_from_anchored(b: Seq<u8>, i: int)
    requires
        0 <= i,
    ensures
        forall|k: int| 0 <= k < lex_from(b, i).len() ==> (#[trigger] lex_from(b, i)[k]).1 >= i,
        i < b.len() && b[i] == NL() ==> forall|k: int|
            0 <= k < lex_from(b, i).len() ==> (#[trigger] lex_from(b, i)[k]).1 > i,
        forall|k: int| 0 <= k < lex_from(b, i).len() ==> anchored(b, #[trigger] lex_from(b, i)[k]),
        forall|k: int, m: int|
            0 <= k < m < lex_from(b, i).len() ==> (#[trigger] lex_from(b, i)[k]).1 < (#[trigger] lex_from(
                b,
                i,
            )[m]).1,
    decreases b.len() + 1 - i,
{
    if i < b.len() {
        let st = lex_step(b, i);
        let next = st.0;
        let here: Seq<(Seq<u8>, int)> = match st.1 {
            Some((s, e, a)) => seq![(b.subrange(s, e), a)],
            None => seq![],
        };
        let c = b[i];
        if c == SLASH() && i + 1 < b.len() && b[i + 1] == SLASH() {
            lemma_line_end_bounds(b, i + 2);
        }
        if c == SLASH() && i + 1 < b.len() && b[i + 1] == STAR() {
            lemma_block_scan_bounds(b, i + 2, 1, i + 2);
        }
        let out = lex_from(b, i);
        if i < next <= b.len() + 1 {
            lemma_lex_from_anchored(b, next);
            let rest = lex_from(b, next);
            assert(out == here + rest);
            // a segment here ends before the next one starts
            if here.len() == 1 {
                let a = here[0].1;
                assert(a < next || (a == next && (next == b.len() || b[next] == NL())));
                if a == next && next < b.len() {
                    assert forall|k: int| 0 <= k < rest.len() implies (#[trigger] rest[k]).1 > a by {}
                }
                if next >= b.len() {
                    assert(rest.len() == 0);
                }
                assert(anchored(b, here[0])) by {
                    let t = here[0].0;
                    if c == SLASH() && b[i + 1] == SLASH() {
                        assert(b.subrange(a, a + t.len()) =~= t);
                    } else {
                        assert(b.subrange(a + 2, a + 2 + t.len()) =~= t);
                    }
                }
            }
            assert forall|k: int| 0 <= k < out.len() implies (#[trigger] out[k]).1 >= i && anchored(b, out[k]) by {
                if k >= here.len() {
                    assert(out[k] == rest[k - here.len()]);
                }
            }
            assert forall|k: int, m: int| 0 <= k < m < out.len() implies (#[trigger] out[k]).1 < (#[trigger] out[m]).1 by {
                if k >= here.len() {
                    assert(out[k] == rest[k - here.len()]);
                }
                assert(out[m] == rest[m - here.len()]);
            }
            if b[i] == NL() {
                assert(here.len() == 0);
            }
        } else {
            assert(out == here);
            if here.len() == 1 {
                let a = here[0].1;
                let t = here[0].0;
                assert(anchored(b, here[0])) by {
                    if c == SLASH() && b[i + 1] == SLASH() {
                        assert(b.subrange(a, a + t.len()) =~= t);
                    } else {
                        assert(b.subrange(a + 2, a + 2 + t.len()) =~= t);
                    }
                }
            }
        }
    }
}

/// Comment segments come in source order and point into the source: their
/// anchors strictly increase, and each segment's text is the source bytes at
/// its anchor (line comments) or right after the `/*` at its anchor (block
/// comments).
pub proof fn lemma_comment_segments_ordered_anchored(b: Seq<u8>)
    ensures
        forall|k: int, m: int|
            0 <= k < m < comment_segments(b).len() ==> (#[trigger] comment_segments(b)[k]).1 < (
            #[trigger] comment_segments(b)[m]).1,
        forall|k: int| 0 <= k < comment_segments(b).len() ==> anchored(b, #[trigger] comment_segments(b)[k]),
{
    lemma_lex_from_anchored(b, 0);
}

fn scan_line_end(b: &[u8], j: usize) -> (k: usize)
    requires
        j <= b@.len(),
    ensures
        k == line_end(b@, j as int),
        j <= k <= b@.len(),
{
    let mut k = j;
    while k < b.len() && b[k] != 0x0a
        invariant
            j <= k <= b@.len(),
            line_end(b@, k as int) == line_end(b@, j as int),
        decreases b@.len() - k,
    {
        k += 1;
    }
    k
}

fn scan_block(b: &[u8], start: usize) -> (r: (usize, usize))
    requires
        2 <= start <= b@.len(),
    ensures
        (r.0 as int, r.1 as int) == block_scan(b@, start as int, 1, start as int),
        start <= r.0 <= b@.len(),
        r.1 > start ==> r.1 < b@.len(),
        r.1 >= start,
{
    let mut j = start;
    let mut depth: usize = 1;
    let mut text_end = start;
    while b.len() > 1 && j < b.len() - 1 && depth > 0
        invariant
            start <= j <= b@.len(),
            depth <= j,
            start <= text_end,
            text_end > start ==> text_end < b@.len(),
            block_scan(b@, j as int, depth as int, text_end as int) == block_scan(
                b@,
                start as int,
                1,
                start as int,
            ),
        decreases b@.len() - j,
    {
        if b[j] == 0x2f && b[j + 1] == 0x2a {
            depth += 1;
            j += 2;
        } else if b[j] == 0x2a && b[j + 1] == 0x2f {
            depth -= 1;
            if depth == 0 {
                text_end = j;
            }
            j += 2;
        } else {
            j += 1;
        }
    }
    (j, text_end)
}

fn scan_quoted(b: &[u8], j: usize, q: u8, nl: bool) -> (k: usize)
    requires
        j <= b@.len(),
        b@.len() < usize::MAX,
    ensures
        k == quoted_end(b@, j as int, q, nl),
        j <= k <= b@.len() + 1,
{
    let mut k = j;
    while k < b.len()
        invariant
            j <= k <= b@.len() + 1,
            b@.len() < usize::MAX,
            quoted_end(b@, k as int, q, nl) == quoted_end(b@, j as int, q, nl),
        decreases b@.len() + 2 - k,
    {
        let c = b[k];
        if c == 0x5c {
            k += 2;
        } else if c == q {
            return k + 1;
        } else if nl && c == 0x0a {
            return k + 1;
        } else {
            k += 1;
        }
    }
    k
}

fn scan_hashes(b: &[u8], j: usize) -> (k: usize)
    requires
        j <= b@.len(),
    ensures
        k == hashes_end(b@, j as int),
        j <= k <= b@.len(),
{
    let mut k = j;
    while k < b.len() && b[k] == 0x23
        invariant
            j <= k <= b@.len(),
            hashes_end(b@, k as int) == hashes_end(b@, j as int),
        decreases b@.len() - k,
    {
        k += 1;
    }
    k
}

fn scan_raw(b: &[u8], j: usize) -> (k: usize)
    requires
        j <= b@.len(),
    ensures
        k == raw_from(b@, j as int),
        j <= k <= b@.len(),
{
    let k0 = scan_hashes(b, j);
    if k0 < b.len() && b[k0] == 0x22 {
        let h = k0 - j;
        let mut k = k0 + 1;
        while k < b.len()
            invariant
                j <= k0 < k <= b@.len(),
                h == k0 - j,
                b@[k0 as int] == 0x22,
                k0 == hashes_end(b@, j as int),
                raw_body_end(b@, k as int, h as int) == raw_body_end(b@, k0 + 1, h as int),
            decreases b@.len() - k,
        {
            if b[k] == 0x22 {
                let ghost q = k;
                k += 1;
                let ghost k1 = k;
                let mut closing: usize = 0;
                while k < b.len() && b[k] == 0x23 && closing < h
                    invariant
                        k1 <= k <= b@.len(),
                        k == k1 + closing,
                        closing <= h,
                        close_count(b@, k1 as int, h as int) == closing + close_count(
                            b@,
                            k as int,
                            h - closing,
                        ),
                    decreases h - closing,
                {
                    closing += 1;
                    k += 1;
                }
                proof {
                    assert(close_count(b@, k as int, h - closing) == 0);
                    assert(close_count(b@, k1 as int, h as int) == closing);
                }
                if closing == h {
                    proof {
                        assert(raw_body_end(b@, q as int, h as int) == k);
                        assert(raw_body_end(b@, q as int, h as int) == raw_body_end(b@, k0 + 1, h as int));
                        assert(raw_from(b@, j as int) == raw_body_end(b@, k0 + 1, h as int));
                    }
                    return k;
                }
                proof {
                    assert(raw_body_end(b@, q as int, h as int) == raw_body_end(b@, k as int, h as int));
                }
            } else {
                k += 1;
            }
        }
        k
    } else {
        k0
    }
}

fn lex_step_exec(b: &[u8], i: usize) -> (r: (usize, Option<(usize, usize, usize)>))
    requires
        i < b@.len(),
        b@.len() < usize::MAX,
    ensures
        r.0 > i,
        r.0 <= b@.len() + 1,
        r.0 as int == lex_step(b@, i as int).0,
        match (r.1, lex_step(b@, i as int).1) {
            (Some((s, e, a)), Some((ss, ee, aa))) => s == ss && e == ee && a == aa && s <= e
                <= b@.len(),
            (None, None) => true,
            _ => false,
        },
{
    let len = b.len();
    let c = b[i];
    if c == 0x2f && i + 1 < len {
        if b[i + 1] == 0x2f {
            let e = scan_line_end(b, i + 2);
            (e, Some((i + 2, e, i + 2)))
        } else if b[i + 1] == 0x2a {
            let (j, te) = scan_block(b, i + 2);
            if te > i + 2 {
                (j, Some((i + 2, te, i)))
            } else {
                (j, None)
            }
        } else {
            (i + 1, None)
        }
    } else if c == 0x22 {
        (scan_quoted(b, i + 1, 0x22, true), None)
    } else if c == 0x72 && i + 1 < len && (b[i + 1] == 0x22 || b[i + 1] == 0x23) {
        (scan_raw(b, i + 1), None)
    } else if c == 0x62 && i + 1 < len {
        if b[i + 1] == 0x22 {
            (scan_quoted(b, i + 2, 0x22, true), None)
        } else if b[i + 1] == 0x72 && i + 2 < len && (b[i + 2] == 0x22 || b[i + 2] == 0x23) {
            (scan_raw(b, i + 2), None)
        } else if b[i + 1] == 0x27 {
            (scan_quoted(b, i + 2, 0x27, false), None)
        } else {
            (i + 1, None)
        }
    } else if c == 0x27 {
        (scan_quoted(b, i + 1, 0x27, true), None)
    } else {
        (i + 1, None)
    }
}

/// Extracts the comment segments of `source`.
///
/// Line comments are anchored at the first byte after `//`; block comments
/// (which nest) at their opening `/*` and are kept only when their body is
/// nonempty and closed. Literal contents are never reported.
pub fn extract_comment_segments(source: &str) -> (segments: Vec<AnnotatedSegment>)
    requires
        source.spec_bytes().len() < usize::MAX,
    ensures
        segments@.map_values(|s: AnnotatedSegment| s@) == comment_segments(source.spec_bytes()),
{
    let b = source.as_bytes();
    let len = b.len();
    let mut i: usize = 0;
    let mut segments: Vec<AnnotatedSegment> = Vec::new();
    while i < len
        invariant
            len == b@.len(),
            b@.len() < usize::MAX,
            i <= len + 1,
            segments@.map_values(|s: AnnotatedSegment| s@) + lex_from(b@, i as int) == lex_from(
                b@,
                0,
            ),
        decreases len + 1 - i,
    {
        let ghost before = segments@.map_values(|s: AnnotatedSegment| s@);
        let (next, seg) = lex_step_exec(b, i);
        match seg {
            Some((s, e, a)) => {
                let text = copy_range(b, s, e);
                segments.push(AnnotatedSegment { text, byte_start: a });
                assert(segments@.map_values(|s: AnnotatedSegment| s@) =~= before.push(
                    (b@.subrange(s as int, e as int), a as int),
                ));
                assert(before.push((b@.subrange(s as int, e as int), a as int)) + lex_from(
                    b@,
                    next as int,
                ) =~= before + (seq![(b@.subrange(s as int, e as int), a as int)] + lex_from(
                    b@,
                    next as int,
                )));
            },
            None => {
                assert(before + lex_from(b@, next as int) =~= before + (seq![] + lex_from(
                    b@,
                    next as int,
                )));
            },
        }
        i = next;
    }
    assert(lex_from(b@, i as int) =~= seq![]);
    assert(segments@.map_values(|s: AnnotatedSegment| s@) + seq![] =~= segments@.map_values(
        |s: AnnotatedSegment| s@,
    ));
    segments
}

} // verus!
