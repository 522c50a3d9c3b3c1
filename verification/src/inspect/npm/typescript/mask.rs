//! Comment and string masking for conservative JavaScript/TypeScript scans.
//!
//! Masking keeps every byte offset: comments become spaces (newlines kept),
//! and string literals optionally become spaces too, so later scans never
//! match inside comments or strings while line numbers stay the same.

use vstd::prelude::*;

use crate::inspect::cargo::lock::utf8_text;

verus! {

/// Lexical state of the masking scan.
#[derive(Clone, Copy, Debug, PartialEq, Eq, Structural)]
pub enum MaskState {
    /// Ordinary code.
    Code,
    /// Inside a `//` comment.
    Line,
    /// Inside a `/* */` comment.
    Block,
    /// Inside a `'...'` string.
    Single,
    /// Inside a `"..."` string.
    Double,
    /// Inside a `` `...` `` template.
    Template,
}

/// The quote byte that closes a string state.
pub open spec fn closing_quote(st: MaskState) -> u8 {
    match st {
        MaskState::Single => 0x27u8,
        MaskState::Double => 0x22u8,
        _ => 0x60u8,
    }
}

/// The string state a quote byte opens.
pub open spec fn quote_state(b: u8) -> MaskState {
    if b == 0x27 {
        MaskState::Single
    } else if b == 0x22 {
        MaskState::Double
    } else {
        MaskState::Template
    }
}

/// Whether `b` opens a string in code.
pub open spec fn is_quote(b: u8) -> bool {
    b == 0x27 || b == 0x22 || b == 0x60
}

/// Whether `st` is one of the string states.
pub open spec fn in_string(st: MaskState) -> bool {
    st is Single || st is Double || st is Template
}

/// The byte written for a string byte: a space when strings are masked,
/// except for newlines.
pub open spec fn string_byte(b: u8, strings: bool) -> u8 {
    if strings && b != 0x0a {
        0x20u8
    } else {
        b
    }
}

/// Masked bytes of `b` from position `i` in state `st`.
pub open spec fn mask_from(b: Seq<u8>, i: int, st: MaskState, strings: bool) -> Seq<u8>
    decreases b.len() - i,
{
    if i < 0 || i >= b.len() {
        seq![]
    } else {
        let byte = b[i];
        let has_next = i + 1 < b.len();
        match st {
            MaskState::Code => {
                if byte == 0x2f && has_next && b[i + 1] == 0x2f {
                    seq![0x20u8, 0x20u8] + mask_from(b, i + 2, MaskState::Line, strings)
                } else if byte == 0x2f && has_next && b[i + 1] == 0x2a {
                    seq![0x20u8, 0x20u8] + mask_from(b, i + 2, MaskState::Block, strings)
                } else if is_quote(byte) {
                    seq![if strings { 0x20u8 } else { byte }] + mask_from(b, i + 1, quote_state(byte), strings)
                } else {
                    seq![byte] + mask_from(b, i + 1, MaskState::Code, strings)
                }
            },
            MaskState::Line => {
                if byte == 0x0a {
                    seq![byte] + mask_from(b, i + 1, MaskState::Code, strings)
                } else {
                    seq![0x20u8] + mask_from(b, i + 1, MaskState::Line, strings)
                }
            },
            MaskState::Block => {
                if byte == 0x2a && has_next && b[i + 1] == 0x2f {
                    seq![0x20u8, 0x20u8] + mask_from(b, i + 2, MaskState::Code, strings)
                } else {
                    seq![if byte == 0x0a { byte } else { 0x20u8 }] + mask_from(b, i + 1, MaskState::Block, strings)
                }
            },
            _ => {
                if byte == 0x5c && has_next {
                    seq![string_byte(byte, strings), string_byte(b[i + 1], strings)] + mask_from(
                        b,
                        i + 2,
                        st,
                        strings,
                    )
                } else if byte == closing_quote(st) {
                    seq![string_byte(byte, strings)] + mask_from(b, i + 1, MaskState::Code, strings)
                } else {
                    seq![string_byte(byte, strings)] + mask_from(b, i + 1, st, strings)
                }
            },
        }
    }
}

/// Masked bytes of a whole source.
pub open spec fn mask_bytes(b: Seq<u8>, strings: bool) -> Seq<u8> {
    mask_from(b, 0, MaskState::Code, strings)
}

/// Masked text: the masked bytes as text when they are valid UTF-8, and
/// empty otherwise.
pub open spec fn masked_text(text: Seq<char>, strings: bool) -> Seq<char> {
    let m = mask_bytes(vstd::utf8::encode_utf8(text), strings);
    if vstd::utf8::valid_utf8(m) {
        vstd::utf8::decode_utf8(m)
    } else {
        seq![]
    }
}

/// Whether `m` is `b` from position `i` with every byte offset kept: as
/// long as the rest of `b`, with newlines exactly where `b` has them.
pub open spec fn keeps_offsets(m: Seq<u8>, b: Seq<u8>, i: int) -> bool {
    &&& m.len() == b.len() - i
    &&& forall|k: int| 0 <= k < m.len() ==> (#[trigger] m[k] == 0x0au8 <==> b[i + k] == 0x0au8)
}

proof fn lemma_keeps_offsets_prepend(b: Seq<u8>, i: int, h: Seq<u8>, tail: Seq<u8>)
    requires
        0 <= i,
        i + h.len() <= b.len(),
        keeps_offsets(tail, b, i + h.len()),
        forall|k: int| 0 <= k < h.len() ==> (#[trigger] h[k] == 0x0au8 <==> b[i + k] == 0x0au8),
    ensures
        keeps_offsets(h + tail, b, i),
{
    let m = h + tail;
    assert forall|k: int| 0 <= k < m.len() implies (#[trigger] m[k] == 0x0au8 <==> b[i + k]
        == 0x0au8) by {
        if k >= h.len() {
            assert(m[k] == tail[k - h.len()]);
            assert(b[i + h.len() + (k - h.len())] == b[i + k]);
        }
    }
}

proof fn lemma_mask_from_keeps_offsets(b: Seq<u8>, i: int, st: MaskState, strings: bool)
    requires
        0 <= i <= b.len(),
    ensures
        keeps_offsets(mask_from(b, i, st, strings), b, i),
    decreases b.len() - i,
{
    if i == b.len() {
        return;
    }
    let byte = b[i];
    let has_next = i + 1 < b.len();
    let sp = 0x20u8;
    match st {
        MaskState::Code => {
            if byte == 0x2f && has_next && b[i + 1] == 0x2f {
                lemma_mask_from_keeps_offsets(b, i + 2, MaskState::Line, strings);
                lemma_keeps_offsets_prepend(b, i, seq![sp, sp], mask_from(b, i + 2, MaskState::Line, strings));
            } else if byte == 0x2f && has_next && b[i + 1] == 0x2a {
                lemma_mask_from_keeps_offsets(b, i + 2, MaskState::Block, strings);
                lemma_keeps_offsets_prepend(b, i, seq![sp, sp], mask_from(b, i + 2, MaskState::Block, strings));
            } else if is_quote(byte) {
                lemma_mask_from_keeps_offsets(b, i + 1, quote_state(byte), strings);
                lemma_keeps_offsets_prepend(
                    b,
                    i,
                    seq![if strings { sp } else { byte }],
                    mask_from(b, i + 1, quote_state(byte), strings),
                );
            } else {
                lemma_mask_from_keeps_offsets(b, i + 1, MaskState::Code, strings);
                lemma_keeps_offsets_prepend(b, i, seq![byte], mask_from(b, i + 1, MaskState::Code, strings));
            }
        },
        MaskState::Line => {
            if byte == 0x0a {
                lemma_mask_from_keeps_offsets(b, i + 1, MaskState::Code, strings);
                lemma_keeps_offsets_prepend(b, i, seq![byte], mask_from(b, i + 1, MaskState::Code, strings));
            } else {
                lemma_mask_from_keeps_offsets(b, i + 1, MaskState::Line, strings);
                lemma_keeps_offsets_prepend(b, i, seq![sp], mask_from(b, i + 1, MaskState::Line, strings));
            }
        },
        MaskState::Block => {
            if byte == 0x2a && has_next && b[i + 1] == 0x2f {
                lemma_mask_from_keeps_offsets(b, i + 2, MaskState::Code, strings);
                lemma_keeps_offsets_prepend(b, i, seq![sp, sp], mask_from(b, i + 2, MaskState::Code, strings));
            } else {
                lemma_mask_from_keeps_offsets(b, i + 1, MaskState::Block, strings);
                lemma_keeps_offsets_prepend(
                    b,
                    i,
                    seq![if byte == 0x0a { byte } else { sp }],
                    mask_from(b, i + 1, MaskState::Block, strings),
                );
            }
        },
        _ => {
            if byte == 0x5c && has_next {
                lemma_mask_from_keeps_offsets(b, i + 2, st, strings);
                lemma_keeps_offsets_prepend(
                    b,
                    i,
                    seq![string_byte(byte, strings), string_byte(b[i + 1], strings)],
                    mask_from(b, i + 2, st, strings),
                );
            } else if byte == closing_quote(st) {
                lemma_mask_from_keeps_offsets(b, i + 1, MaskState::Code, strings);
                lemma_keeps_offsets_prepend(
                    b,
                    i,
                    seq![string_byte(byte, strings)],
                    mask_from(b, i + 1, MaskState::Code, strings),
                );
            } else {
                lemma_mask_from_keeps_offsets(b, i + 1, st, strings);
                lemma_keeps_offsets_prepend(
                    b,
                    i,
                    seq![string_byte(byte, strings)],
                    mask_from(b, i + 1, st, strings),
                );
            }
        },
    }
}

/// Whether a byte of a multi-byte character keeps its value in state `st`:
/// in code, and in strings when strings are not masked.
pub open spec fn keeps_wide(st: MaskState, strings: bool) -> bool {
    st is Code || (in_string(st) && !strings)
}

/// Whether `m` is `b` from position `i` with every byte kept or made a
/// space, and the bytes of one multi-byte character treated alike: the
/// first as state `st` treats such bytes, each next one as the one before.
pub open spec fn treats_chars_alike(m: Seq<u8>, b: Seq<u8>, i: int, st: MaskState, strings: bool) -> bool {
    &&& m.len() == b.len() - i
    &&& forall|k: int| 0 <= k < m.len() ==> (#[trigger] m[k] == b[i + k] || m[k] == 0x20u8)
    &&& (m.len() > 0 && b[i] >= 0x80 ==> (m[0] == b[i] <==> keeps_wide(st, strings)))
    &&& forall|k: int|
        1 <= k < m.len() && b[i + k] >= 0x80 && b[i + k - 1] >= 0x80 ==> (#[trigger] m[k] == b[i + k]
            <==> m[k - 1] == b[i + k - 1])
}

proof fn lemma_treats_alike_prepend(
    b: Seq<u8>,
    i: int,
    st: MaskState,
    st2: MaskState,
    strings: bool,
    h: Seq<u8>,
    tail: Seq<u8>,
)
    requires
        0 <= i,
        1 <= h.len() <= 2,
        i + h.len() <= b.len(),
        treats_chars_alike(tail, b, i + h.len(), st2, strings),
        forall|k: int| 0 <= k < h.len() ==> (#[trigger] h[k] == b[i + k] || h[k] == 0x20u8),
        b[i] >= 0x80 ==> (h[0] == b[i] <==> keeps_wide(st, strings)),
        h.len() == 2 && b[i + 1] >= 0x80 ==> b[i] < 0x80,
        b[i + h.len() - 1] >= 0x80 ==> (h[h.len() - 1] == b[i + h.len() - 1] <==> keeps_wide(st2, strings)),
    ensures
        treats_chars_alike(h + tail, b, i, st, strings),
{
    let m = h + tail;
    let n = h.len() as int;
    assert forall|k: int| 0 <= k < m.len() implies (#[trigger] m[k] == b[i + k] || m[k] == 0x20u8) by {
        if k >= n {
            assert(m[k] == tail[k - n]);
            assert(b[i + n + (k - n)] == b[i + k]);
        }
    }
    assert forall|k: int|
        1 <= k < m.len() && b[i + k] >= 0x80 && b[i + k - 1] >= 0x80 implies (#[trigger] m[k] == b[i + k]
        <==> m[k - 1] == b[i + k - 1]) by {
        if k > n {
            assert(m[k] == tail[k - n]);
            assert(m[k - 1] == tail[k - 1 - n]);
            assert(b[i + n + (k - n)] == b[i + k]);
            assert(b[i + n + (k - n) - 1] == b[i + k - 1]);
        } else if k == n {
            assert(m[k] == tail[0]);
            assert(b[i + n + 0] == b[i + k]);
        }
    }
}

proof fn lemma_mask_from_treats_alike(b: Seq<u8>, i: int, st: MaskState, strings: bool)
    requires
        0 <= i <= b.len(),
    ensures
        treats_chars_alike(mask_from(b, i, st, strings), b, i, st, strings),
    decreases b.len() - i,
{
    if i == b.len() {
        return;
    }
    let byte = b[i];
    let has_next = i + 1 < b.len();
    let sp = 0x20u8;
    match st {
        MaskState::Code => {
            if byte == 0x2f && has_next && b[i + 1] == 0x2f {
                lemma_mask_from_treats_alike(b, i + 2, MaskState::Line, strings);
                lemma_treats_alike_prepend(b, i, st, MaskState::Line, strings, seq![sp, sp], mask_from(b, i + 2, MaskState::Line, strings));
            } else if byte == 0x2f && has_next && b[i + 1] == 0x2a {
                lemma_mask_from_treats_alike(b, i + 2, MaskState::Block, strings);
                lemma_treats_alike_prepend(b, i, st, MaskState::Block, strings, seq![sp, sp], mask_from(b, i + 2, MaskState::Block, strings));
            } else if is_quote(byte) {
                lemma_mask_from_treats_alike(b, i + 1, quote_state(byte), strings);
                lemma_treats_alike_prepend(
                    b,
                    i,
                    st,
                    quote_state(byte),
                    strings,
                    seq![if strings { sp } else { byte }],
                    mask_from(b, i + 1, quote_state(byte), strings),
                );
            } else {
                lemma_mask_from_treats_alike(b, i + 1, MaskState::Code, strings);
                lemma_treats_alike_prepend(b, i, st, MaskState::Code, strings, seq![byte], mask_from(b, i + 1, MaskState::Code, strings));
            }
        },
        MaskState::Line => {
            if byte == 0x0a {
                lemma_mask_from_treats_alike(b, i + 1, MaskState::Code, strings);
                lemma_treats_alike_prepend(b, i, st, MaskState::Code, strings, seq![byte], mask_from(b, i + 1, MaskState::Code, strings));
            } else {
                lemma_mask_from_treats_alike(b, i + 1, MaskState::Line, strings);
                lemma_treats_alike_prepend(b, i, st, MaskState::Line, strings, seq![sp], mask_from(b, i + 1, MaskState::Line, strings));
            }
        },
        MaskState::Block => {
            if byte == 0x2a && has_next && b[i + 1] == 0x2f {
                lemma_mask_from_treats_alike(b, i + 2, MaskState::Code, strings);
                lemma_treats_alike_prepend(b, i, st, MaskState::Code, strings, seq![sp, sp], mask_from(b, i + 2, MaskState::Code, strings));
            } else {
                lemma_mask_from_treats_alike(b, i + 1, MaskState::Block, strings);
                lemma_treats_alike_prepend(
                    b,
                    i,
                    st,
                    MaskState::Block,
                    strings,
                    seq![if byte == 0x0a { byte } else { sp }],
                    mask_from(b, i + 1, MaskState::Block, strings),
                );
            }
        },
        _ => {
            if byte == 0x5c && has_next {
                lemma_mask_from_treats_alike(b, i + 2, st, strings);
                lemma_treats_alike_prepend(
                    b,
                    i,
                    st,
                    st,
                    strings,
                    seq![string_byte(byte, strings), string_byte(b[i + 1], strings)],
                    mask_from(b, i + 2, st, strings),
                );
            } else if byte == closing_quote(st) {
                lemma_mask_from_treats_alike(b, i + 1, MaskState::Code, strings);
                lemma_treats_alike_prepend(
                    b,
                    i,
                    st,
                    MaskState::Code,
                    strings,
                    seq![string_byte(byte, strings)],
                    mask_from(b, i + 1, MaskState::Code, strings),
                );
            } else {
                lemma_mask_from_treats_alike(b, i + 1, st, strings);
                lemma_treats_alike_prepend(
                    b,
                    i,
                    st,
                    st,
                    strings,
                    seq![string_byte(byte, strings)],
                    mask_from(b, i + 1, st, strings),
                );
            }
        },
    }
}

proof fn lemma_ascii_valid(s: Seq<u8>)
    requires
        forall|k: int| 0 <= k < s.len() ==> #[trigger] s[k] < 0x80,
    ensures
        vstd::utf8::valid_utf8(s),
{
    assert(s.subrange(0, 0) =~= Seq::<u8>::empty());
    assert(vstd::utf8::valid_utf8(Seq::<u8>::empty()));
    assert forall|k: int| 0 <= 0 <= k < s.len() <= s.len() implies #[trigger] vstd::utf8::is_leading_byte_width_1(
        s[k],
    ) by {}
    vstd::utf8::partial_valid_utf8_extend_ascii_block(s, 0, s.len() as int);
    assert(s.subrange(0, s.len() as int) =~= s);
}

/// Bytes that differ from valid UTF-8 only by whole characters made spaces
/// are valid UTF-8.
proof fn lemma_spaced_chars_valid(m: Seq<u8>, b: Seq<u8>)
    requires
        vstd::utf8::valid_utf8(b),
        m.len() == b.len(),
        forall|k: int| 0 <= k < m.len() ==> (#[trigger] m[k] == b[k] || m[k] == 0x20u8),
        forall|k: int|
            1 <= k < m.len() && b[k] >= 0x80 && b[k - 1] >= 0x80 ==> (#[trigger] m[k] == b[k] <==> m[k - 1]
                == b[k - 1]),
    ensures
        vstd::utf8::valid_utf8(m),
    decreases b.len(),
{
    if b.len() == 0 {
        return;
    }
    let n = b.len() as int;
    let l = vstd::utf8::length_of_first_scalar(b);
    assert(1 <= l <= 4 && l <= n);
    let rb = b.subrange(l, n);
    let rm = m.subrange(l, n);
    assert(rb == vstd::utf8::pop_first_scalar(b));
    assert forall|k: int| 0 <= k < rm.len() implies (#[trigger] rm[k] == rb[k] || rm[k] == 0x20u8) by {
        assert(rm[k] == m[l + k] && rb[k] == b[l + k]);
    }
    assert forall|k: int|
        1 <= k < rm.len() && rb[k] >= 0x80 && rb[k - 1] >= 0x80 implies (#[trigger] rm[k] == rb[k] <==> rm[k
        - 1] == rb[k - 1]) by {
        assert(rm[k] == m[l + k] && rb[k] == b[l + k]);
        assert(rm[k - 1] == m[l + k - 1] && rb[k - 1] == b[l + k - 1]);
    }
    lemma_spaced_chars_valid(rm, rb);
    let hb = b.subrange(0, l);
    let hm = m.subrange(0, l);
    if l > 1 {
        assert(b[0] >= 0xc0);
        assert(b[1] >= 0x80);
        assert(m[1] == b[1] <==> m[0] == b[0]);
        if l > 2 {
            assert(b[2] >= 0x80);
            assert(m[2] == b[2] <==> m[1] == b[1]);
        }
        if l > 3 {
            assert(b[3] >= 0x80);
            assert(m[3] == b[3] <==> m[2] == b[2]);
        }
    }
    if m[0] == b[0] {
        assert(hm =~= hb);
        assert(vstd::utf8::is_char_boundary(b, l)) by {
            reveal_with_fuel(vstd::utf8::is_char_boundary, 2);
        }
        vstd::utf8::valid_utf8_split(b, l);
    } else {
        assert forall|k: int| 0 <= k < hm.len() implies #[trigger] hm[k] < 0x80 by {
            assert(hm[k] == m[k]);
        }
        lemma_ascii_valid(hm);
    }
    vstd::utf8::valid_utf8_concat(hm, rm);
    assert(hm + rm =~= m);
}

/// Masking text keeps it valid UTF-8: the masked text's bytes are exactly
/// the masked bytes of the text's bytes, so the masked text is as long in
/// bytes as the source and has its newlines at the same byte offsets.
pub proof fn lemma_masked_text_bytes(text: Seq<char>, strings: bool)
    ensures
        vstd::utf8::encode_utf8(masked_text(text, strings)) == mask_bytes(vstd::utf8::encode_utf8(text), strings),
        vstd::utf8::encode_utf8(masked_text(text, strings)).len() == vstd::utf8::encode_utf8(text).len(),
        forall|k: int|
            0 <= k < vstd::utf8::encode_utf8(text).len() ==> (#[trigger] vstd::utf8::encode_utf8(
                masked_text(text, strings),
            )[k] == 0x0au8 <==> vstd::utf8::encode_utf8(text)[k] == 0x0au8),
{
    let b = vstd::utf8::encode_utf8(text);
    vstd::utf8::encode_utf8_valid_utf8(text);
    lemma_mask_from_treats_alike(b, 0, MaskState::Code, strings);
    let m = mask_bytes(b, strings);
    assert forall|k: int| 0 <= k < m.len() implies (#[trigger] m[k] == b[k] || m[k] == 0x20u8) by {
        assert(b[0 + k] == b[k]);
    }
    assert forall|k: int|
        1 <= k < m.len() && b[k] >= 0x80 && b[k - 1] >= 0x80 implies (#[trigger] m[k] == b[k] <==> m[k - 1]
        == b[k - 1]) by {
        assert(b[0 + k] == b[k] && b[0 + k - 1] == b[k - 1]);
    }
    lemma_spaced_chars_valid(m, b);
    vstd::utf8::decode_utf8_encode_utf8(m);
    lemma_mask_keeps_offsets(b, strings);
}

/// Masking keeps every byte offset: the masked bytes are exactly as long as
/// the source, and a byte is a newline after masking exactly where it was a
/// newline before, so line numbers found in masked text are the source's.
pub proof fn lemma_mask_keeps_offsets(b: Seq<u8>, strings: bool)
    ensures
        mask_bytes(b, strings).len() == b.len(),
        forall|k: int|
            0 <= k < b.len() ==> (#[trigger] mask_bytes(b, strings)[k] == 0x0au8 <==> b[k] == 0x0au8),
{
    lemma_mask_from_keeps_offsets(b, 0, MaskState::Code, strings);
    assert forall|k: int| 0 <= k < b.len() implies (#[trigger] mask_bytes(b, strings)[k] == 0x0au8
        <==> b[k] == 0x0au8) by {
        assert(b[0 + k] == b[k]);
    }
}

/// One masking step at position `i`: the bytes written, the next position,
/// and the next state.
fn mask_step(b: &[u8], i: usize, st: MaskState, strings: bool, out: &mut Vec<u8>) -> (r: (usize, MaskState))
    requires
        i < b@.len(),
    ensures
        i < r.0 <= b@.len(),
        final(out)@ + mask_from(b@, r.0 as int, r.1, strings) == old(out)@ + mask_from(
            b@,
            i as int,
            st,
            strings,
        ),
{
    let byte = b[i];
    let has_next = i + 1 < b.len();
    let ghost rest = mask_from(b@, i as int, st, strings);
    match st {
        MaskState::Code => {
            if byte == 0x2f && has_next && b[i + 1] == 0x2f {
                out.push(0x20);
                out.push(0x20);
                (i + 2, MaskState::Line)
            } else if byte == 0x2f && has_next && b[i + 1] == 0x2a {
                out.push(0x20);
                out.push(0x20);
                (i + 2, MaskState::Block)
            } else if byte == 0x27 || byte == 0x22 || byte == 0x60 {
                out.push(if strings { 0x20 } else { byte });
                let next = if byte == 0x27 {
                    MaskState::Single
                } else if byte == 0x22 {
                    MaskState::Double
                } else {
                    MaskState::Template
                };
                (i + 1, next)
            } else {
                out.push(byte);
                (i + 1, MaskState::Code)
            }
        },
        MaskState::Line => {
            if byte == 0x0a {
                out.push(byte);
                (i + 1, MaskState::Code)
            } else {
                out.push(0x20);
                (i + 1, MaskState::Line)
            }
        },
        MaskState::Block => {
            if byte == 0x2a && has_next && b[i + 1] == 0x2f {
                out.push(0x20);
                out.push(0x20);
                (i + 2, MaskState::Code)
            } else {
                out.push(if byte == 0x0a { byte } else { 0x20 });
                (i + 1, MaskState::Block)
            }
        },
        _ => {
            let close: u8 = match st {
                MaskState::Single => 0x27,
                MaskState::Double => 0x22,
                _ => 0x60,
            };
            out.push(if strings && byte != 0x0a { 0x20 } else { byte });
            if byte == 0x5c && has_next {
                let escaped = b[i + 1];
                out.push(if strings && escaped != 0x0a { 0x20 } else { escaped });
                (i + 2, st)
            } else if byte == close {
                (i + 1, MaskState::Code)
            } else {
                (i + 1, st)
            }
        },
    }
}

/// Masked bytes of `source`: comments become spaces (newlines kept), and
/// string literal contents become spaces when `strings` is set.
pub fn mask_source_bytes(source: &[u8], strings: bool) -> (out: Vec<u8>)
    ensures
        out@ == mask_bytes(source@, strings),
        out@.len() == source@.len(),
        forall|k: int| 0 <= k < source@.len() ==> (#[trigger] out@[k] == 0x0au8 <==> source@[k] == 0x0au8),
{
    proof {
        lemma_mask_keeps_offsets(source@, strings);
    }
    let mut out: Vec<u8> = Vec::new();
    let mut st = MaskState::Code;
    let mut i: usize = 0;
    while i < source.len()
        invariant
            i <= source@.len(),
            out@ + mask_from(source@, i as int, st, strings) == mask_bytes(source@, strings),
        decreases source@.len() - i,
    {
        let (j, next) = mask_step(source, i, st, strings, &mut out);
        i = j;
        st = next;
    }
    assert(mask_from(source@, i as int, st, strings) == Seq::<u8>::empty());
    assert(out@ =~= out@ + Seq::<u8>::empty());
    out
}

/// Masked text of `source`. Masking always leaves valid UTF-8: the bytes
/// of the result are the masked bytes of `source`, as long as its bytes and
/// with newlines at the same byte offsets.
pub fn mask(source: &str, strings: bool) -> (r: String)
    ensures
        r@ == masked_text(source@, strings),
        vstd::utf8::encode_utf8(r@) == mask_bytes(vstd::utf8::encode_utf8(source@), strings),
{
    proof {
        lemma_masked_text_bytes(source@, strings);
    }
    let out = mask_source_bytes(source.as_bytes(), strings);
    match utf8_text(out.as_slice()) {
        Some(t) => {
            proof {
                vstd::utf8::encode_utf8_decode_utf8(t@);
            }
            String::from_str(t)
        },
        None => String::new(),
    }
}

} // verus!
