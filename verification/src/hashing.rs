//! SHA-256 digests and lowercase hex encoding of byte strings.

use vstd::prelude::*;
use vstd::string::StringSliceAdditionalSpecFns;

verus! {

/// The SHA-256 digest of `data` (FIPS 180-4).
pub uninterp spec fn spec_sha256(data: Seq<u8>) -> Seq<u8>;

/// The lowercase hex digit of a value below 16.
pub open spec fn hex_digit(v: int) -> char {
    if v < 10 {
        ((v + 48) as u32) as char
    } else {
        ((v + 87) as u32) as char
    }
}

/// Lowercase hex encoding: two digits per byte, high nibble first.
pub open spec fn spec_hex(data: Seq<u8>) -> Seq<char>
    decreases data.len(),
{
    if data.len() == 0 {
        seq![]
    } else {
        spec_hex(data.drop_last()) + seq![
            hex_digit(data.last() as int / 16),
            hex_digit(data.last() as int % 16),
        ]
    }
}

/// SHA-256 of `data` (`sha2::Sha256::digest`): a 32-byte digest that is a
/// function of the input bytes alone.
#[verifier::external_body]
pub fn sha256_digest(data: &[u8]) -> (r: Vec<u8>)
    ensures
        r@ == spec_sha256(data@),
        r@.len() == 32,
{
    <sha2::Sha256 as sha2::Digest>::digest(data).to_vec()
}

/// Lowercase hex encoding of `data` (`hex::encode`).
#[verifier::external_body]
pub fn hex_encode(data: &[u8]) -> (r: String)
    ensures
        r@ == spec_hex(data@),
{
    hex::encode(data)
}

/// Lowercase hex SHA-256 of `data`.
pub open spec fn spec_sha256_hex(data: Seq<u8>) -> Seq<char> {
    spec_hex(spec_sha256(data))
}

/// Lowercase hex SHA-256 of `data`.
pub fn sha256_hex(data: &[u8]) -> (r: String)
    ensures
        r@ == spec_sha256_hex(data@),
{
    let d = sha256_digest(data);
    hex_encode(d.as_slice())
}

/// Little-endian bytes of a `u32`.
pub open spec fn le32(x: u32) -> Seq<u8> {
    seq![
        (x % 256) as u8,
        ((x / 256) % 256) as u8,
        ((x / 65536) % 256) as u8,
        ((x / 16777216) % 256) as u8,
    ]
}

/// Little-endian bytes of a `u64`.
pub open spec fn le64(x: u64) -> Seq<u8> {
    seq![
        (x % 256) as u8,
        ((x / 0x100) % 256) as u8,
        ((x / 0x10000) % 256) as u8,
        ((x / 0x1000000) % 256) as u8,
        ((x / 0x100000000) % 256) as u8,
        ((x / 0x10000000000) % 256) as u8,
        ((x / 0x1000000000000) % 256) as u8,
        ((x / 0x100000000000000) % 256) as u8,
    ]
}

/// Appends the little-endian bytes of `x` to `out`.
pub fn push_le32(out: &mut Vec<u8>, x: u32)
    ensures
        final(out)@ == old(out)@ + le32(x),
{
    out.push((x % 256) as u8);
    out.push(((x / 256) % 256) as u8);
    out.push(((x / 65536) % 256) as u8);
    out.push(((x / 16777216) % 256) as u8);
    assert(out@ =~= old(out)@ + le32(x));
}

/// Appends the little-endian bytes of `x` to `out`.
pub fn push_le64(out: &mut Vec<u8>, x: u64)
    ensures
        final(out)@ == old(out)@ + le64(x),
{
    out.push((x % 256) as u8);
    out.push(((x / 0x100) % 256) as u8);
    out.push(((x / 0x10000) % 256) as u8);
    out.push(((x / 0x1000000) % 256) as u8);
    out.push(((x / 0x100000000) % 256) as u8);
    out.push(((x / 0x10000000000) % 256) as u8);
    out.push(((x / 0x1000000000000) % 256) as u8);
    out.push(((x / 0x100000000000000) % 256) as u8);
    assert(out@ =~= old(out)@ + le64(x));
}

/// Appends all of `data` to `out`.
pub fn push_all(out: &mut Vec<u8>, data: &[u8])
    ensures
        final(out)@ == old(out)@ + data@,
{
    let mut k: usize = 0;
    while k < data.len()
        invariant
            k <= data@.len(),
            out@ == old(out)@ + data@.take(k as int),
        decreases data@.len() - k,
    {
        out.push(data[k]);
        assert(old(out)@ + data@.take(k + 1) =~= (old(out)@ + data@.take(k as int)).push(
            data@[k as int],
        ));
        k += 1;
    }
    assert(data@.take(data@.len() as int) =~= data@);
}

/// Hex SHA-256 of the empty input.
pub fn empty_input_hash() -> (r: String)
    ensures
        r@ == spec_sha256_hex(seq![]),
{
    let v: Vec<u8> = Vec::new();
    assert(v@ =~= seq![]);
    sha256_hex(v.as_slice())
}

/// Length-framed message of a raw value: `u64` LE length, then its bytes.
pub open spec fn framed_value(raw: Seq<u8>) -> Seq<u8> {
    le64(raw.len() as u64) + raw
}

/// Framed token sequence: each token as `u64` LE length then its bytes.
pub open spec fn framed_tokens(tokens: Seq<Seq<u8>>) -> Seq<u8>
    decreases tokens.len(),
{
    if tokens.len() == 0 {
        seq![]
    } else {
        framed_tokens(tokens.drop_last()) + framed_value(tokens.last())
    }
}

/// SHA-256 identity over a raw configured value (framed, not reversible).
pub fn opaque_identity(raw: &str) -> (r: String)
    ensures
        r@ == spec_sha256_hex(framed_value(raw.spec_bytes())),
{
    let b = raw.as_bytes();
    let mut msg: Vec<u8> = Vec::new();
    push_le64(&mut msg, b.len() as u64);
    push_all(&mut msg, b);
    assert(msg@ =~= framed_value(b@));
    sha256_hex(msg.as_slice())
}

/// SHA-256 identity over a token sequence with explicit per-token length
/// framing (never a separator join), so distinct sequences never share input.
pub fn opaque_identity_tokens(tokens: &[String]) -> (r: String)
    ensures
        r@ == spec_sha256_hex(
            framed_tokens(tokens@.map_values(|t: String| vstd::utf8::encode_utf8(t@))),
        ),
{
    let ghost tb = tokens@.map_values(|t: String| vstd::utf8::encode_utf8(t@));
    let mut msg: Vec<u8> = Vec::new();
    let mut k: usize = 0;
    while k < tokens.len()
        invariant
            k <= tokens@.len(),
            tb == tokens@.map_values(|t: String| vstd::utf8::encode_utf8(t@)),
            msg@ == framed_tokens(tb.take(k as int)),
        decreases tokens@.len() - k,
    {
        let b = tokens[k].as_str().as_bytes();
        push_le64(&mut msg, b.len() as u64);
        push_all(&mut msg, b);
        assert(tb.take(k + 1).drop_last() =~= tb.take(k as int));
        k += 1;
    }
    assert(tb.take(tokens@.len() as int) =~= tb);
    sha256_hex(msg.as_slice())
}


proof fn lemma_le64_injective(x: u64, y: u64)
    requires
        le64(x) == le64(y),
    ensures
        x == y,
{
    assert(le64(x)[0] == le64(y)[0]);
    assert(le64(x)[1] == le64(y)[1]);
    assert(le64(x)[2] == le64(y)[2]);
    assert(le64(x)[3] == le64(y)[3]);
    assert(le64(x)[4] == le64(y)[4]);
    assert(le64(x)[5] == le64(y)[5]);
    assert(le64(x)[6] == le64(y)[6]);
    assert(le64(x)[7] == le64(y)[7]);
    assert(((x % 256) as u8 == (y % 256) as u8 && ((x / 0x100) % 256) as u8 == ((y / 0x100) % 256) as u8
        && ((x / 0x10000) % 256) as u8 == ((y / 0x10000) % 256) as u8 && ((x / 0x1000000) % 256) as u8 == ((y
        / 0x1000000) % 256) as u8 && ((x / 0x100000000) % 256) as u8 == ((y / 0x100000000) % 256) as u8 && ((x
        / 0x10000000000) % 256) as u8 == ((y / 0x10000000000) % 256) as u8 && ((x / 0x1000000000000) % 256) as u8
        == ((y / 0x1000000000000) % 256) as u8 && ((x / 0x100000000000000) % 256) as u8 == ((y
        / 0x100000000000000) % 256) as u8) ==> x == y) by (bit_vector);
}

proof fn lemma_framed_tokens_front(t: Seq<Seq<u8>>)
    requires
        t.len() > 0,
    ensures
        framed_tokens(t) == framed_value(t[0]) + framed_tokens(t.drop_first()),
    decreases t.len(),
{
    if t.len() > 1 {
        lemma_framed_tokens_front(t.drop_last());
        assert(t.drop_last().drop_first() =~= t.drop_first().drop_last());
        assert(t.drop_first().last() == t.last());
        assert(t.drop_last()[0] == t[0]);
    } else {
        assert(t.drop_first() =~= Seq::<Seq<u8>>::empty());
        assert(t.drop_last() =~= Seq::<Seq<u8>>::empty());
    }
}

proof fn lemma_framed_value_split(x: Seq<u8>, y: Seq<u8>, r: Seq<u8>, s: Seq<u8>)
    requires
        framed_value(x) + r == framed_value(y) + s,
        x.len() <= u64::MAX,
        y.len() <= u64::MAX,
    ensures
        x == y,
        r == s,
{
    let f = framed_value(x) + r;
    let g = framed_value(y) + s;
    assert(f.subrange(0, 8) =~= le64(x.len() as u64));
    assert(g.subrange(0, 8) =~= le64(y.len() as u64));
    lemma_le64_injective(x.len() as u64, y.len() as u64);
    let n = x.len() as int;
    assert(f.subrange(8, 8 + n) =~= x);
    assert(g.subrange(8, 8 + n) =~= y);
    assert(f.skip(8 + n) =~= r);
    assert(g.skip(8 + n) =~= s);
}

/// Token framing is unambiguous: two token lists (each token shorter than
/// 2^64 bytes) frame to the same bytes only when they are the same list, so
/// tokens joined by a separator can never collide with other tokens.
pub proof fn lemma_framed_tokens_injective(a: Seq<Seq<u8>>, b: Seq<Seq<u8>>)
    requires
        framed_tokens(a) == framed_tokens(b),
        forall|i: int| 0 <= i < a.len() ==> #[trigger] a[i].len() <= u64::MAX,
        forall|i: int| 0 <= i < b.len() ==> #[trigger] b[i].len() <= u64::MAX,
    ensures
        a == b,
    decreases a.len() + b.len(),
{
    if a.len() == 0 && b.len() == 0 {
        assert(a =~= b);
    } else if a.len() == 0 {
        lemma_framed_tokens_front(b);
        assert(framed_tokens(b).len() >= 8);
    } else if b.len() == 0 {
        lemma_framed_tokens_front(a);
        assert(framed_tokens(a).len() >= 8);
    } else {
        lemma_framed_tokens_front(a);
        lemma_framed_tokens_front(b);
        assert(a[0].len() <= u64::MAX);
        assert(b[0].len() <= u64::MAX);
        lemma_framed_value_split(a[0], b[0], framed_tokens(a.drop_first()), framed_tokens(b.drop_first()));
        assert forall|i: int| 0 <= i < a.drop_first().len() implies #[trigger] a.drop_first()[i].len() <= u64::MAX by {
            assert(a.drop_first()[i] == a[i + 1]);
        }
        assert forall|i: int| 0 <= i < b.drop_first().len() implies #[trigger] b.drop_first()[i].len() <= u64::MAX by {
            assert(b.drop_first()[i] == b[i + 1]);
        }
        lemma_framed_tokens_injective(a.drop_first(), b.drop_first());
        assert(a =~= seq![a[0]] + a.drop_first());
        assert(b =~= seq![b[0]] + b.drop_first());
    }
}

} // verus!
