//! Normalization of `[target.<key>]` table keys: a target triple, or a
//! `cfg(...)` predicate validated against the Cargo cfg grammar, rendered
//! with redacted values for display and with verbatim values for a distinct
//! identity hash.
//!
//! Tokenizing and parsing the predicate into attribute metas is done by
//! `syn`; the grammar rules on those metas (single-identifier names, string
//! values only, `all`/`any` with at least one element, `not` with exactly
//! one, bounded depth) are this module's own.

use syn::parse::Parser;
use syn::punctuated::Punctuated;
use syn::token::Comma;
use syn::{Expr, ExprLit, Lit, Meta};
use vstd::prelude::*;
use vstd::string::{StringExecFns, StringSliceAdditionalSpecFns};

use crate::hashing::{framed_value, opaque_identity, spec_sha256_hex};
use crate::inspect::cargo_config::config::{is_valid_triple, spec_is_valid_triple};
use crate::inspect::cargo_config::types::CargoTargetKey;
use crate::text::{opt_view, chars_of, has_prefix, has_suffix, is_whitespace, is_ws, str_eq, string_of, subrange_vec, trim_chars, trim_ws};

verus! {

/// Maximum byte length of a `cfg(...)` body.
pub const CFG_MAX_LEN: usize = 1024;

/// Maximum nesting depth of a `cfg(...)` predicate.
pub const CFG_MAX_DEPTH: u32 = 32;

/// Maximum byte length of a target key.
pub const TARGET_KEY_MAX_LEN: usize = 256;

/// One parsed attribute meta of a cfg predicate.
#[derive(Debug, PartialEq, Eq)]
pub enum CfgMeta {
    /// A path such as `unix`: its identifier when it is a single plain segment.
    Path {
        /// The identifier, for a single-segment path.
        ident: Option<String>,
    },
    /// `name = value`.
    NameValue {
        /// The name, for a single-segment path.
        ident: Option<String>,
        /// The literal token text when the value is a string literal.
        str_literal: Option<String>,
    },
    /// `name(...)`.
    List {
        /// The name, for a single-segment path.
        ident: Option<String>,
        /// The text of the delimited tokens.
        tokens: String,
    },
}

/// View of a [`CfgMeta`].
pub enum CfgMetaV {
    /// A path.
    Path(Option<Seq<char>>),
    /// A name-value pair.
    NameValue(Option<Seq<char>>, Option<Seq<char>>),
    /// A list.
    List(Option<Seq<char>>, Seq<char>),
}

impl View for CfgMeta {
    type V = CfgMetaV;

    open spec fn view(&self) -> CfgMetaV {
        match self {
            CfgMeta::Path { ident } => CfgMetaV::Path(opt_view(*ident)),
            CfgMeta::NameValue { ident, str_literal } => CfgMetaV::NameValue(
                opt_view(*ident),
                opt_view(*str_literal),
            ),
            CfgMeta::List { ident, tokens } => CfgMetaV::List(opt_view(*ident), tokens@),
        }
    }
}

/// Views of a list of metas.
pub open spec fn metas_view(v: Seq<CfgMeta>) -> Seq<CfgMetaV> {
    v.map_values(|m: CfgMeta| m@)
}

/// The comma-separated metas that `syn` parses from a text, or `None` when
/// it does not tokenize or does not parse as metas.
pub uninterp spec fn spec_parse_cfg_metas(text: Seq<char>) -> Option<Seq<CfgMetaV>>;

/// Parses `text` as comma-separated attribute metas
/// (`Punctuated::<Meta, Comma>::parse_terminated` through
/// `syn::parse::Parser::parse_str`, which tokenizes with
/// `proc_macro2::TokenStream::from_str`), recording for each meta
/// its identifier (`Path::get_ident`), a string value's literal token text,
/// or a list's token text. The result is a function of the text alone.
#[verifier::external_body]
fn parse_cfg_metas(text: &str) -> (r: Option<Vec<CfgMeta>>)
    ensures
        r is None <==> spec_parse_cfg_metas(text@) is None,
        r matches Some(v) ==> spec_parse_cfg_metas(text@) == Some(metas_view(v@)),
{
    let list = Punctuated::<Meta, Comma>::parse_terminated.parse_str(text).ok()?;
    Some(list.iter().map(|m| {
        let ident = m.path().get_ident().map(|i| i.to_string());
        match m {
            Meta::Path(_) => CfgMeta::Path { ident },
            Meta::List(l) => CfgMeta::List { ident, tokens: l.tokens.to_string() },
            Meta::NameValue(nv) => CfgMeta::NameValue { ident, str_literal: match &nv.value {
                Expr::Lit(ExprLit { lit: Lit::Str(s), .. }) => Some(s.token().to_string()),
                _ => None,
            } },
        }
    }).collect())
}

/// Rendering of one meta at `depth`: the redacted display form and the
/// value-preserving canonical form, or `None` on a grammar violation.
pub open spec fn render_meta_spec(m: CfgMetaV, depth: int) -> Option<(Seq<char>, Seq<char>)>
    decreases 33 - depth, 0nat,
{
    if depth > 32 || depth < 0 {
        None
    } else {
        match m {
            CfgMetaV::Path(Some(n)) => Some((n, n)),
            CfgMetaV::NameValue(Some(n), Some(l)) => Some(
                (n + " = \"<value>\""@, n + " = "@ + l),
            ),
            CfgMetaV::List(Some(n), t) => if n == "all"@ || n == "any"@ {
                match spec_parse_cfg_metas(t) {
                    Some(items) => if items.len() == 0 {
                        None
                    } else {
                        match render_list_spec(items, depth + 1) {
                            Some((d, c)) => Some((n + "("@ + d + ")"@, n + "("@ + c + ")"@)),
                            None => None,
                        }
                    },
                    None => None,
                }
            } else if n == "not"@ {
                match spec_parse_cfg_metas(t) {
                    Some(items) => if items.len() != 1 {
                        None
                    } else {
                        match render_list_spec(items, depth + 1) {
                            Some((d, c)) => Some(("not("@ + d + ")"@, "not("@ + c + ")"@)),
                            None => None,
                        }
                    },
                    None => None,
                }
            } else {
                None
            },
            _ => None,
        }
    }
}

/// Rendering of a list of metas at `depth`, joined with `", "` (display) and
/// `","` (canonical), or `None` when any element violates the grammar.
pub open spec fn render_list_spec(items: Seq<CfgMetaV>, depth: int) -> Option<(Seq<char>, Seq<char>)>
    decreases 33 - depth, items.len() + 1,
{
    if depth > 33 || depth < 0 {
        None
    } else if items.len() == 0 {
        Some((seq![], seq![]))
    } else {
        match (render_list_spec(items.drop_last(), depth), render_meta_spec(items.last(), depth)) {
            (Some((d0, c0)), Some((d1, c1))) => if items.len() == 1 {
                Some((d1, c1))
            } else {
                Some((d0 + ", "@ + d1, c0 + ","@ + c1))
            },
            _ => None,
        }
    }
}

/// A list whose prefix fails to render fails to render.
proof fn lemma_render_list_prefix_none(items: Seq<CfgMetaV>, k: int, depth: int)
    requires
        0 <= k <= items.len(),
        render_list_spec(items.take(k), depth) is None,
    ensures
        render_list_spec(items, depth) is None,
    decreases items.len() - k,
{
    if k < items.len() {
        assert(items.take(k + 1).drop_last() =~= items.take(k));
        lemma_render_list_prefix_none(items, k + 1, depth);
    } else {
        assert(items.take(k) =~= items);
    }
}

/// Appends the rendering of `items` (each at `depth`) to the two outputs.
fn render_list(items: &Vec<CfgMeta>, depth: u32, display: &mut String, canonical: &mut String) -> (r:
    bool)
    requires
        depth <= 33,
    ensures
        r == render_list_spec(metas_view(items@), depth as int) is Some,
        r ==> (render_list_spec(metas_view(items@), depth as int) matches Some((d, c))
            && final(display)@ == old(display)@ + d && final(canonical)@ == old(canonical)@ + c),
    decreases 33 - depth, items@.len() + 1, 1nat,
{
    let ghost mv = metas_view(items@);
    let ghost d0 = display@;
    let ghost c0 = canonical@;
    let mut i: usize = 0;
    while i < items.len()
        invariant
            depth <= 33,
            i <= items@.len(),
            mv == metas_view(items@),
            render_list_spec(mv.take(i as int), depth as int) matches Some((d, c)) && display@ == d0
                + d && canonical@ == c0 + c,
        decreases items@.len() - i,
    {
        proof {
            assert(mv.take(i + 1).drop_last() =~= mv.take(i as int));
            assert(mv.take(i + 1).last() == items@[i as int]@);
        }
        if i > 0 {
            display.append(", ");
            canonical.append(",");
        }
        if !render_meta(&items[i], depth, display, canonical) {
            proof {
                lemma_render_list_prefix_none(mv, i + 1, depth as int);
            }
            return false;
        }
        i += 1;
    }
    assert(mv.take(items@.len() as int) =~= mv);
    true
}

/// Appends the rendering of one meta at `depth` to the two outputs.
fn render_meta(meta: &CfgMeta, depth: u32, display: &mut String, canonical: &mut String) -> (r: bool)
    requires
        depth <= 33,
    ensures
        r == render_meta_spec(meta@, depth as int) is Some,
        r ==> (render_meta_spec(meta@, depth as int) matches Some((d, c))
            && final(display)@ == old(display)@ + d && final(canonical)@ == old(canonical)@ + c),
    decreases 33 - depth, 0nat, 0nat,
{
    if depth > CFG_MAX_DEPTH {
        return false;
    }
    match meta {
        CfgMeta::Path { ident: Some(name) } => {
            display.append(name.as_str());
            canonical.append(name.as_str());
            true
        },
        CfgMeta::NameValue { ident: Some(name), str_literal: Some(lit) } => {
            display.append(name.as_str());
            display.append(" = \"<value>\"");
            canonical.append(name.as_str());
            canonical.append(" = ");
            canonical.append(lit.as_str());
            true
        },
        CfgMeta::List { ident: Some(name), tokens } => {
            let is_all_any = str_eq(name.as_str(), "all") || str_eq(name.as_str(), "any");
            let is_not = str_eq(name.as_str(), "not");
            if !is_all_any && !is_not {
                return false;
            }
            let inner = match parse_cfg_metas(tokens.as_str()) {
                Some(v) => v,
                None => {
                    return false;
                },
            };
            if is_all_any {
                if inner.len() == 0 {
                    return false;
                }
                display.append(name.as_str());
                display.append("(");
                canonical.append(name.as_str());
                canonical.append("(");
            } else {
                if inner.len() != 1 {
                    return false;
                }
                display.append("not(");
                canonical.append("not(");
            }
            if !render_list(&inner, depth + 1, display, canonical) {
                return false;
            }
            display.append(")");
            canonical.append(")");
            true
        },
        _ => false,
    }
}

/// The redacted display and the identity of a validated `cfg(...)` body.
pub open spec fn spec_validate_cfg(inner: Seq<char>) -> Option<(Seq<char>, Seq<char>)> {
    let n = vstd::utf8::encode_utf8(inner).len();
    if n == 0 || n > CFG_MAX_LEN {
        None
    } else {
        match spec_parse_cfg_metas(inner) {
            Some(items) => if items.len() == 0 {
                None
            } else {
                match render_list_spec(items, 0) {
                    Some((d, c)) => Some(
                        (
                            "cfg("@ + d + ")"@,
                            spec_sha256_hex(framed_value(vstd::utf8::encode_utf8("cfg("@ + c + ")"@))),
                        ),
                    ),
                    None => None,
                }
            },
            None => None,
        }
    }
}

/// Validates a `cfg(...)` body against the cfg grammar and returns its
/// canonical redacted display form plus a distinct SHA-256 identity.
///
/// Whitespace is normalized (the forms are rebuilt from the parse), quoted
/// values are redacted to `<value>` in the display but kept verbatim in the
/// canonical form behind the identity.
pub fn validate_and_redact_cfg(inner: &str) -> (r: Option<(String, String)>)
    ensures
        match (r, spec_validate_cfg(inner@)) {
            (Some((d, i)), Some((sd, si))) => d@ == sd && i@ == si,
            (None, None) => true,
            _ => false,
        },
{
    let n = inner.as_bytes().len();
    if n == 0 || n > CFG_MAX_LEN {
        return None;
    }
    let list = match parse_cfg_metas(inner) {
        Some(v) => v,
        None => {
            return None;
        },
    };
    if list.len() == 0 {
        return None;
    }
    let mut display = String::new();
    let mut canonical = String::new();
    if !render_list(&list, 0, &mut display, &mut canonical) {
        return None;
    }
    let mut shown = String::from_str("cfg(");
    shown.append(display.as_str());
    shown.append(")");
    let mut canon = String::from_str("cfg(");
    canon.append(canonical.as_str());
    canon.append(")");
    let identity = opaque_identity(canon.as_str());
    proof {
        assert(display@ =~= seq![] + display@);
    }
    Some((shown, identity))
}

/// `s` without its leading run of `c`.
pub open spec fn strip_lead(s: Seq<char>, c: char) -> Seq<char>
    decreases s.len(),
{
    if s.len() > 0 && s[0] == c {
        strip_lead(s.drop_first(), c)
    } else {
        s
    }
}

/// `s` without its trailing run of `c`.
pub open spec fn strip_trail(s: Seq<char>, c: char) -> Seq<char>
    decreases s.len(),
{
    if s.len() > 0 && s.last() == c {
        strip_trail(s.drop_last(), c)
    } else {
        s
    }
}

/// `s` with every leading and trailing `c` removed (`str::trim_matches`).
pub open spec fn trim_matches(s: Seq<char>, c: char) -> Seq<char> {
    strip_trail(strip_lead(s, c), c)
}

/// The characters of `s` with every leading and trailing `c` removed.
pub fn trim_matches_chars(s: &[char], c: char) -> (out: Vec<char>)
    ensures
        out@ == trim_matches(s@, c),
{
    let mut a: usize = 0;
    assert(s@.skip(0) =~= s@);
    while a < s.len() && s[a] == c
        invariant
            a <= s@.len(),
            strip_lead(s@.skip(a as int), c) == strip_lead(s@, c),
        decreases s@.len() - a,
    {
        assert(s@.skip(a as int).drop_first() =~= s@.skip(a + 1));
        a += 1;
    }
    assert(s@.subrange(a as int, s@.len() as int) =~= s@.skip(a as int));
    let mut b: usize = s.len();
    while b > a && s[b - 1] == c
        invariant
            a <= b <= s@.len(),
            strip_lead(s@, c) == s@.skip(a as int),
            strip_trail(s@.subrange(a as int, b as int), c) == strip_trail(s@.skip(a as int), c),
        decreases b - a,
    {
        assert(s@.subrange(a as int, b as int).drop_last() =~= s@.subrange(a as int, b - 1));
        b -= 1;
    }
    proof {
        assert(s@.subrange(a as int, s@.len() as int) =~= s@.skip(a as int));
    }
    subrange_vec(s, a, b)
}

/// The normalized key of a raw `[target.<key>]` table key.
pub open spec fn spec_normalize_target_key(raw: Seq<char>) -> Option<crate::inspect::cargo_config::types::TargetKeyV> {
    let t = trim_ws(trim_matches(trim_matches(raw, '\''), '"'));
    let n = vstd::utf8::encode_utf8(t).len();
    if n == 0 || n > TARGET_KEY_MAX_LEN {
        None
    } else if has_prefix(t, "cfg("@) && has_suffix(t.skip(4), seq![')']) {
        let inner = trim_ws(t.skip(4).drop_last());
        if inner.len() == 0 {
            None
        } else {
            match spec_validate_cfg(inner) {
                Some((d, i)) => Some(crate::inspect::cargo_config::types::TargetKeyV::Cfg(d, i)),
                None => None,
            }
        }
    } else if spec_is_valid_triple(t, n as int) {
        Some(crate::inspect::cargo_config::types::TargetKeyV::Triple(t))
    } else {
        None
    }
}

/// Normalizes a raw target table key to a validated triple or a redacted
/// `cfg(...)` key; anything else is `None`.
pub fn normalize_target_key(raw: &str) -> (r: Option<CargoTargetKey>)
    ensures
        match (r, spec_normalize_target_key(raw@)) {
            (Some(k), Some(v)) => k@ == v,
            (None, None) => true,
            _ => false,
        },
{
    proof {
        reveal_strlit("cfg(");
    }
    let cs = chars_of(raw);
    let a = trim_matches_chars(cs.as_slice(), '\'');
    let b = trim_matches_chars(a.as_slice(), '"');
    let t = trim_chars(b.as_slice());
    let ts = string_of(t.as_slice());
    let n = ts.as_str().as_bytes().len();
    if n == 0 || n > TARGET_KEY_MAX_LEN {
        return None;
    }
    let prefix = chars_of("cfg(");
    if crate::text::chars_start_with(t.as_slice(), prefix.as_slice()) && t.len() > 4 && t[t.len() - 1]
        == ')' {
        proof {
            assert(has_suffix(t@.skip(4), seq![')']) == (t@.len() > 4 && t@[t@.len() - 1] == ')')) by {
                if t@.len() > 4 {
                    assert(t@.skip(4).skip(t@.skip(4).len() - 1)[0] == t@[t@.len() - 1]);
                    if t@[t@.len() - 1] == ')' {
                        assert(t@.skip(4).skip(t@.skip(4).len() - 1) =~= seq![')']);
                    }
                }
            }
        }
        let body = subrange_vec(t.as_slice(), 4, t.len() - 1);
        assert(body@ =~= t@.skip(4).drop_last());
        let inner = trim_chars(body.as_slice());
        if inner.len() == 0 {
            return None;
        }
        let inner_s = string_of(inner.as_slice());
        return match validate_and_redact_cfg(inner_s.as_str()) {
            Some((display, identity)) => Some(CargoTargetKey::Cfg { display, identity }),
            None => None,
        };
    }
    proof {
        if has_prefix(t@, "cfg("@) {
            if t@.len() > 4 {
                assert(t@[t@.len() - 1] != ')');
                assert(t@.skip(4).skip(t@.skip(4).len() - 1)[0] == t@[t@.len() - 1]);
            } else {
                assert(t@.skip(4).len() == 0);
            }
        }
    }
    if is_valid_triple(ts.as_str()) {
        Some(CargoTargetKey::Triple { triple: ts })
    } else {
        None
    }
}

} // verus!
