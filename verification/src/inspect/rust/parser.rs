//! Line/column anchoring of byte offsets and cfg predicate normalization.

use vstd::prelude::*;
use vstd::string::StringSliceAdditionalSpecFns;

use vstd::string::StringExecFns;

use crate::inspect::rust::dedup::{
    cfg_views, sort_and_dedup_cfg, sort_and_dedup_usages, sorted_cfg, sorted_usages, usage_views, CfgV,
    UsageV,
};
use crate::inspect::rust::syntax::{rust_syntax, spec_rust_syntax, AttrSyntax, MetaSyntax, SpanPos, SyntaxEvent};
use crate::inspect::rust::types::{RustCfgEvidence, RustUsage, RustUsageKind};
use crate::inspect::rust::vocabulary::{opt_loc, LocV};
use crate::inspect::snapshot::SourceLocation;
use crate::order::views;
use crate::text::{chars_of, collapse_whitespace, collapse_ws, str_eq, string_of};

verus! {

/// Start offsets of the lines of the first `n` bytes of `b`: `0`, then one
/// past every newline.
pub open spec fn line_starts(b: Seq<u8>, n: int) -> Seq<int>
    decreases n,
{
    if n <= 0 {
        seq![0]
    } else if b[n - 1] == 0x0a {
        line_starts(b, n - 1).push(n)
    } else {
        line_starts(b, n - 1)
    }
}

/// Number of entries of `offs` that are at most `x`.
pub open spec fn count_le(offs: Seq<int>, x: int) -> int
    decreases offs.len(),
{
    if offs.len() == 0 {
        0
    } else {
        count_le(offs.drop_last(), x) + if offs.last() <= x {
            1int
        } else {
            0int
        }
    }
}

/// 1-based `(line, column)` of byte offset `x` given the line starts `offs`.
///
/// Offsets more than 8192 bytes past the last line start have no position.
pub open spec fn spec_line_col(offs: Seq<int>, x: int) -> Option<(u32, u32)> {
    let last = if offs.len() == 0 {
        0
    } else {
        offs.last()
    };
    let n = count_le(offs, x);
    if x > last + 8192 || n == 0 {
        None
    } else {
        Some((n as u32, (x - offs[n - 1] + 1) as u32))
    }
}

/// Strictly increasing offsets.
pub open spec fn strictly_increasing(offs: Seq<int>) -> bool {
    forall|i: int, j: int| 0 <= i < j < offs.len() ==> offs[i] < offs[j]
}

proof fn lemma_line_starts_shape(b: Seq<u8>, n: int)
    requires
        0 <= n <= b.len(),
    ensures
        line_starts(b, n).len() >= 1,
        line_starts(b, n)[0] == 0,
        strictly_increasing(line_starts(b, n)),
        forall|i: int| 0 <= i < line_starts(b, n).len() ==> 0 <= #[trigger] line_starts(b, n)[i] <= n,
    decreases n,
{
    if n > 0 {
        lemma_line_starts_shape(b, n - 1);
    }
}

proof fn lemma_count_le_sorted(offs: Seq<int>, x: int, k: int)
    requires
        strictly_increasing(offs),
        0 <= k <= offs.len(),
        forall|i: int| 0 <= i < k ==> #[trigger] offs[i] <= x,
        forall|i: int| k <= i < offs.len() ==> #[trigger] offs[i] > x,
    ensures
        count_le(offs, x) == k,
    decreases offs.len(),
{
    if offs.len() > 0 {
        if k == offs.len() {
            lemma_count_le_sorted(offs.drop_last(), x, k - 1);
        } else {
            lemma_count_le_sorted(offs.drop_last(), x, k);
        }
    }
}

/// Number of newline bytes among the first `x` bytes of `b`.
pub open spec fn newlines_before(b: Seq<u8>, x: int) -> int
    decreases x,
{
    if x <= 0 {
        0
    } else {
        newlines_before(b, x - 1) + if b[x - 1] == 0x0a {
            1int
        } else {
            0int
        }
    }
}

/// Start of the line holding byte offset `x`: one past the last newline
/// before `x`, or 0 when there is none.
pub open spec fn line_start_before(b: Seq<u8>, x: int) -> int
    decreases x,
{
    if x <= 0 {
        0
    } else if b[x - 1] == 0x0a {
        x
    } else {
        line_start_before(b, x - 1)
    }
}

proof fn lemma_line_starts_count(b: Seq<u8>, m: int)
    requires
        0 <= m <= b.len(),
    ensures
        line_starts(b, m).len() == 1 + newlines_before(b, m),
        line_starts(b, m).last() == line_start_before(b, m),
    decreases m,
{
    if m > 0 {
        lemma_line_starts_count(b, m - 1);
    }
}

proof fn lemma_line_starts_prefix(b: Seq<u8>, x: int, n: int)
    requires
        0 <= x <= n <= b.len(),
    ensures
        line_starts(b, x).len() <= line_starts(b, n).len(),
        forall|i: int| 0 <= i < line_starts(b, x).len() ==> #[trigger] line_starts(b, n)[i] == line_starts(b, x)[i],
        forall|i: int| line_starts(b, x).len() <= i < line_starts(b, n).len() ==> #[trigger] line_starts(b, n)[i] > x,
    decreases n - x,
{
    if n > x {
        lemma_line_starts_prefix(b, x, n - 1);
    }
}

/// Line and column count lines and bytes: within reach of the last line
/// start, byte offset `x` of `b` is on line 1 + the number of newlines
/// before it, at column `x` minus its line's start, plus one.
pub proof fn lemma_line_col_counts_newlines(b: Seq<u8>, x: int)
    requires
        0 <= x <= b.len(),
        x <= line_start_before(b, b.len() as int) + 8192,
    ensures
        spec_line_col(line_starts(b, b.len() as int), x) == Some(
            ((1 + newlines_before(b, x)) as u32, (x - line_start_before(b, x) + 1) as u32),
        ),
{
    let n = b.len() as int;
    let offs = line_starts(b, n);
    lemma_line_starts_shape(b, n);
    lemma_line_starts_count(b, n);
    lemma_line_starts_count(b, x);
    lemma_line_starts_prefix(b, x, n);
    lemma_line_starts_shape(b, x);
    let k = line_starts(b, x).len() as int;
    assert forall|i: int| 0 <= i < k implies #[trigger] offs[i] <= x by {
        assert(offs[i] == line_starts(b, x)[i]);
    }
    lemma_count_le_sorted(offs, x, k);
    assert(offs[k - 1] == line_starts(b, x)[k - 1]);
}

/// Byte offsets of line starts, for byte offset → line/column conversion.
#[derive(Debug)]
pub struct LineOffsets {
    offsets: Vec<usize>,
}

impl View for LineOffsets {
    type V = Seq<int>;

    closed spec fn view(&self) -> Seq<int> {
        self.offsets@.map_values(|o: usize| o as int)
    }
}

impl LineOffsets {
    /// Whether the table is a valid line-start table of some source within
    /// the addressable range.
    pub open spec fn wf(&self) -> bool {
        &&& self@.len() >= 1
        &&& self@[0] == 0
        &&& strictly_increasing(self@)
        &&& self@.last() <= isize::MAX
    }

    /// Builds the line-start table of `source`.
    pub fn from_source(source: &str) -> (lo: Self)
        requires
            source.spec_bytes().len() <= isize::MAX,
        ensures
            lo@ == line_starts(source.spec_bytes(), source.spec_bytes().len() as int),
            lo.wf(),
            forall|x: int|
                0 <= x <= source.spec_bytes().len() && x <= line_start_before(
                    source.spec_bytes(),
                    source.spec_bytes().len() as int,
                ) + 8192 ==> #[trigger] spec_line_col(lo@, x) == Some(
                    (
                        (1 + newlines_before(source.spec_bytes(), x)) as u32,
                        (x - line_start_before(source.spec_bytes(), x) + 1) as u32,
                    ),
                ),
    {
        proof {
            assert forall|x: int|
                0 <= x <= source.spec_bytes().len() && x <= line_start_before(
                    source.spec_bytes(),
                    source.spec_bytes().len() as int,
                ) + 8192 implies #[trigger] spec_line_col(
                line_starts(source.spec_bytes(), source.spec_bytes().len() as int),
                x,
            ) == Some(
                (
                    (1 + newlines_before(source.spec_bytes(), x)) as u32,
                    (x - line_start_before(source.spec_bytes(), x) + 1) as u32,
                ),
            ) by {
                lemma_line_col_counts_newlines(source.spec_bytes(), x);
            }
        }
        let b = source.as_bytes();
        let mut offsets: Vec<usize> = Vec::new();
        offsets.push(0);
        let mut i: usize = 0;
        proof {
            assert(offsets@.map_values(|o: usize| o as int) =~= seq![0int]);
        }
        while i < b.len()
            invariant
                i <= b@.len() <= isize::MAX,
                offsets@.map_values(|o: usize| o as int) == line_starts(b@, i as int),
            decreases b@.len() - i,
        {
            if b[i] == 0x0a {
                offsets.push(i + 1);
                proof {
                    assert(offsets@.map_values(|o: usize| o as int) =~= line_starts(
                        b@,
                        i as int,
                    ).push(i + 1));
                }
            }
            i += 1;
        }
        proof {
            lemma_line_starts_shape(b@, b@.len() as int);
        }
        LineOffsets { offsets }
    }

    /// 1-based `(line, column)` of a byte offset.
    pub fn line_col(&self, byte_offset: usize) -> (r: Option<(u32, u32)>)
        requires
            self.wf(),
        ensures
            r == spec_line_col(self@, byte_offset as int),
    {
        let n = self.offsets.len();
        let last = self.offsets[n - 1];
        proof {
            assert(self@[n - 1] == last);
        }
        if byte_offset > last + 8192 {
            return None;
        }
        // Count of line starts <= byte_offset (binary search).
        let mut lo: usize = 0;
        let mut hi: usize = n;
        while lo < hi
            invariant
                n == self@.len(),
                0 <= lo <= hi <= n,
                self.wf(),
                forall|i: int| 0 <= i < lo ==> #[trigger] self@[i] <= byte_offset,
                forall|i: int| hi <= i < n ==> #[trigger] self@[i] > byte_offset,
            decreases hi - lo,
        {
            let mid = lo + (hi - lo) / 2;
            proof {
                assert(self@[mid as int] == self.offsets@[mid as int]);
            }
            if self.offsets[mid] <= byte_offset {
                lo = mid + 1;
            } else {
                hi = mid;
            }
        }
        proof {
            lemma_count_le_sorted(self@, byte_offset as int, lo as int);
        }
        if lo == 0 {
            return None;
        }
        let line_start = self.offsets[lo - 1];
        proof {
            assert(self@[lo - 1] == line_start);
        }
        let line: u32 = lo as u32;
        let col: u32 = (byte_offset - line_start + 1) as u32;
        Some((line, col))
    }
}

/// A single doc comment segment with the location of its attribute.
#[derive(Debug)]
pub struct DocSegment {
    /// The extracted doc text.
    pub text: String,
    /// Where the doc attribute starts.
    pub source: SourceLocation,
}

/// Whitespace-normalized cfg predicate (runs collapsed, ends trimmed).
pub fn normalize_cfg_predicate(raw: &str) -> (out: String)
    ensures
        out@ == collapse_ws(raw@),
{
    let cs = chars_of(raw);
    let collapsed = collapse_whitespace(cs.as_slice());
    string_of(collapsed.as_slice())
}

/// The first top-level comma of `s` at or after `k`, where `d` is the
/// current bracket depth; `(`, `[`, `{` open and `)`, `]`, `}` close.
pub open spec fn top_comma_from(s: Seq<char>, k: int, d: int) -> Option<int>
    decreases s.len() - k,
{
    if k < 0 || k >= s.len() {
        None
    } else if s[k] == '(' || s[k] == '[' || s[k] == '{' {
        top_comma_from(s, k + 1, d + 1)
    } else if s[k] == ')' || s[k] == ']' || s[k] == '}' {
        top_comma_from(s, k + 1, d - 1)
    } else if s[k] == ',' && d == 0 {
        Some(k)
    } else {
        top_comma_from(s, k + 1, d)
    }
}

/// The predicate of a `cfg_attr(...)` token body: everything before its
/// first top-level comma, whitespace-normalized; `None` when empty.
pub open spec fn spec_cfg_attr_predicate(s: Seq<char>) -> Option<Seq<char>> {
    let pred = match top_comma_from(s, 0, 0) {
        Some(k) => s.take(k),
        None => s,
    };
    let n = collapse_ws(pred);
    if n.len() == 0 {
        None
    } else {
        Some(n)
    }
}

/// The first top-level comma of `cs`.
fn find_top_comma(cs: &[char]) -> (r: Option<usize>)
    requires
        cs@.len() < i64::MAX,
    ensures
        match (r, top_comma_from(cs@, 0, 0)) {
            (Some(p), Some(q)) => p == q && p < cs@.len(),
            (None, None) => true,
            _ => false,
        },
{
    let mut depth: i64 = 0;
    let mut k: usize = 0;
    while k < cs.len()
        invariant
            cs@.len() < i64::MAX,
            k <= cs@.len(),
            -(k as int) <= depth <= k,
            top_comma_from(cs@, k as int, depth as int) == top_comma_from(cs@, 0, 0),
        decreases cs@.len() - k,
    {
        let c = cs[k];
        if c == '(' || c == '[' || c == '{' {
            depth += 1;
        } else if c == ')' || c == ']' || c == '}' {
            depth -= 1;
        } else if c == ',' && depth == 0 {
            return Some(k);
        }
        k += 1;
    }
    None
}

/// Extracts the predicate part of `cfg_attr(<predicate>, <attrs>)` tokens.
pub fn extract_cfg_attr_predicate(tokens: &str) -> (r: Option<String>)
    requires
        tokens@.len() < i64::MAX,
    ensures
        match (r, spec_cfg_attr_predicate(tokens@)) {
            (Some(p), Some(q)) => p@ == q,
            (None, None) => true,
            _ => false,
        },
{
    let cs = chars_of(tokens);
    let comma = find_top_comma(cs.as_slice());
    let pred: &[char] = match comma {
        Some(p) => {
            vstd::slice::slice_subrange(cs.as_slice(), 0, p)
        },
        None => cs.as_slice(),
    };
    let n = collapse_whitespace(pred);
    if n.len() == 0 {
        None
    } else {
        Some(string_of(n.as_slice()))
    }
}

// ---------------------------------------------------------------------------
// Amari usage extraction from syntax events
// ---------------------------------------------------------------------------

/// Amari crates a project can name: each alias with its package name.
pub struct CrateAliasMap {
    /// `(alias, package)` pairs; the first pair with an alias decides.
    pub alias_to_pkg: Vec<(String, String)>,
}

/// The package of alias `a` among pairs `i..` of `m`.
pub open spec fn resolve_from(m: Seq<(String, String)>, a: Seq<char>, i: int) -> Option<Seq<char>>
    decreases m.len() - i,
{
    if i < 0 || i >= m.len() {
        None
    } else if m[i].0@ == a {
        Some(m[i].1@)
    } else {
        resolve_from(m, a, i + 1)
    }
}

/// The package of alias `a`, if it names an Amari crate.
pub open spec fn spec_resolve(m: Seq<(String, String)>, a: Seq<char>) -> Option<Seq<char>> {
    resolve_from(m, a, 0)
}

/// View of an optional text.
pub open spec fn opt_text(o: Option<String>) -> Option<Seq<char>> {
    match o {
        Some(s) => Some(s@),
        None => None,
    }
}

impl CrateAliasMap {
    /// The package an alias names, if any.
    pub fn resolve(&self, alias: &str) -> (r: Option<String>)
        ensures
            opt_text(r) == spec_resolve(self.alias_to_pkg@, alias@),
    {
        let mut i: usize = 0;
        while i < self.alias_to_pkg.len()
            invariant
                i <= self.alias_to_pkg@.len(),
                resolve_from(self.alias_to_pkg@, alias@, i as int) == spec_resolve(self.alias_to_pkg@, alias@),
            decreases self.alias_to_pkg@.len() - i,
        {
            if str_eq(self.alias_to_pkg[i].0.as_str(), alias) {
                return Some(self.alias_to_pkg[i].1.clone());
            }
            i += 1;
        }
        None
    }

    /// Whether an alias names an Amari crate.
    pub fn contains_crate(&self, alias: &str) -> (r: bool)
        ensures
            r == spec_resolve(self.alias_to_pkg@, alias@) is Some,
    {
        self.resolve(alias).is_some()
    }
}

/// The location of a node starting at `pos`: none when the line is unknown,
/// else its 1-based line and column.
pub open spec fn pos_loc(pos: SpanPos, path: Seq<char>, hash: Seq<char>) -> Option<LocV> {
    if pos.line == 0 {
        None
    } else {
        Some((path, Some(pos.line as u32), Some((pos.column + 1) as u32), hash))
    }
}

/// The location of a usage starting at `pos`, or the file itself.
pub open spec fn usage_loc(pos: SpanPos, path: Seq<char>, hash: Seq<char>) -> LocV {
    match pos_loc(pos, path, hash) {
        Some(l) => l,
        None => (path, None, None, hash),
    }
}

/// The usage a `use` leaf records: a bare crate name, or a path whose first
/// identifier names an Amari crate.
pub open spec fn leaf_usage(
    prefix: Seq<Seq<char>>,
    leaf: Option<Seq<char>>,
    pos: SpanPos,
    path: Seq<char>,
    hash: Seq<char>,
    m: Seq<(String, String)>,
) -> Option<UsageV> {
    if prefix.len() == 0 {
        match leaf {
            Some(id) => match spec_resolve(m, id) {
                Some(c) => Some((c, id, Seq::<Seq<char>>::empty(), RustUsageKind::Use, usage_loc(pos, path, hash))),
                None => None,
            },
            None => None,
        }
    } else {
        match spec_resolve(m, prefix[0]) {
            Some(c) => Some(
                (
                    c,
                    prefix[0],
                    prefix.drop_first() + match leaf {
                        Some(l) => seq![l],
                        None => Seq::<Seq<char>>::empty(),
                    },
                    RustUsageKind::Use,
                    usage_loc(pos, path, hash),
                ),
            ),
            None => None,
        }
    }
}

/// The usage a path records when its first identifier names an Amari crate.
pub open spec fn path_usage(
    segs: Seq<Seq<char>>,
    kind: RustUsageKind,
    pos: SpanPos,
    path: Seq<char>,
    hash: Seq<char>,
    m: Seq<(String, String)>,
) -> Option<UsageV> {
    if segs.len() == 0 {
        None
    } else {
        match spec_resolve(m, segs[0]) {
            Some(c) => Some((c, segs[0], segs.drop_first(), kind, usage_loc(pos, path, hash))),
            None => None,
        }
    }
}

/// The usage a syntax event records, if any.
pub open spec fn event_usage(e: SyntaxEvent, path: Seq<char>, hash: Seq<char>, m: Seq<(String, String)>) -> Option<UsageV> {
    match e {
        SyntaxEvent::UseLeaf { prefix, leaf, pos } => leaf_usage(views(prefix@), opt_text(leaf), pos, path, hash, m),
        SyntaxEvent::ExternCrate { ident, pos } => match spec_resolve(m, ident@) {
            Some(c) => Some((c, ident@, Seq::<Seq<char>>::empty(), RustUsageKind::ExternCrate, usage_loc(pos, path, hash))),
            None => None,
        },
        SyntaxEvent::PathRef { segments, kind, pos } => path_usage(views(segments@), kind, pos, path, hash, m),
        SyntaxEvent::Attribute(_) => None,
    }
}

/// The cfg evidence an attribute records: a nonempty `cfg(...)` predicate,
/// or the predicate of a `cfg_attr(...)`.
pub open spec fn attr_cfg(a: AttrSyntax, path: Seq<char>, hash: Seq<char>) -> Option<CfgV> {
    match a.meta {
        MetaSyntax::List(t) => if opt_text(a.ident) == Some("cfg"@) {
            if collapse_ws(t@).len() > 0 {
                Some((path, collapse_ws(t@), false, pos_loc(a.pos, path, hash)))
            } else {
                None
            }
        } else if opt_text(a.ident) == Some("cfg_attr"@) && t@.len() < i64::MAX {
            match spec_cfg_attr_predicate(t@) {
                Some(p) => Some((path, p, true, pos_loc(a.pos, path, hash))),
                None => None,
            }
        } else {
            None
        },
        _ => None,
    }
}

/// The doc segment an attribute records: the string of a `doc = "..."`.
pub open spec fn attr_doc(a: AttrSyntax, path: Seq<char>, hash: Seq<char>) -> Option<(Seq<char>, LocV)> {
    match a.meta {
        MetaSyntax::NameValue(_, Some(text)) => if opt_text(a.ident) == Some("doc"@) {
            Some((text@, usage_loc(a.pos, path, hash)))
        } else {
            None
        },
        _ => None,
    }
}

/// Identifiers joined with `::`.
pub open spec fn join_path(ws: Seq<Seq<char>>) -> Seq<char>
    decreases ws.len(),
{
    if ws.len() == 0 {
        seq![]
    } else if ws.len() == 1 {
        ws[0]
    } else {
        join_path(ws.drop_last()) + "::"@ + ws.last()
    }
}

/// Normalized text of an attribute: its path, then `(predicate)` with
/// whitespace collapsed, or ` = value`; empty for an empty path.
pub open spec fn attr_text(a: AttrSyntax) -> Seq<char> {
    let base = match a.ident {
        Some(i) => i@,
        None => join_path(views(a.segments@)),
    };
    if a.ident is None && a.segments@.len() == 0 {
        seq![]
    } else {
        match a.meta {
            MetaSyntax::Path => base,
            MetaSyntax::List(t) => base + "("@ + collapse_ws(t@) + ")"@,
            MetaSyntax::NameValue(v, _) => base + " = "@ + v@,
        }
    }
}

/// The crate attribute an inner, non-doc attribute records.
pub open spec fn attr_crate(a: AttrSyntax) -> Option<(Seq<char>, SpanPos)> {
    if a.inner && opt_text(a.ident) != Some("doc"@) && attr_text(a).len() > 0 {
        Some((attr_text(a), a.pos))
    } else {
        None
    }
}

/// Appends `o` when present.
pub open spec fn push_opt<A>(s: Seq<A>, o: Option<A>) -> Seq<A> {
    match o {
        Some(x) => s.push(x),
        None => s,
    }
}

/// What is collected before sorting: usages, cfg evidence, crate
/// attributes, doc segments.
pub type CollectV = (Seq<UsageV>, Seq<CfgV>, Seq<(Seq<char>, SpanPos)>, Seq<(Seq<char>, LocV)>);

/// One syntax event added to what was collected; a cfg predicate already
/// seen at the same location is not added again.
pub open spec fn collect_event(st: CollectV, e: SyntaxEvent, path: Seq<char>, hash: Seq<char>, m: Seq<(String, String)>) -> CollectV {
    match e {
        SyntaxEvent::Attribute(a) => (
            st.0,
            match attr_cfg(a, path, hash) {
                Some(c) => if st.1.contains(c) {
                    st.1
                } else {
                    st.1.push(c)
                },
                None => st.1,
            },
            push_opt(st.2, attr_crate(a)),
            push_opt(st.3, attr_doc(a, path, hash)),
        ),
        _ => (push_opt(st.0, event_usage(e, path, hash, m)), st.1, st.2, st.3),
    }
}

/// Everything the syntax events record, in order.
pub open spec fn collect_events(evs: Seq<SyntaxEvent>, path: Seq<char>, hash: Seq<char>, m: Seq<(String, String)>) -> CollectV
    decreases evs.len(),
{
    if evs.len() == 0 {
        (seq![], seq![], seq![], seq![])
    } else {
        collect_event(collect_events(evs.drop_last(), path, hash, m), evs.last(), path, hash, m)
    }
}

/// The Amari evidence of one parsed Rust file.
#[derive(Debug)]
pub struct ParsedRustFile {
    /// Usages, sorted and deduplicated.
    pub usages: Vec<RustUsage>,
    /// Cfg evidence, sorted and deduplicated.
    pub cfg_evidence: Vec<RustCfgEvidence>,
    /// Normalized inner crate attributes with their start positions.
    pub crate_attrs: Vec<(String, SpanPos)>,
    /// Doc segments from `///`, `//!` and `#[doc = "..."]`.
    pub doc_segments: Vec<DocSegment>,
}

/// A Rust file that `syn` cannot parse.
#[derive(Debug)]
pub struct SynParseError {
    /// Stable reason.
    pub reason: String,
    /// Line of the error, when known.
    pub line: Option<u32>,
    /// Column of the error, when known.
    pub column: Option<u32>,
    /// Content hash of the file.
    pub content_hash: String,
}

/// Views of crate attributes.
pub open spec fn attr_views(v: Seq<(String, SpanPos)>) -> Seq<(Seq<char>, SpanPos)> {
    v.map_values(|a: (String, SpanPos)| (a.0@, a.1))
}

/// Views of doc segments.
pub open spec fn doc_views(v: Seq<DocSegment>) -> Seq<(Seq<char>, LocV)> {
    v.map_values(|d: DocSegment| (d.text@, d.source@))
}

/// Whether `r` holds what the syntax events `evs` record: usages and cfg
/// evidence sorted and deduplicated, crate attributes and doc segments in
/// source order.
pub open spec fn parsed_rust_file_is(
    r: ParsedRustFile,
    evs: Seq<SyntaxEvent>,
    path: Seq<char>,
    hash: Seq<char>,
    m: Seq<(String, String)>,
) -> bool {
    let st = collect_events(evs, path, hash, m);
    &&& usage_views(r.usages@) == sorted_usages(st.0)
    &&& cfg_views(r.cfg_evidence@) == sorted_cfg(st.1)
    &&& attr_views(r.crate_attrs@) == st.2
    &&& doc_views(r.doc_segments@) == st.3
}

/// Whether `e` reports a parse error starting at `p`.
pub open spec fn syn_error_is(e: SynParseError, p: SpanPos, hash: Seq<char>) -> bool {
    &&& e.reason@ == "parse error"@
    &&& e.line == if p.line > 0 {
        Some(p.line as u32)
    } else {
        None
    }
    &&& e.column == if p.line > 0 {
        Some((p.column + 1) as u32)
    } else {
        None
    }
    &&& e.content_hash@ == hash
}

fn source_at(pos: SpanPos, path: &str, hash: &str) -> (r: Option<SourceLocation>)
    ensures
        opt_loc(r) == pos_loc(pos, path@, hash@),
{
    if pos.line == 0 {
        None
    } else {
        let column = ((pos.column as u128) + 1) as u32;
        Some(SourceLocation {
            path: String::from_str(path),
            line: Some(pos.line as u32),
            column: Some(column),
            content_hash: String::from_str(hash),
        })
    }
}

fn usage_source(pos: SpanPos, path: &str, hash: &str) -> (r: SourceLocation)
    ensures
        r@ == usage_loc(pos, path@, hash@),
{
    match source_at(pos, path, hash) {
        Some(l) => l,
        None => SourceLocation {
            path: String::from_str(path),
            line: None,
            column: None,
            content_hash: String::from_str(hash),
        },
    }
}

fn clone_from(v: &Vec<String>, from: usize) -> (r: Vec<String>)
    requires
        from <= v@.len(),
    ensures
        views(r@) == views(v@).skip(from as int),
{
    let mut out: Vec<String> = Vec::new();
    let mut i = from;
    while i < v.len()
        invariant
            from <= i <= v@.len(),
            views(out@) == views(v@).subrange(from as int, i as int),
        decreases v@.len() - i,
    {
        let ghost before = out@;
        let x = v[i].clone();
        out.push(x);
        assert(out@ == before.push(x));
        assert(views(out@) =~= views(before).push(v@[i as int]@));
        assert(views(out@) =~= views(v@).subrange(from as int, i + 1));
        i += 1;
    }
    assert(views(v@).subrange(from as int, v@.len() as int) =~= views(v@).skip(from as int));
    out
}

/// View of an optional usage.
pub open spec fn opt_usage(o: Option<RustUsage>) -> Option<UsageV> {
    match o {
        Some(u) => Some((u.crate_name@, u.alias@, views(u.path_segments@), u.kind, u.source@)),
        None => None,
    }
}

fn leaf_usage_exec(
    prefix: &Vec<String>,
    leaf: &Option<String>,
    pos: SpanPos,
    path: &str,
    hash: &str,
    aliases: &CrateAliasMap,
) -> (r: Option<RustUsage>)
    ensures
        opt_usage(r) == leaf_usage(views(prefix@), opt_text(*leaf), pos, path@, hash@, aliases.alias_to_pkg@),
{
    if prefix.len() == 0 {
        match leaf {
            Some(id) => match aliases.resolve(id.as_str()) {
                Some(c) => {
                    let segs: Vec<String> = Vec::new();
                    assert(views(segs@) =~= Seq::<Seq<char>>::empty());
                    Some(RustUsage {
                        crate_name: c,
                        alias: id.clone(),
                        path_segments: segs,
                        kind: RustUsageKind::Use,
                        source: usage_source(pos, path, hash),
                    })
                },
                None => None,
            },
            None => None,
        }
    } else {
        assert(views(prefix@)[0] == prefix@[0]@);
        match aliases.resolve(prefix[0].as_str()) {
            Some(c) => {
                let mut segs = clone_from(prefix, 1);
                assert(views(prefix@).skip(1) =~= views(prefix@).drop_first());
                match leaf {
                    Some(l) => {
                        let ghost before = views(segs@);
                        segs.push(l.clone());
                        assert(views(segs@) =~= before + seq![l@]);
                    },
                    None => {
                        assert(views(segs@) =~= views(segs@) + Seq::<Seq<char>>::empty());
                    },
                }
                Some(RustUsage {
                    crate_name: c,
                    alias: prefix[0].clone(),
                    path_segments: segs,
                    kind: RustUsageKind::Use,
                    source: usage_source(pos, path, hash),
                })
            },
            None => None,
        }
    }
}

fn path_usage_exec(
    segments: &Vec<String>,
    kind: RustUsageKind,
    pos: SpanPos,
    path: &str,
    hash: &str,
    aliases: &CrateAliasMap,
) -> (r: Option<RustUsage>)
    ensures
        opt_usage(r) == path_usage(views(segments@), kind, pos, path@, hash@, aliases.alias_to_pkg@),
{
    if segments.len() == 0 {
        return None;
    }
    assert(views(segments@)[0] == segments@[0]@);
    match aliases.resolve(segments[0].as_str()) {
        Some(c) => {
            let segs = clone_from(segments, 1);
            assert(views(segments@).skip(1) =~= views(segments@).drop_first());
            Some(RustUsage {
                crate_name: c,
                alias: segments[0].clone(),
                path_segments: segs,
                kind,
                source: usage_source(pos, path, hash),
            })
        },
        None => None,
    }
}

fn event_usage_exec(e: &SyntaxEvent, path: &str, hash: &str, aliases: &CrateAliasMap) -> (r: Option<RustUsage>)
    ensures
        opt_usage(r) == event_usage(*e, path@, hash@, aliases.alias_to_pkg@),
{
    match e {
        SyntaxEvent::UseLeaf { prefix, leaf, pos } => leaf_usage_exec(prefix, leaf, *pos, path, hash, aliases),
        SyntaxEvent::ExternCrate { ident, pos } => match aliases.resolve(ident.as_str()) {
            Some(c) => {
                let segs: Vec<String> = Vec::new();
                assert(views(segs@) =~= Seq::<Seq<char>>::empty());
                Some(RustUsage {
                    crate_name: c,
                    alias: ident.clone(),
                    path_segments: segs,
                    kind: RustUsageKind::ExternCrate,
                    source: usage_source(*pos, path, hash),
                })
            },
            None => None,
        },
        SyntaxEvent::PathRef { segments, kind, pos } => path_usage_exec(segments, *kind, *pos, path, hash, aliases),
        SyntaxEvent::Attribute(_) => None,
    }
}

fn ident_is(ident: &Option<String>, name: &str) -> (r: bool)
    ensures
        r == (opt_text(*ident) == Some(name@)),
{
    match ident {
        Some(i) => str_eq(i.as_str(), name),
        None => false,
    }
}

/// View of optional cfg evidence.
pub open spec fn opt_cfg(o: Option<RustCfgEvidence>) -> Option<CfgV> {
    match o {
        Some(c) => Some(
            (
                c.path@,
                c.cfg_predicate@,
                c.is_cfg_attr,
                match c.source {
                    Some(l) => Some(l@),
                    None => None,
                },
            ),
        ),
        None => None,
    }
}

fn attr_cfg_exec(a: &AttrSyntax, path: &str, hash: &str) -> (r: Option<RustCfgEvidence>)
    ensures
        opt_cfg(r) == attr_cfg(*a, path@, hash@),
{
    match &a.meta {
        MetaSyntax::List(t) => {
            if ident_is(&a.ident, "cfg") {
                let n = normalize_cfg_predicate(t.as_str());
                if n.as_str().is_empty() {
                    None
                } else {
                    Some(RustCfgEvidence {
                        path: String::from_str(path),
                        cfg_predicate: n,
                        is_cfg_attr: false,
                        source: source_at(a.pos, path, hash),
                    })
                }
            } else if ident_is(&a.ident, "cfg_attr") {
                let tc = chars_of(t.as_str());
                if tc.len() as u128 >= i64::MAX as u128 {
                    return None;
                }
                match extract_cfg_attr_predicate(t.as_str()) {
                    Some(p) => Some(RustCfgEvidence {
                        path: String::from_str(path),
                        cfg_predicate: p,
                        is_cfg_attr: true,
                        source: source_at(a.pos, path, hash),
                    }),
                    None => None,
                }
            } else {
                None
            }
        },
        _ => None,
    }
}

fn join_path_exec(ws: &Vec<String>) -> (r: String)
    ensures
        r@ == join_path(views(ws@)),
{
    let mut out: Vec<char> = Vec::new();
    let mut i: usize = 0;
    while i < ws.len()
        invariant
            i <= ws@.len(),
            out@ == join_path(views(ws@).take(i as int)),
        decreases ws@.len() - i,
    {
        let ghost before = out@;
        let ghost t = views(ws@).take(i + 1);
        assert(t.drop_last() =~= views(ws@).take(i as int));
        assert(t.last() == ws@[i as int]@);
        if i > 0 {
            let sep = chars_of("::");
            out.append(&mut sep.clone());
        }
        let w = chars_of(ws[i].as_str());
        out.append(&mut w.clone());
        proof {
            if i == 0 {
                assert(t =~= seq![ws@[0]@]);
            }
        }
        assert(out@ =~= join_path(t));
        i += 1;
    }
    assert(views(ws@).take(ws@.len() as int) =~= views(ws@));
    string_of(out.as_slice())
}

fn attr_text_exec(a: &AttrSyntax) -> (r: String)
    ensures
        r@ == attr_text(*a),
{
    if a.ident.is_none() && a.segments.len() == 0 {
        return String::new();
    }
    let base = match &a.ident {
        Some(i) => i.clone(),
        None => join_path_exec(&a.segments),
    };
    match &a.meta {
        MetaSyntax::Path => base,
        MetaSyntax::List(t) => {
            let mut out = base;
            out.append("(");
            let n = normalize_cfg_predicate(t.as_str());
            out.append(n.as_str());
            out.append(")");
            out
        },
        MetaSyntax::NameValue(v, _) => {
            let mut out = base;
            out.append(" = ");
            out.append(v.as_str());
            out
        },
    }
}

fn collect_attr(a: &AttrSyntax, path: &str, hash: &str, out: &mut ParsedRustFile)
    ensures
        final(out).usages == old(out).usages,
        cfg_views(final(out).cfg_evidence@) == match attr_cfg(*a, path@, hash@) {
            Some(c) => if cfg_views(old(out).cfg_evidence@).contains(c) {
                cfg_views(old(out).cfg_evidence@)
            } else {
                cfg_views(old(out).cfg_evidence@).push(c)
            },
            None => cfg_views(old(out).cfg_evidence@),
        },
        attr_views(final(out).crate_attrs@) == push_opt(attr_views(old(out).crate_attrs@), attr_crate(*a)),
        doc_views(final(out).doc_segments@) == push_opt(doc_views(old(out).doc_segments@), attr_doc(*a, path@, hash@)),
{
    let ghost cv0 = cfg_views(out.cfg_evidence@);
    match attr_cfg_exec(a, path, hash) {
        Some(c) => {
            let ghost cv = opt_cfg(Some(c)).unwrap();
            let mut seen = false;
            let mut i: usize = 0;
            while i < out.cfg_evidence.len()
                invariant
                    i <= out.cfg_evidence@.len(),
                    cv0 == cfg_views(out.cfg_evidence@),
                    cv == opt_cfg(Some(c)).unwrap(),
                    seen == exists|k: int| 0 <= k < i && cv0[k] == cv,
                decreases out.cfg_evidence@.len() - i,
            {
                let o = &out.cfg_evidence[i];
                let same_loc = match (&o.source, &c.source) {
                    (Some(x), Some(y)) => str_eq(x.path.as_str(), y.path.as_str()) && x.line == y.line && x.column
                        == y.column && str_eq(x.content_hash.as_str(), y.content_hash.as_str()),
                    (None, None) => true,
                    _ => false,
                };
                let eq = str_eq(o.path.as_str(), c.path.as_str()) && str_eq(
                    o.cfg_predicate.as_str(),
                    c.cfg_predicate.as_str(),
                ) && o.is_cfg_attr == c.is_cfg_attr && same_loc;
                assert(eq == (cv0[i as int] == cv));
                if eq {
                    seen = true;
                }
                i += 1;
            }
            proof {
                if seen {
                    let k = choose|k: int| 0 <= k < out.cfg_evidence@.len() && cv0[k] == cv;
                    assert(cv0.contains(cv));
                } else {
                    assert(!cv0.contains(cv)) by {
                        if cv0.contains(cv) {
                            let k = choose|k: int| 0 <= k < cv0.len() && cv0[k] == cv;
                            assert(cv0[k] == cv);
                        }
                    }
                }
            }
            if !seen {
                out.cfg_evidence.push(c);
                assert(cfg_views(out.cfg_evidence@) =~= cv0.push(cv));
            }
        },
        None => {},
    }
    if a.inner && !ident_is(&a.ident, "doc") {
        let t = attr_text_exec(a);
        if !t.as_str().is_empty() {
            let ghost before = attr_views(out.crate_attrs@);
            out.crate_attrs.push((t, a.pos));
            assert(attr_views(out.crate_attrs@) =~= before.push((attr_text(*a), a.pos)));
        } else {
            assert(attr_text(*a).len() == 0);
        }
    }
    if ident_is(&a.ident, "doc") {
        match &a.meta {
            MetaSyntax::NameValue(_, Some(text)) => {
                let ghost before = doc_views(out.doc_segments@);
                let seg = DocSegment { text: text.clone(), source: usage_source(a.pos, path, hash) };
                out.doc_segments.push(seg);
                assert(doc_views(out.doc_segments@) =~= before.push((text@, usage_loc(a.pos, path@, hash@))));
            },
            _ => {},
        }
    }
}

/// The Amari evidence that the syntax events of one file record.
pub fn parsed_rust_file_of(events: &Vec<SyntaxEvent>, content_hash: &str, path: &str, aliases: &CrateAliasMap) -> (r:
    ParsedRustFile)
    ensures
        parsed_rust_file_is(r, events@, path@, content_hash@, aliases.alias_to_pkg@),
{
    let mut out = ParsedRustFile {
        usages: Vec::new(),
        cfg_evidence: Vec::new(),
        crate_attrs: Vec::new(),
        doc_segments: Vec::new(),
    };
    let ghost m = aliases.alias_to_pkg@;
    let mut i: usize = 0;
    assert(usage_views(out.usages@) =~= Seq::<UsageV>::empty());
    assert(cfg_views(out.cfg_evidence@) =~= Seq::<CfgV>::empty());
    assert(attr_views(out.crate_attrs@) =~= Seq::<(Seq<char>, SpanPos)>::empty());
    assert(doc_views(out.doc_segments@) =~= Seq::<(Seq<char>, LocV)>::empty());
    while i < events.len()
        invariant
            i <= events@.len(),
            m == aliases.alias_to_pkg@,
            ({
                let st = collect_events(events@.take(i as int), path@, content_hash@, m);
                &&& usage_views(out.usages@) == st.0
                &&& cfg_views(out.cfg_evidence@) == st.1
                &&& attr_views(out.crate_attrs@) == st.2
                &&& doc_views(out.doc_segments@) == st.3
            }),
        decreases events@.len() - i,
    {
        let e = &events[i];
        assert(events@.take(i + 1).drop_last() =~= events@.take(i as int));
        assert(events@.take(i + 1).last() == events@[i as int]);
        match e {
            SyntaxEvent::Attribute(a) => {
                collect_attr(a, path, content_hash, &mut out);
            },
            _ => {
                let ghost before = usage_views(out.usages@);
                match event_usage_exec(e, path, content_hash, aliases) {
                    Some(u) => {
                        out.usages.push(u);
                        assert(usage_views(out.usages@) =~= before.push(opt_usage(Some(u)).unwrap()));
                    },
                    None => {},
                }
            },
        }
        i += 1;
    }
    assert(events@.take(events@.len() as int) =~= events@);
    sort_and_dedup_usages(&mut out.usages);
    sort_and_dedup_cfg(&mut out.cfg_evidence);
    out
}

/// The parse error of a file whose parse fails at `pos`.
pub fn syn_parse_error(pos: SpanPos, content_hash: &str) -> (e: SynParseError)
    ensures
        syn_error_is(e, pos, content_hash@),
{
    let (line, column) = if pos.line > 0 {
        (Some(pos.line as u32), Some(((pos.column as u128) + 1) as u32))
    } else {
        (None, None)
    };
    SynParseError { reason: String::from_str("parse error"), line, column, content_hash: String::from_str(content_hash) }
}

/// Parses a Rust source file with `syn` and extracts its Amari evidence in
/// one pass: usages of aliased Amari crates (`use` leaves, `extern crate`,
/// expression, type, trait-bound and macro paths), `cfg`/`cfg_attr`
/// predicates, inner crate attributes and doc segments.
///
/// # Errors
///
/// Returns a [`SynParseError`] located where the parse fails.
pub fn parse_rust_source(source: &str, content_hash: &str, path: &str, aliases: &CrateAliasMap) -> (r: Result<
    ParsedRustFile,
    SynParseError,
>)
    ensures
        match spec_rust_syntax(source@) {
            Ok(evs) => r matches Ok(f) && parsed_rust_file_is(f, evs, path@, content_hash@, aliases.alias_to_pkg@),
            Err(p) => r matches Err(e) && syn_error_is(e, p, content_hash@),
        },
{
    match rust_syntax(source) {
        Ok(events) => Ok(parsed_rust_file_of(&events, content_hash, path, aliases)),
        Err(pos) => Err(syn_parse_error(pos, content_hash)),
    }
}

} // verus!
