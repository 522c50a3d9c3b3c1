//! Goal validation, catalog-reference parsing, and replay validation of
//! candidate plans.

use vstd::prelude::*;
use vstd::string::StringExecFns;

use crate::error::{DiscoveryError, DiscoveryResult};
use crate::hashing::{sha256_hex, spec_sha256_hex};
use crate::planner::normalize::{normalization_limits_error, NormalizationLimits, PlanNormalizer};
use crate::protocol::{CandidatePlan, GoalSpec, PlanCompatibility, ProbeReplayHash};
use crate::text::{chars_of, first_index_of, is_whitespace, is_ws, str_eq, string_of, subrange_vec};

verus! {

#[verifier::external_type_specification]
#[verifier::external_body]
pub struct ExJsonError(serde_json::Error);

/// Deterministic catalog-backed candidate-plan generator.
#[derive(Clone, Copy, Debug, PartialEq, Eq, Structural)]
pub struct PlanGenerator {
    normalizer: PlanNormalizer,
}

impl PlanGenerator {
    /// The normalizer plans are normalized with.
    pub closed spec fn spec_normalizer(&self) -> PlanNormalizer {
        self.normalizer
    }

    /// Creates a plan generator with explicit normalization limits.
    ///
    /// # Errors
    ///
    /// Returns [`DiscoveryError::InvalidInput`] when either limit is zero and
    /// [`DiscoveryError::LimitExceeded`] when a hard ceiling is exceeded.
    pub fn new(limits: NormalizationLimits) -> (r: DiscoveryResult<Self>)
        ensures
            normalization_limits_error(limits) is None ==> (r matches Ok(g)
                && g.spec_normalizer().spec_limits() == limits),
            normalization_limits_error(limits) matches Some(msg) ==> (r matches Err(e)
                && e.spec_message() == msg && ((limits.max_plan_steps == 0 || limits.max_rewrites == 0)
                ==> e is InvalidInput) && (!(limits.max_plan_steps == 0 || limits.max_rewrites == 0)
                ==> e is LimitExceeded)),
    {
        match PlanNormalizer::new(limits) {
            Ok(normalizer) => Ok(PlanGenerator { normalizer }),
            Err(e) => Err(e),
        }
    }
}

// ---------------------------------------------------------------------------
// Goal validation
// ---------------------------------------------------------------------------

/// Whether a text is empty after trimming whitespace.
pub open spec fn blank(s: Seq<char>) -> bool {
    forall|i: int| 0 <= i < s.len() ==> is_ws(#[trigger] s[i])
}

/// Whether `s` is empty or all whitespace.
pub fn is_blank(s: &str) -> (r: bool)
    ensures
        r == blank(s@),
{
    let cs = chars_of(s);
    let mut i: usize = 0;
    while i < cs.len()
        invariant
            i <= cs@.len(),
            cs@ == s@,
            forall|k: int| 0 <= k < i ==> is_ws(#[trigger] cs@[k]),
        decreases cs@.len() - i,
    {
        if !is_whitespace(cs[i]) {
            return false;
        }
        i += 1;
    }
    true
}

/// Which error, if any, goal validation reports.
pub open spec fn goal_error(goal: GoalSpec) -> Option<Seq<char>> {
    if blank(goal.statement@) {
        Some("planning goal statement must not be empty"@)
    } else if exists|i: int| 0 <= i < goal.constraints@.len() && blank(#[trigger] goal.constraints@[i]@) {
        Some("planning goal constraints must not be empty"@)
    } else {
        None
    }
}

/// Rejects a blank goal statement or a blank constraint.
///
/// # Errors
///
/// Returns [`DiscoveryError::InvalidInput`] naming what is empty.
pub fn validate_goal(goal: &GoalSpec) -> (r: DiscoveryResult<()>)
    ensures
        goal_error(*goal) is None ==> r is Ok,
        goal_error(*goal) matches Some(msg) ==> (r matches Err(DiscoveryError::InvalidInput(m))
            && m@ == msg),
{
    if is_blank(goal.statement.as_str()) {
        return Err(
            DiscoveryError::InvalidInput(String::from_str("planning goal statement must not be empty")),
        );
    }
    let mut i: usize = 0;
    while i < goal.constraints.len()
        invariant
            i <= goal.constraints@.len(),
            !blank(goal.statement@),
            forall|k: int| 0 <= k < i ==> !blank(#[trigger] goal.constraints@[k]@),
        decreases goal.constraints@.len() - i,
    {
        if is_blank(goal.constraints[i].as_str()) {
            return Err(
                DiscoveryError::InvalidInput(
                    String::from_str("planning goal constraints must not be empty"),
                ),
            );
        }
        i += 1;
    }
    Ok(())
}

// ---------------------------------------------------------------------------
// Catalog references
// ---------------------------------------------------------------------------

/// The `(package, item)` halves of a `package:item` reference, split at the
/// first `:`, when both are nonempty.
pub open spec fn spec_split_reference(reference: Seq<char>) -> Option<(Seq<char>, Seq<char>)> {
    let k = first_index_of(reference, ':', 0);
    if k < reference.len() && k > 0 && k + 1 < reference.len() {
        Some((reference.take(k), reference.skip(k + 1)))
    } else {
        None
    }
}

/// Splits a `package:item` catalog reference.
///
/// # Errors
///
/// Returns [`DiscoveryError::CatalogCorruption`] for a reference without a
/// `:` or with an empty half.
pub fn split_catalog_reference(reference: &str, kind: &str) -> (r: DiscoveryResult<(String, String)>)
    ensures
        spec_split_reference(reference@) matches Some((p, i)) ==> (r matches Ok((a, b)) && a@ == p
            && b@ == i),
        spec_split_reference(reference@) is None ==> (r matches Err(
            DiscoveryError::CatalogCorruption(m),
        ) && m@ == "malformed "@ + kind@ + " reference `"@ + reference@ + "`"@),
{
    let cs = chars_of(reference);
    let mut k: usize = 0;
    while k < cs.len() && cs[k] != ':'
        invariant
            k <= cs@.len(),
            cs@ == reference@,
            first_index_of(cs@, ':', k as int) == first_index_of(cs@, ':', 0),
        decreases cs@.len() - k,
    {
        k += 1;
    }
    if k < cs.len() && k > 0 && k + 1 < cs.len() {
        let a = subrange_vec(cs.as_slice(), 0, k);
        let b = subrange_vec(cs.as_slice(), k + 1, cs.len());
        assert(cs@.subrange(0, k as int) =~= cs@.take(k as int));
        assert(cs@.subrange(k + 1, cs@.len() as int) =~= cs@.skip(k + 1));
        Ok((string_of(a.as_slice()), string_of(b.as_slice())))
    } else {
        let mut m = String::from_str("malformed ");
        m.append(kind);
        m.append(" reference `");
        m.append(reference);
        m.append("`");
        Err(DiscoveryError::CatalogCorruption(m))
    }
}

// ---------------------------------------------------------------------------
// Replay validation
// ---------------------------------------------------------------------------

/// Compares one replay-required value.
///
/// # Errors
///
/// Returns [`DiscoveryError::ReplayDrift`] naming `field` when the values
/// differ.
pub fn compare_replay(field: &str, expected: &str, actual: &str) -> (r: DiscoveryResult<()>)
    ensures
        expected@ == actual@ ==> r is Ok,
        expected@ != actual@ ==> (r matches Err(DiscoveryError::ReplayDrift { field: f, expected: e, actual: a })
            && f@ == field@ && e@ == expected@ && a@ == actual@),
{
    if str_eq(expected, actual) {
        Ok(())
    } else {
        Err(
            DiscoveryError::ReplayDrift {
                field: String::from_str(field),
                expected: String::from_str(expected),
                actual: String::from_str(actual),
            },
        )
    }
}

/// Lowercase hexadecimal digit of `n` (0..15).
pub open spec fn hex_digit(n: int) -> char {
    if n < 10 {
        ('0' as int + n) as char
    } else {
        ('a' as int + n - 10) as char
    }
}

/// How `serde_json` writes one character inside a string literal: `"` and
/// `\` and the ASCII control characters are escaped (`\b`, `\t`, `\n`, `\f`,
/// `\r`, else `\u00XX` in lowercase hex); every other character is kept.
pub open spec fn json_escape(c: char) -> Seq<char> {
    if c == '"' {
        seq!['\\', '"']
    } else if c == '\\' {
        seq!['\\', '\\']
    } else if c == '\u{8}' {
        seq!['\\', 'b']
    } else if c == '\t' {
        seq!['\\', 't']
    } else if c == '\n' {
        seq!['\\', 'n']
    } else if c == '\u{c}' {
        seq!['\\', 'f']
    } else if c == '\r' {
        seq!['\\', 'r']
    } else if (c as u32) < 0x20 {
        seq!['\\', 'u', '0', '0', hex_digit((c as int) / 16), hex_digit((c as int) % 16)]
    } else {
        seq![c]
    }
}

/// The escaped characters of `s`.
pub open spec fn json_escaped(s: Seq<char>) -> Seq<char>
    decreases s.len(),
{
    if s.len() == 0 {
        seq![]
    } else {
        json_escaped(s.drop_last()) + json_escape(s.last())
    }
}

/// The JSON string literal of a text, as `serde_json` writes it: the
/// escaped characters between double quotes.
pub open spec fn spec_json_string(s: Seq<char>) -> Seq<char> {
    seq!['"'] + json_escaped(s) + seq!['"']
}

/// The JSON string literal of `s` (`serde_json::to_string` on a `str`):
/// `s` with `"`, `\\` and the ASCII control characters escaped, between
/// double quotes. Encoding a `str` into memory never fails.
#[verifier::external_body]
fn json_string(s: &str) -> (r: Result<String, serde_json::Error>)
    ensures
        r is Ok,
        r matches Ok(v) ==> v@ == spec_json_string(s@),
{
    serde_json::to_string(s)
}

/// The compact JSON object of one saved-probe replay hash.
pub open spec fn probe_json(p: (Seq<char>, Seq<char>, Seq<char>)) -> Seq<char> {
    "{\"probe_id\":"@ + spec_json_string(p.0) + ",\"input_hash\":"@ + spec_json_string(p.1)
        + ",\"result_hash\":"@ + spec_json_string(p.2) + "}"@
}

/// The comma-separated JSON objects of a list of probe hashes.
pub open spec fn probe_items_json(v: Seq<(Seq<char>, Seq<char>, Seq<char>)>) -> Seq<char>
    decreases v.len(),
{
    if v.len() == 0 {
        seq![]
    } else if v.len() == 1 {
        probe_json(v[0])
    } else {
        probe_items_json(v.drop_last()) + ","@ + probe_json(v.last())
    }
}

/// The compact JSON array of a list of probe hashes.
pub open spec fn probes_json(v: Seq<(Seq<char>, Seq<char>, Seq<char>)>) -> Seq<char> {
    "["@ + probe_items_json(v) + "]"@
}

/// Views of a list of probe hashes.
pub open spec fn probe_views(v: Seq<ProbeReplayHash>) -> Seq<(Seq<char>, Seq<char>, Seq<char>)> {
    v.map_values(|p: ProbeReplayHash| p@)
}

/// The hex SHA-256 of the JSON encoding of a list of probe hashes.
pub open spec fn probes_hash(v: Seq<ProbeReplayHash>) -> Seq<char> {
    spec_sha256_hex(vstd::utf8::encode_utf8(probes_json(probe_views(v))))
}

/// The serialization failure reported when a probe hash cannot be encoded.
fn json_failure() -> (r: DiscoveryError)
    ensures
        r is Internal,
{
    DiscoveryError::Internal(String::from_str("cannot serialize saved probe hashes"))
}

/// The hex SHA-256 of the compact JSON array of `v`.
///
/// # Errors
///
/// Would return [`DiscoveryError::Internal`] if a string could not be
/// encoded; encoding a `str` never fails, so this always succeeds.
pub fn hash_probe_results(v: &Vec<ProbeReplayHash>) -> (r: DiscoveryResult<String>)
    ensures
        r matches Ok(h) && h@ == probes_hash(v@),
{
    let mut out = String::from_str("[");
    let ghost pv = probe_views(v@);
    let mut i: usize = 0;
    while i < v.len()
        invariant
            i <= v@.len(),
            pv == probe_views(v@),
            out@ == "["@ + probe_items_json(pv.take(i as int)),
        decreases v@.len() - i,
    {
        proof {
            assert(pv.take(i + 1).drop_last() =~= pv.take(i as int));
            assert(pv.take(i + 1).last() == v@[i as int]@);
        }
        if i > 0 {
            out.append(",");
        }
        let a = match json_string(v[i].probe_id.as_str()) {
            Ok(s) => s,
            Err(_) => {
                return Err(json_failure());
            },
        };
        let b = match json_string(v[i].input_hash.as_str()) {
            Ok(s) => s,
            Err(_) => {
                return Err(json_failure());
            },
        };
        let c = match json_string(v[i].result_hash.as_str()) {
            Ok(s) => s,
            Err(_) => {
                return Err(json_failure());
            },
        };
        out.append("{\"probe_id\":");
        out.append(a.as_str());
        out.append(",\"input_hash\":");
        out.append(b.as_str());
        out.append(",\"result_hash\":");
        out.append(c.as_str());
        out.append("}");
        proof {
            if i == 0 {
                assert(pv.take(1) =~= seq![pv[0]]);
            }
        }
        i += 1;
    }
    out.append("]");
    assert(pv.take(v@.len() as int) =~= pv);
    Ok(sha256_hex(out.as_str().as_bytes()))
}

/// Whether two probe-hash lists hold the same values in the same order.
pub fn same_probe_results(a: &Vec<ProbeReplayHash>, b: &Vec<ProbeReplayHash>) -> (r: bool)
    ensures
        r == (probe_views(a@) == probe_views(b@)),
{
    if a.len() != b.len() {
        proof {
            assert(probe_views(a@).len() != probe_views(b@).len());
        }
        return false;
    }
    let mut i: usize = 0;
    while i < a.len()
        invariant
            i <= a@.len(),
            a@.len() == b@.len(),
            forall|k: int| 0 <= k < i ==> #[trigger] a@[k]@ == b@[k]@,
        decreases a@.len() - i,
    {
        if !(str_eq(a[i].probe_id.as_str(), b[i].probe_id.as_str()) && str_eq(
            a[i].input_hash.as_str(),
            b[i].input_hash.as_str(),
        ) && str_eq(a[i].result_hash.as_str(), b[i].result_hash.as_str())) {
            proof {
                assert(probe_views(a@)[i as int] != probe_views(b@)[i as int]);
            }
            return false;
        }
        i += 1;
    }
    assert(probe_views(a@) =~= probe_views(b@));
    true
}

/// Whether `r` reports drift of `field` from `expected` to `actual`.
pub open spec fn is_drift(r: DiscoveryResult<()>, field: Seq<char>, expected: Seq<char>, actual: Seq<char>) -> bool {
    r matches Err(DiscoveryError::ReplayDrift { field: f, expected: e, actual: a }) && f@ == field
        && e@ == expected && a@ == actual
}

impl CandidatePlan {
    /// Validates all replay-required hashes against current inputs.
    ///
    /// # Errors
    ///
    /// Returns [`DiscoveryError::ReplayDrift`] naming the first mismatched
    /// catalog, project, input, or saved-probe hash field (for saved probes,
    /// with the hashes of both lists).
    pub fn verify_replay(&self, actual: &PlanCompatibility) -> (r: DiscoveryResult<()>)
        ensures
            ({
                let x = self.compatibility;
                let y = *actual;
                let v = x.catalog.version@ == y.catalog.version@;
                let h = x.catalog.hash@ == y.catalog.hash@;
                let p = x.project_hash@ == y.project_hash@;
                let i = x.input_hash@ == y.input_hash@;
                let q = probe_views(x.probe_results@) == probe_views(y.probe_results@);
                &&& !v ==> is_drift(r, "catalog_version"@, x.catalog.version@, y.catalog.version@)
                &&& v && !h ==> is_drift(r, "catalog_hash"@, x.catalog.hash@, y.catalog.hash@)
                &&& v && h && !p ==> is_drift(r, "project_hash"@, x.project_hash@, y.project_hash@)
                &&& v && h && p && !i ==> is_drift(r, "input_hash"@, x.input_hash@, y.input_hash@)
                &&& v && h && p && i && !q ==> (is_drift(
                    r,
                    "probe_results"@,
                    probes_hash(x.probe_results@),
                    probes_hash(y.probe_results@),
                ))
                &&& v && h && p && i && q ==> r is Ok
            }),
    {
        let expected = &self.compatibility;
        compare_replay("catalog_version", expected.catalog.version.as_str(), actual.catalog.version.as_str())?;
        compare_replay("catalog_hash", expected.catalog.hash.as_str(), actual.catalog.hash.as_str())?;
        compare_replay("project_hash", expected.project_hash.as_str(), actual.project_hash.as_str())?;
        compare_replay("input_hash", expected.input_hash.as_str(), actual.input_hash.as_str())?;
        if !same_probe_results(&expected.probe_results, &actual.probe_results) {
            let e = hash_probe_results(&expected.probe_results)?;
            let a = hash_probe_results(&actual.probe_results)?;
            return Err(
                DiscoveryError::ReplayDrift {
                    field: String::from_str("probe_results"),
                    expected: e,
                    actual: a,
                },
            );
        }
        Ok(())
    }
}

} // verus!
