//! Plan drafting: the prerequisite order of a ranked candidate's path and
//! the static steps that the catalog records of each capability call for.
//!
//! For every capability in prerequisite order the steps are, in this order:
//! a dependency on each referenced crate at its catalog version, each
//! referenced feature, each symbol, each example, each probe, and a test of
//! each referenced crate.

use vstd::prelude::*;
use vstd::string::StringExecFns;

use crate::error::{DiscoveryError, DiscoveryResult};
use crate::order::views;
use crate::planner::plan::{goal_error, spec_split_reference, split_catalog_reference, validate_goal};
use crate::protocol::{GoalSpec, PlanStep, PlanTestTarget};
use crate::text::str_eq;

verus! {

/// What drafting reads of one catalog capability record.
#[derive(Debug, PartialEq, Eq)]
pub struct CapabilityRefs {
    /// Stable capability ID.
    pub id: String,
    /// Crates the capability uses.
    pub crate_refs: Vec<String>,
    /// `package:feature` references.
    pub feature_refs: Vec<String>,
    /// Symbol paths.
    pub symbol_refs: Vec<String>,
    /// `package:example` references.
    pub example_refs: Vec<String>,
    /// Probe identifiers.
    pub probe_refs: Vec<String>,
}

/// What drafting reads of one catalog crate record.
#[derive(Debug, PartialEq, Eq)]
pub struct CrateVersion {
    /// Package name.
    pub name: String,
    /// Catalog version.
    pub version: String,
}

// ---------------------------------------------------------------------------
// Prerequisite order
// ---------------------------------------------------------------------------

/// The entries of `s` at their first occurrence, in order.
pub open spec fn first_occurrences(s: Seq<Seq<char>>) -> Seq<Seq<char>>
    decreases s.len(),
{
    if s.len() == 0 {
        seq![]
    } else {
        let r = first_occurrences(s.drop_last());
        if r.contains(s.last()) {
            r
        } else {
            r.push(s.last())
        }
    }
}

/// A candidate path is usable when it is nonempty, targets the candidate's
/// capability, and ends at it.
pub open spec fn path_usable(capability_id: Seq<char>, target: Seq<char>, path: Seq<Seq<char>>) -> bool {
    &&& path.len() > 0
    &&& target == capability_id
    &&& path.last() == capability_id
}

/// The prerequisite order lists every capability of the path exactly once.
pub proof fn lemma_first_occurrences(s: Seq<Seq<char>>)
    ensures
        forall|i: int, j: int|
            0 <= i < j < first_occurrences(s).len() ==> #[trigger] first_occurrences(s)[i]
                != #[trigger] first_occurrences(s)[j],
        forall|x: Seq<char>| #[trigger] first_occurrences(s).contains(x) <==> s.contains(x),
    decreases s.len(),
{
    if s.len() > 0 {
        let d = s.drop_last();
        lemma_first_occurrences(d);
        let r = first_occurrences(d);
        assert forall|x: Seq<char>| s.contains(x) <==> (d.contains(x) || x == s.last()) by {
            if s.contains(x) {
                let k = choose|k: int| 0 <= k < s.len() && s[k] == x;
                if k < s.len() - 1 {
                    assert(d[k] == x);
                }
            }
            if d.contains(x) {
                let k = choose|k: int| 0 <= k < d.len() && d[k] == x;
                assert(s[k] == x);
            }
            if x == s.last() {
                assert(s[s.len() - 1] == x);
            }
        }
        if !r.contains(s.last()) {
            let p = r.push(s.last());
            assert forall|x: Seq<char>| p.contains(x) <==> (r.contains(x) || x == s.last()) by {
                if p.contains(x) {
                    let k = choose|k: int| 0 <= k < p.len() && p[k] == x;
                    if k < r.len() {
                        assert(r[k] == x);
                    }
                }
                if r.contains(x) {
                    let k = choose|k: int| 0 <= k < r.len() && r[k] == x;
                    assert(p[k] == x);
                }
                if x == s.last() {
                    assert(p[p.len() - 1] == x);
                }
            }
            assert forall|i: int, j: int| 0 <= i < j < p.len() implies p[i] != p[j] by {
                if j == p.len() - 1 {
                    assert(r[i] == p[i]);
                } else {
                    assert(r[i] == p[i] && r[j] == p[j]);
                }
            }
        }
    }
}

/// Whether `s` occurs in `v`.
fn holds_str(v: &Vec<String>, s: &str) -> (r: bool)
    ensures
        r == views(v@).contains(s@),
{
    let mut i: usize = 0;
    while i < v.len()
        invariant
            i <= v@.len(),
            forall|k: int| 0 <= k < i ==> v@[k]@ != s@,
        decreases v@.len() - i,
    {
        if str_eq(v[i].as_str(), s) {
            assert(views(v@)[i as int] == s@);
            return true;
        }
        i += 1;
    }
    proof {
        if views(v@).contains(s@) {
            let k = choose|k: int| 0 <= k < views(v@).len() && views(v@)[k] == s@;
            assert(v@[k]@ == s@);
        }
    }
    false
}

/// The capabilities of a candidate's path in prerequisite order: each at its
/// first occurrence.
///
/// # Errors
///
/// Returns [`DiscoveryError::InvalidInput`] when the path is empty, targets
/// another capability, or does not end at the candidate's capability.
pub fn prerequisite_order(capability_id: &str, target: &str, path: &Vec<String>) -> (r: DiscoveryResult<
    Vec<String>,
>)
    ensures
        path_usable(capability_id@, target@, views(path@)) ==> (r matches Ok(v) && views(v@)
            == first_occurrences(views(path@))),
        !path_usable(capability_id@, target@, views(path@)) ==> (r matches Err(
            DiscoveryError::InvalidInput(m),
        ) && m@ == "ranked candidate requires a nonempty path ending at its capability ID"@),
{
    if path.len() == 0 || !str_eq(target, capability_id) || !str_eq(
        path[path.len() - 1].as_str(),
        capability_id,
    ) {
        return Err(
            DiscoveryError::InvalidInput(
                String::from_str("ranked candidate requires a nonempty path ending at its capability ID"),
            ),
        );
    }
    let mut out: Vec<String> = Vec::new();
    let mut i: usize = 0;
    while i < path.len()
        invariant
            i <= path@.len(),
            views(out@) == first_occurrences(views(path@).take(i as int)),
        decreases path@.len() - i,
    {
        let ghost before = out@;
        assert(views(path@).take(i + 1).drop_last() =~= views(path@).take(i as int));
        assert(views(path@).take(i + 1).last() == path@[i as int]@);
        if !holds_str(&out, path[i].as_str()) {
            out.push(path[i].clone());
            assert(views(out@) =~= views(before).push(path@[i as int]@));
        }
        i += 1;
    }
    assert(views(path@).take(path@.len() as int) =~= views(path@));
    Ok(out)
}

// ---------------------------------------------------------------------------
// Catalog lookups
// ---------------------------------------------------------------------------

/// Index of the last capability record among the first `n` with ID `id`:
/// the record a lookup by ID finds.
pub open spec fn capability_index(caps: Seq<CapabilityRefs>, id: Seq<char>, n: int) -> Option<int>
    decreases n,
{
    if n <= 0 {
        None
    } else if caps[n - 1].id@ == id {
        Some(n - 1)
    } else {
        capability_index(caps, id, n - 1)
    }
}

/// Index of the last crate record among the first `n` named `name`.
pub open spec fn crate_index(crates: Seq<CrateVersion>, name: Seq<char>, n: int) -> Option<int>
    decreases n,
{
    if n <= 0 {
        None
    } else if crates[n - 1].name@ == name {
        Some(n - 1)
    } else {
        crate_index(crates, name, n - 1)
    }
}

proof fn lemma_capability_index_bounds(caps: Seq<CapabilityRefs>, id: Seq<char>, n: int)
    requires
        n <= caps.len(),
    ensures
        capability_index(caps, id, n) matches Some(k) ==> 0 <= k < n && caps[k].id@ == id,
    decreases n,
{
    if n > 0 {
        lemma_capability_index_bounds(caps, id, n - 1);
    }
}

proof fn lemma_crate_index_bounds(crates: Seq<CrateVersion>, name: Seq<char>, n: int)
    requires
        n <= crates.len(),
    ensures
        crate_index(crates, name, n) matches Some(k) ==> 0 <= k < n && crates[k].name@ == name,
    decreases n,
{
    if n > 0 {
        lemma_crate_index_bounds(crates, name, n - 1);
    }
}

/// Finds the capability record with ID `id`; the last one when several share it.
pub fn find_capability(caps: &Vec<CapabilityRefs>, id: &str) -> (r: Option<usize>)
    ensures
        r matches Some(k) ==> capability_index(caps@, id@, caps@.len() as int) == Some(k as int),
        r is None ==> capability_index(caps@, id@, caps@.len() as int) is None,
{
    let mut i: usize = caps.len();
    while i > 0
        invariant
            i <= caps@.len(),
            capability_index(caps@, id@, caps@.len() as int) == capability_index(caps@, id@, i as int),
        decreases i,
    {
        if str_eq(caps[i - 1].id.as_str(), id) {
            return Some(i - 1);
        }
        i -= 1;
    }
    None
}

/// Finds the version of crate `name`; that of the last record when several
/// share the name.
pub fn find_crate_version(crates: &Vec<CrateVersion>, name: &str) -> (r: Option<String>)
    ensures
        r matches Some(v) ==> (crate_index(crates@, name@, crates@.len() as int) matches Some(k)
            && v@ == crates@[k].version@),
        r is None ==> crate_index(crates@, name@, crates@.len() as int) is None,
{
    let mut i: usize = crates.len();
    while i > 0
        invariant
            i <= crates@.len(),
            crate_index(crates@, name@, crates@.len() as int) == crate_index(crates@, name@, i as int),
        decreases i,
    {
        if str_eq(crates[i - 1].name.as_str(), name) {
            return Some(crates[i - 1].version.clone());
        }
        i -= 1;
    }
    None
}

// ---------------------------------------------------------------------------
// Steps
// ---------------------------------------------------------------------------

/// A step as plain values: the variant's tag (0 dependency, 1 feature,
/// 2 symbol, 3 example, 4 probe, 5 test of all targets, 6 npm test), its
/// capability, and its other fields (empty where the variant has fewer).
pub open spec fn step_view(s: PlanStep) -> (int, Seq<char>, Seq<char>, Seq<char>) {
    match s {
        PlanStep::Dependency { capability_id, package, version } => (0, capability_id@, package@, version@),
        PlanStep::Feature { capability_id, package, feature } => (1, capability_id@, package@, feature@),
        PlanStep::Symbol { capability_id, path } => (2, capability_id@, path@, seq![]),
        PlanStep::Example { capability_id, package, example } => (3, capability_id@, package@, example@),
        PlanStep::Probe { capability_id, probe_id } => (4, capability_id@, probe_id@, seq![]),
        PlanStep::Test { capability_id, package, target } => (
            match target {
                PlanTestTarget::AllTargets => 5,
                PlanTestTarget::NpmPackage => 6,
            },
            capability_id@,
            package@,
            seq![],
        ),
    }
}

/// The plain values of a list of steps.
pub open spec fn step_views(s: Seq<PlanStep>) -> Seq<(int, Seq<char>, Seq<char>, Seq<char>)> {
    s.map_values(|p: PlanStep| step_view(p))
}

/// Whether error `e` is the failure `f`: kind 0 is
/// [`DiscoveryError::InvalidInput`], kind 1 [`DiscoveryError::CatalogCorruption`],
/// with message `f.1`.
pub open spec fn failure_is(e: DiscoveryError, f: (int, Seq<char>)) -> bool {
    match e {
        DiscoveryError::InvalidInput(m) => f.0 == 0 && m@ == f.1,
        DiscoveryError::CatalogCorruption(m) => f.0 == 1 && m@ == f.1,
        _ => false,
    }
}

/// Dependency steps for the first `n` crate references of capability `cap`,
/// or the failure for the first crate the catalog lacks.
pub open spec fn dependency_steps(cap: Seq<char>, refs: Seq<String>, crates: Seq<CrateVersion>, n: int) -> Result<
    Seq<(int, Seq<char>, Seq<char>, Seq<char>)>,
    (int, Seq<char>),
>
    decreases n,
{
    if n <= 0 {
        Ok(seq![])
    } else {
        match dependency_steps(cap, refs, crates, n - 1) {
            Err(f) => Err(f),
            Ok(s) => match crate_index(crates, refs[n - 1]@, crates.len() as int) {
                None => Err(
                    (1, "capability `"@ + cap + "` references unknown crate `"@ + refs[n - 1]@ + "`"@),
                ),
                Some(k) => Ok(s.push((0, cap, refs[n - 1]@, crates[k].version@))),
            },
        }
    }
}

/// Steps with tag `tag` for the first `n` `package:item` references of
/// capability `cap`, or the failure for the first malformed one.
pub open spec fn split_steps(tag: int, kind: Seq<char>, cap: Seq<char>, refs: Seq<String>, n: int) -> Result<
    Seq<(int, Seq<char>, Seq<char>, Seq<char>)>,
    (int, Seq<char>),
>
    decreases n,
{
    if n <= 0 {
        Ok(seq![])
    } else {
        match split_steps(tag, kind, cap, refs, n - 1) {
            Err(f) => Err(f),
            Ok(s) => match spec_split_reference(refs[n - 1]@) {
                None => Err((1, "malformed "@ + kind + " reference `"@ + refs[n - 1]@ + "`"@)),
                Some((p, i)) => Ok(s.push((tag, cap, p, i))),
            },
        }
    }
}

/// Steps with tag `tag` naming each of `refs`, for capability `cap`.
pub open spec fn plain_steps(tag: int, cap: Seq<char>, refs: Seq<String>) -> Seq<
    (int, Seq<char>, Seq<char>, Seq<char>),
> {
    refs.map_values(|x: String| (tag, cap, x@, Seq::<char>::empty()))
}

/// The steps one capability record calls for: dependencies, features,
/// symbols, examples, probes, then tests; or the first failure.
pub open spec fn capability_steps(cap: Seq<char>, c: CapabilityRefs, crates: Seq<CrateVersion>) -> Result<
    Seq<(int, Seq<char>, Seq<char>, Seq<char>)>,
    (int, Seq<char>),
> {
    match dependency_steps(cap, c.crate_refs@, crates, c.crate_refs@.len() as int) {
        Err(f) => Err(f),
        Ok(a) => match split_steps(1, "feature"@, cap, c.feature_refs@, c.feature_refs@.len() as int) {
            Err(f) => Err(f),
            Ok(b) => match split_steps(3, "example"@, cap, c.example_refs@, c.example_refs@.len() as int) {
                Err(f) => Err(f),
                Ok(d) => Ok(
                    a + b + plain_steps(2, cap, c.symbol_refs@) + d + plain_steps(4, cap, c.probe_refs@)
                        + plain_steps(5, cap, c.crate_refs@),
                ),
            },
        },
    }
}

/// The steps of the first `n` capabilities of the prerequisite order, or the
/// first failure: a capability the catalog lacks, or a failure of its record.
pub open spec fn plan_steps_upto(
    order: Seq<Seq<char>>,
    caps: Seq<CapabilityRefs>,
    crates: Seq<CrateVersion>,
    n: int,
) -> Result<Seq<(int, Seq<char>, Seq<char>, Seq<char>)>, (int, Seq<char>)>
    decreases n,
{
    if n <= 0 {
        Ok(seq![])
    } else {
        match plan_steps_upto(order, caps, crates, n - 1) {
            Err(f) => Err(f),
            Ok(s) => match capability_index(caps, order[n - 1], caps.len() as int) {
                None => Err((0, "candidate path references unknown capability `"@ + order[n - 1] + "`"@)),
                Some(k) => match capability_steps(order[n - 1], caps[k], crates) {
                    Err(f) => Err(f),
                    Ok(t) => Ok(s + t),
                },
            },
        }
    }
}

proof fn lemma_dependency_failure_stays(
    cap: Seq<char>,
    refs: Seq<String>,
    crates: Seq<CrateVersion>,
    i: int,
    n: int,
)
    requires
        0 <= i <= n,
        dependency_steps(cap, refs, crates, i) is Err,
    ensures
        dependency_steps(cap, refs, crates, n) == dependency_steps(cap, refs, crates, i),
    decreases n - i,
{
    if n > i {
        lemma_dependency_failure_stays(cap, refs, crates, i, n - 1);
    }
}

proof fn lemma_split_failure_stays(tag: int, kind: Seq<char>, cap: Seq<char>, refs: Seq<String>, i: int, n: int)
    requires
        0 <= i <= n,
        split_steps(tag, kind, cap, refs, i) is Err,
    ensures
        split_steps(tag, kind, cap, refs, n) == split_steps(tag, kind, cap, refs, i),
    decreases n - i,
{
    if n > i {
        lemma_split_failure_stays(tag, kind, cap, refs, i, n - 1);
    }
}

proof fn lemma_plan_failure_stays(
    order: Seq<Seq<char>>,
    caps: Seq<CapabilityRefs>,
    crates: Seq<CrateVersion>,
    i: int,
    n: int,
)
    requires
        0 <= i <= n,
        plan_steps_upto(order, caps, crates, i) is Err,
    ensures
        plan_steps_upto(order, caps, crates, n) == plan_steps_upto(order, caps, crates, i),
    decreases n - i,
{
    if n > i {
        lemma_plan_failure_stays(order, caps, crates, i, n - 1);
    }
}

fn push_step(out: &mut Vec<PlanStep>, step: PlanStep)
    ensures
        step_views(final(out)@) == step_views(old(out)@).push(step_view(step)),
{
    let ghost before = out@;
    out.push(step);
    assert(step_views(out@) =~= step_views(before).push(step_view(step)));
}

/// Appends the dependency steps of capability `cap`.
fn push_dependency_steps(
    out: &mut Vec<PlanStep>,
    cap: &str,
    refs: &Vec<String>,
    crates: &Vec<CrateVersion>,
) -> (r: DiscoveryResult<()>)
    ensures
        dependency_steps(cap@, refs@, crates@, refs@.len() as int) matches Ok(s) ==> (r is Ok
            && step_views(final(out)@) == step_views(old(out)@) + s),
        dependency_steps(cap@, refs@, crates@, refs@.len() as int) matches Err(f) ==> (r matches Err(e)
            && failure_is(e, f)),
{
    let ghost start = step_views(out@);
    let mut i: usize = 0;
    while i < refs.len()
        invariant
            i <= refs@.len(),
            dependency_steps(cap@, refs@, crates@, i as int) matches Ok(s) && step_views(out@) == start + s,
        decreases refs@.len() - i,
    {
        let ghost prev = step_views(out@);
        proof {
            lemma_crate_index_bounds(crates@, refs@[i as int]@, crates@.len() as int);
        }
        match find_crate_version(crates, refs[i].as_str()) {
            None => {
                let mut m = String::from_str("capability `");
                m.append(cap);
                m.append("` references unknown crate `");
                m.append(refs[i].as_str());
                m.append("`");
                proof {
                    lemma_dependency_failure_stays(cap@, refs@, crates@, i + 1, refs@.len() as int);
                }
                return Err(DiscoveryError::CatalogCorruption(m));
            },
            Some(version) => {
                push_step(
                    out,
                    PlanStep::Dependency {
                        capability_id: String::from_str(cap),
                        package: refs[i].clone(),
                        version,
                    },
                );
                assert(step_views(out@) =~= start + dependency_steps(cap@, refs@, crates@, i + 1)->Ok_0)
                    by {
                    assert(prev =~= start + dependency_steps(cap@, refs@, crates@, i as int)->Ok_0);
                }
            },
        }
        i += 1;
    }
    Ok(())
}

/// Appends the steps with tag `tag` for the `package:item` references of
/// capability `cap` (features with tag 1, examples with tag 3).
fn push_split_steps(
    out: &mut Vec<PlanStep>,
    tag: u8,
    kind: &str,
    cap: &str,
    refs: &Vec<String>,
) -> (r: DiscoveryResult<()>)
    requires
        tag == 1 || tag == 3,
    ensures
        split_steps(tag as int, kind@, cap@, refs@, refs@.len() as int) matches Ok(s) ==> (r is Ok
            && step_views(final(out)@) == step_views(old(out)@) + s),
        split_steps(tag as int, kind@, cap@, refs@, refs@.len() as int) matches Err(f) ==> (r matches Err(e)
            && failure_is(e, f)),
{
    let ghost start = step_views(out@);
    let mut i: usize = 0;
    while i < refs.len()
        invariant
            i <= refs@.len(),
            tag == 1 || tag == 3,
            split_steps(tag as int, kind@, cap@, refs@, i as int) matches Ok(s) && step_views(out@) == start + s,
        decreases refs@.len() - i,
    {
        let ghost prev = step_views(out@);
        match split_catalog_reference(refs[i].as_str(), kind) {
            Err(e) => {
                proof {
                    lemma_split_failure_stays(tag as int, kind@, cap@, refs@, i + 1, refs@.len() as int);
                }
                return Err(e);
            },
            Ok((package, item)) => {
                let step = if tag == 1 {
                    PlanStep::Feature { capability_id: String::from_str(cap), package, feature: item }
                } else {
                    PlanStep::Example { capability_id: String::from_str(cap), package, example: item }
                };
                push_step(out, step);
                assert(step_views(out@) =~= start + split_steps(tag as int, kind@, cap@, refs@, i + 1)->Ok_0)
                    by {
                    assert(prev =~= start + split_steps(tag as int, kind@, cap@, refs@, i as int)->Ok_0);
                }
            },
        }
        i += 1;
    }
    Ok(())
}

/// Appends one step with tag `tag` (symbols 2, probes 4, tests 5) naming each
/// of `refs`, for capability `cap`.
fn push_plain_steps(out: &mut Vec<PlanStep>, tag: u8, cap: &str, refs: &Vec<String>)
    requires
        tag == 2 || tag == 4 || tag == 5,
    ensures
        step_views(final(out)@) == step_views(old(out)@) + plain_steps(tag as int, cap@, refs@),
{
    let ghost start = step_views(out@);
    let mut i: usize = 0;
    while i < refs.len()
        invariant
            i <= refs@.len(),
            tag == 2 || tag == 4 || tag == 5,
            step_views(out@) == start + plain_steps(tag as int, cap@, refs@.take(i as int)),
        decreases refs@.len() - i,
    {
        let ghost prev = step_views(out@);
        let step = if tag == 2 {
            PlanStep::Symbol { capability_id: String::from_str(cap), path: refs[i].clone() }
        } else if tag == 4 {
            PlanStep::Probe { capability_id: String::from_str(cap), probe_id: refs[i].clone() }
        } else {
            PlanStep::Test {
                capability_id: String::from_str(cap),
                package: refs[i].clone(),
                target: PlanTestTarget::AllTargets,
            }
        };
        push_step(out, step);
        assert(plain_steps(tag as int, cap@, refs@.take(i + 1)) =~= plain_steps(
            tag as int,
            cap@,
            refs@.take(i as int),
        ).push((tag as int, cap@, refs@[i as int]@, Seq::<char>::empty())));
        assert(step_views(out@) =~= start + plain_steps(tag as int, cap@, refs@.take(i + 1)));
        i += 1;
    }
    assert(refs@.take(refs@.len() as int) =~= refs@);
}

/// Appends the steps capability record `c` calls for, for capability `cap`.
fn push_capability_steps(
    out: &mut Vec<PlanStep>,
    cap: &str,
    c: &CapabilityRefs,
    crates: &Vec<CrateVersion>,
) -> (r: DiscoveryResult<()>)
    ensures
        capability_steps(cap@, *c, crates@) matches Ok(s) ==> (r is Ok && step_views(final(out)@)
            == step_views(old(out)@) + s),
        capability_steps(cap@, *c, crates@) matches Err(f) ==> (r matches Err(e) && failure_is(e, f)),
{
    let ghost start = step_views(out@);
    match push_dependency_steps(out, cap, &c.crate_refs, crates) {
        Err(e) => return Err(e),
        Ok(()) => {},
    }
    match push_split_steps(out, 1, "feature", cap, &c.feature_refs) {
        Err(e) => return Err(e),
        Ok(()) => {},
    }
    push_plain_steps(out, 2, cap, &c.symbol_refs);
    match push_split_steps(out, 3, "example", cap, &c.example_refs) {
        Err(e) => return Err(e),
        Ok(()) => {},
    }
    push_plain_steps(out, 4, cap, &c.probe_refs);
    push_plain_steps(out, 5, cap, &c.crate_refs);
    assert(step_views(out@) =~= start + capability_steps(cap@, *c, crates@)->Ok_0);
    Ok(())
}

/// The static steps of a plan whose capabilities come in prerequisite order
/// `order`, drawn from the catalog's capability and crate records.
///
/// # Errors
///
/// Returns [`DiscoveryError::InvalidInput`] for a capability the catalog
/// lacks, and [`DiscoveryError::CatalogCorruption`] for a crate the catalog
/// lacks or a malformed feature or example reference; the first such
/// problem in step order is reported.
pub fn plan_steps(order: &Vec<String>, caps: &Vec<CapabilityRefs>, crates: &Vec<CrateVersion>) -> (r:
    DiscoveryResult<Vec<PlanStep>>)
    ensures
        plan_steps_upto(views(order@), caps@, crates@, order@.len() as int) matches Ok(s) ==> (r matches Ok(
            v,
        ) && step_views(v@) == s),
        plan_steps_upto(views(order@), caps@, crates@, order@.len() as int) matches Err(f) ==> (r matches Err(
            e,
        ) && failure_is(e, f)),
{
    let mut out: Vec<PlanStep> = Vec::new();
    let mut i: usize = 0;
    assert(step_views(out@) =~= Seq::empty());
    while i < order.len()
        invariant
            i <= order@.len(),
            plan_steps_upto(views(order@), caps@, crates@, i as int) matches Ok(s) && step_views(out@) == s,
        decreases order@.len() - i,
    {
        proof {
            lemma_capability_index_bounds(caps@, order@[i as int]@, caps@.len() as int);
            assert(views(order@)[i as int] == order@[i as int]@);
        }
        match find_capability(caps, order[i].as_str()) {
            None => {
                let mut m = String::from_str("candidate path references unknown capability `");
                m.append(order[i].as_str());
                m.append("`");
                proof {
                    lemma_plan_failure_stays(views(order@), caps@, crates@, i + 1, order@.len() as int);
                }
                return Err(DiscoveryError::InvalidInput(m));
            },
            Some(k) => {
                match push_capability_steps(&mut out, order[i].as_str(), &caps[k], crates) {
                    Err(e) => {
                        proof {
                            lemma_plan_failure_stays(views(order@), caps@, crates@, i + 1, order@.len() as int);
                        }
                        return Err(e);
                    },
                    Ok(()) => {},
                }
            },
        }
        i += 1;
    }
    Ok(out)
}

/// The verified part of plan generation for a ranked candidate: the goal is
/// checked, the candidate's path gives the prerequisite order, and the
/// catalog records give the steps. Returns the prerequisite order and the
/// steps.
///
/// # Errors
///
/// Returns [`DiscoveryError::InvalidInput`] for a blank goal statement or
/// constraint, an unusable path, or a capability the catalog lacks, and
/// [`DiscoveryError::CatalogCorruption`] for a crate the catalog lacks or a
/// malformed reference, checked in that order.
pub fn draft_plan(
    goal: &GoalSpec,
    capability_id: &str,
    target: &str,
    path: &Vec<String>,
    caps: &Vec<CapabilityRefs>,
    crates: &Vec<CrateVersion>,
) -> (r: DiscoveryResult<(Vec<String>, Vec<PlanStep>)>)
    ensures
        goal_error(*goal) matches Some(msg) ==> (r matches Err(DiscoveryError::InvalidInput(m)) && m@
            == msg),
        goal_error(*goal) is None && !path_usable(capability_id@, target@, views(path@)) ==> (r matches Err(
            DiscoveryError::InvalidInput(m),
        ) && m@ == "ranked candidate requires a nonempty path ending at its capability ID"@),
        goal_error(*goal) is None && path_usable(capability_id@, target@, views(path@)) ==> {
            let order = first_occurrences(views(path@));
            &&& plan_steps_upto(order, caps@, crates@, order.len() as int) matches Ok(s) ==> (r matches Ok(
                (o, steps),
            ) && views(o@) == order && step_views(steps@) == s)
            &&& plan_steps_upto(order, caps@, crates@, order.len() as int) matches Err(f) ==> (r matches Err(
                e,
            ) && failure_is(e, f))
        },
{
    match validate_goal(goal) {
        Err(e) => return Err(e),
        Ok(()) => {},
    }
    let order = match prerequisite_order(capability_id, target, path) {
        Err(e) => return Err(e),
        Ok(o) => o,
    };
    match plan_steps(&order, caps, crates) {
        Err(e) => Err(e),
        Ok(steps) => Ok((order, steps)),
    }
}

} // verus!
