//! Canonical step order of candidate plans and their structural checks:
//! steps are ordered by the rank of their capability in the prerequisite
//! order, then by the steps themselves (variant, then fields in order).

use vstd::prelude::*;
use vstd::string::StringExecFns;

use crate::error::{DiscoveryError, DiscoveryResult};
use crate::order::{char_lex_lt, str_lt};
use crate::protocol::{CandidatePlan, PlanStep, PlanTestTarget};
use crate::sortkey::{index_key, push_index, push_text_key, text_key};
use crate::text::{decimal, str_eq, string_of, u64_decimal};

verus! {

/// The capability a step serves.
pub open spec fn step_capability(s: PlanStep) -> Seq<char> {
    match s {
        PlanStep::Dependency { capability_id, .. } => capability_id@,
        PlanStep::Feature { capability_id, .. } => capability_id@,
        PlanStep::Symbol { capability_id, .. } => capability_id@,
        PlanStep::Example { capability_id, .. } => capability_id@,
        PlanStep::Probe { capability_id, .. } => capability_id@,
        PlanStep::Test { capability_id, .. } => capability_id@,
    }
}

/// The capability a step serves.
pub fn step_capability_id(s: &PlanStep) -> (r: &str)
    ensures
        r@ == step_capability(*s),
{
    match s {
        PlanStep::Dependency { capability_id, .. } => capability_id.as_str(),
        PlanStep::Feature { capability_id, .. } => capability_id.as_str(),
        PlanStep::Symbol { capability_id, .. } => capability_id.as_str(),
        PlanStep::Example { capability_id, .. } => capability_id.as_str(),
        PlanStep::Probe { capability_id, .. } => capability_id.as_str(),
        PlanStep::Test { capability_id, .. } => capability_id.as_str(),
    }
}

/// Order key of a step: its variant's place, then its fields in order.
pub open spec fn step_key(s: PlanStep) -> Seq<char> {
    match s {
        PlanStep::Dependency { capability_id, package, version } => index_key(0) + text_key(capability_id@)
            + text_key(package@) + text_key(version@),
        PlanStep::Feature { capability_id, package, feature } => index_key(1) + text_key(capability_id@) + text_key(
            package@,
        ) + text_key(feature@),
        PlanStep::Symbol { capability_id, path } => index_key(2) + text_key(capability_id@) + text_key(path@),
        PlanStep::Example { capability_id, package, example } => index_key(3) + text_key(capability_id@)
            + text_key(package@) + text_key(example@),
        PlanStep::Probe { capability_id, probe_id } => index_key(4) + text_key(capability_id@) + text_key(
            probe_id@,
        ),
        PlanStep::Test { capability_id, package, target } => index_key(5) + text_key(capability_id@) + text_key(
            package@,
        ) + index_key(
            match target {
                PlanTestTarget::AllTargets => 0,
                PlanTestTarget::NpmPackage => 1,
            },
        ),
    }
}

fn step_key_of(s: &PlanStep) -> (r: String)
    ensures
        r@ == step_key(*s),
{
    let mut out: Vec<char> = Vec::new();
    match s {
        PlanStep::Dependency { capability_id, package, version } => {
            push_index(&mut out, 0);
            push_text_key(&mut out, capability_id.as_str());
            push_text_key(&mut out, package.as_str());
            push_text_key(&mut out, version.as_str());
        },
        PlanStep::Feature { capability_id, package, feature } => {
            push_index(&mut out, 1);
            push_text_key(&mut out, capability_id.as_str());
            push_text_key(&mut out, package.as_str());
            push_text_key(&mut out, feature.as_str());
        },
        PlanStep::Symbol { capability_id, path } => {
            push_index(&mut out, 2);
            push_text_key(&mut out, capability_id.as_str());
            push_text_key(&mut out, path.as_str());
        },
        PlanStep::Example { capability_id, package, example } => {
            push_index(&mut out, 3);
            push_text_key(&mut out, capability_id.as_str());
            push_text_key(&mut out, package.as_str());
            push_text_key(&mut out, example.as_str());
        },
        PlanStep::Probe { capability_id, probe_id } => {
            push_index(&mut out, 4);
            push_text_key(&mut out, capability_id.as_str());
            push_text_key(&mut out, probe_id.as_str());
        },
        PlanStep::Test { capability_id, package, target } => {
            push_index(&mut out, 5);
            push_text_key(&mut out, capability_id.as_str());
            push_text_key(&mut out, package.as_str());
            match target {
                PlanTestTarget::AllTargets => push_index(&mut out, 0),
                PlanTestTarget::NpmPackage => push_index(&mut out, 1),
            }
        },
    }
    assert(out@ =~= step_key(*s));
    string_of(out.as_slice())
}

/// Rank of capability `c` in the prerequisite order: the index of its last
/// occurrence among the first `n` entries.
pub open spec fn rank_in(order: Seq<String>, c: Seq<char>, n: int) -> Option<int>
    decreases n,
{
    if n <= 0 || n > order.len() {
        None
    } else if order[n - 1]@ == c {
        Some(n - 1)
    } else {
        rank_in(order, c, n - 1)
    }
}

/// Rank of capability `c` in the prerequisite order, if it occurs.
pub open spec fn capability_rank_spec(order: Seq<String>, c: Seq<char>) -> Option<int> {
    rank_in(order, c, order.len() as int)
}

/// Rank of a capability in the prerequisite order (its last index).
pub fn capability_rank(order: &Vec<String>, c: &str) -> (r: Option<usize>)
    ensures
        match r {
            Some(k) => capability_rank_spec(order@, c@) == Some(k as int),
            None => capability_rank_spec(order@, c@) is None,
        },
{
    let mut n = order.len();
    while n > 0
        invariant
            n <= order@.len(),
            rank_in(order@, c@, n as int) == capability_rank_spec(order@, c@),
        decreases n,
    {
        if str_eq(order[n - 1].as_str(), c) {
            return Some(n - 1);
        }
        n -= 1;
    }
    None
}

/// The message for a step whose capability is not in the order.
pub open spec fn unknown_step_message(c: Seq<char>) -> Seq<char> {
    "unknown plan-step capability `"@ + c + "`"@
}

/// Whether step `l` comes strictly before step `r`: by capability rank,
/// then by the steps themselves; an error names a capability outside the
/// order.
pub open spec fn spec_step_before(l: PlanStep, r: PlanStep, order: Seq<String>) -> Result<bool, Seq<char>> {
    match capability_rank_spec(order, step_capability(l)) {
        None => Err(unknown_step_message(step_capability(l))),
        Some(a) => match capability_rank_spec(order, step_capability(r)) {
            None => Err(unknown_step_message(step_capability(r))),
            Some(b) => Ok(a < b || (a == b && char_lex_lt(step_key(l), step_key(r)))),
        },
    }
}

fn unknown_step(c: &str) -> (e: DiscoveryError)
    ensures
        e matches DiscoveryError::InvalidInput(m) && m@ == unknown_step_message(c@),
{
    let mut m = String::from_str("unknown plan-step capability `");
    m.append(c);
    m.append("`");
    DiscoveryError::InvalidInput(m)
}

/// Whether step `l` comes strictly before step `r` in canonical order.
///
/// # Errors
///
/// [`DiscoveryError::InvalidInput`] when a step's capability is not in
/// `order`.
pub fn step_before(l: &PlanStep, r: &PlanStep, order: &Vec<String>) -> (res: DiscoveryResult<bool>)
    ensures
        match spec_step_before(*l, *r, order@) {
            Ok(b) => res == Ok::<bool, DiscoveryError>(b),
            Err(m) => res matches Err(DiscoveryError::InvalidInput(x)) && x@ == m,
        },
{
    let lc = step_capability_id(l);
    let a = match capability_rank(order, lc) {
        Some(a) => a,
        None => {
            return Err(unknown_step(lc));
        },
    };
    let rc = step_capability_id(r);
    let b = match capability_rank(order, rc) {
        Some(b) => b,
        None => {
            return Err(unknown_step(rc));
        },
    };
    if a != b {
        return Ok(a < b);
    }
    let kl = step_key_of(l);
    let kr = step_key_of(r);
    Ok(str_lt(kl.as_str(), kr.as_str()))
}

/// Whether steps `i..` are in strictly increasing canonical order.
pub open spec fn canonical_from(steps: Seq<PlanStep>, order: Seq<String>, i: int) -> Result<bool, Seq<char>>
    decreases steps.len() - i,
{
    if i < 0 || i + 1 >= steps.len() {
        Ok(true)
    } else {
        match spec_step_before(steps[i], steps[i + 1], order) {
            Err(m) => Err(m),
            Ok(false) => Ok(false),
            Ok(true) => canonical_from(steps, order, i + 1),
        }
    }
}

/// Whether the steps are in strictly increasing canonical order.
///
/// # Errors
///
/// [`DiscoveryError::InvalidInput`] when a compared step's capability is not
/// in `capabilities`.
pub fn is_canonical(steps: &Vec<PlanStep>, capabilities: &Vec<String>) -> (res: DiscoveryResult<bool>)
    ensures
        match canonical_from(steps@, capabilities@, 0) {
            Ok(b) => res == Ok::<bool, DiscoveryError>(b),
            Err(m) => res matches Err(DiscoveryError::InvalidInput(x)) && x@ == m,
        },
{
    let mut i: usize = 0;
    while steps.len() > 0 && i < steps.len() - 1
        invariant
            i <= steps@.len(),
            canonical_from(steps@, capabilities@, i as int) == canonical_from(steps@, capabilities@, 0),
        decreases steps@.len() - i,
    {
        match step_before(&steps[i], &steps[i + 1], capabilities) {
            Ok(true) => {},
            Ok(false) => {
                return Ok(false);
            },
            Err(e) => {
                return Err(e);
            },
        }
        i += 1;
    }
    Ok(true)
}

/// Whether `s` holds no text twice.
pub open spec fn texts_distinct(s: Seq<String>) -> bool {
    forall|i: int, j: int| 0 <= i < j < s.len() ==> (#[trigger] s[i])@ != (#[trigger] s[j])@
}

/// Whether some step's capability is missing from the order.
pub open spec fn step_outside(steps: Seq<PlanStep>, order: Seq<String>) -> bool {
    exists|k: int| 0 <= k < steps.len() && capability_rank_spec(order, step_capability(#[trigger] steps[k])) is None
}

/// The message of a plan with too many steps.
pub open spec fn too_many_steps_message(n: nat, max: nat) -> Seq<char> {
    "plan steps "@ + decimal(n) + " exceed limit "@ + decimal(max)
}

/// What the structural checks of a plan report, as the error's kind
/// (`true` for a limit, `false` for invalid input) and message: too many
/// steps, a prerequisite order that does not end at the plan's capability,
/// one that repeats a capability, or a step whose capability is outside it.
pub open spec fn plan_structure_error(plan: CandidatePlan, max_steps: usize) -> Option<(bool, Seq<char>)> {
    let order = plan.prerequisite_order@;
    if plan.steps@.len() > max_steps {
        Some((true, too_many_steps_message(plan.steps@.len(), max_steps as nat)))
    } else if order.len() == 0 || order.last()@ != plan.capability_id@ {
        Some((false, "plan prerequisite order must end at the candidate capability"@))
    } else if !texts_distinct(order) {
        Some((false, "plan prerequisite order contains duplicate capability IDs"@))
    } else if step_outside(plan.steps@, order) {
        Some((false, "plan step references a capability outside prerequisite order"@))
    } else {
        None
    }
}

/// Checks the structure of a candidate plan: at most `max_steps` steps, a
/// prerequisite order that ends at the plan's capability and repeats none,
/// and only steps whose capability is in that order.
///
/// # Errors
///
/// [`DiscoveryError::LimitExceeded`] for too many steps, and
/// [`DiscoveryError::InvalidInput`] for the other faults, checked in that
/// order.
pub fn validate_plan_structure(plan: &CandidatePlan, max_steps: usize) -> (r: DiscoveryResult<()>)
    ensures
        match plan_structure_error(*plan, max_steps) {
            None => r is Ok,
            Some((true, m)) => r matches Err(DiscoveryError::LimitExceeded(x)) && x@ == m,
            Some((false, m)) => r matches Err(DiscoveryError::InvalidInput(x)) && x@ == m,
        },
{
    let n = plan.steps.len();
    if n > max_steps {
        let mut m = String::from_str("plan steps ");
        let a = u64_decimal(n as u64);
        m.append(a.as_str());
        m.append(" exceed limit ");
        let b = u64_decimal(max_steps as u64);
        m.append(b.as_str());
        return Err(DiscoveryError::LimitExceeded(m));
    }
    let order = &plan.prerequisite_order;
    let k = order.len();
    if k == 0 || !str_eq(order[k - 1].as_str(), plan.capability_id.as_str()) {
        return Err(
            DiscoveryError::InvalidInput(
                String::from_str("plan prerequisite order must end at the candidate capability"),
            ),
        );
    }
    let mut j: usize = 1;
    while j < k
        invariant
            k == order@.len(),
            1 <= j <= k,
            n == plan.steps@.len(),
            n <= max_steps,
            order == &plan.prerequisite_order,
            order@.last()@ == plan.capability_id@,
            forall|a: int, b: int| 0 <= a < b < j ==> (#[trigger] order@[a])@ != (#[trigger] order@[b])@,
        decreases k - j,
    {
        let mut i: usize = 0;
        while i < j
            invariant
                k == order@.len(),
                i <= j < k,
                n == plan.steps@.len(),
                n <= max_steps,
                order == &plan.prerequisite_order,
                order@.last()@ == plan.capability_id@,
                forall|a: int| 0 <= a < i ==> (#[trigger] order@[a])@ != order@[j as int]@,
            decreases j - i,
        {
            if str_eq(order[i].as_str(), order[j].as_str()) {
                proof {
                    assert(!texts_distinct(order@)) by {
                        assert(order@[i as int]@ == order@[j as int]@);
                    }
                }
                return Err(
                    DiscoveryError::InvalidInput(
                        String::from_str("plan prerequisite order contains duplicate capability IDs"),
                    ),
                );
            }
            i += 1;
        }
        j += 1;
    }
    assert(texts_distinct(order@));
    let mut q: usize = 0;
    while q < n
        invariant
            n == plan.steps@.len(),
            q <= n,
            n <= max_steps,
            k == order@.len(),
            k > 0,
            order == &plan.prerequisite_order,
            order@.last()@ == plan.capability_id@,
            texts_distinct(order@),
            forall|a: int| 0 <= a < q ==> capability_rank_spec(order@, step_capability(#[trigger] plan.steps@[a])) is Some,
        decreases n - q,
    {
        let c = step_capability_id(&plan.steps[q]);
        if capability_rank(order, c).is_none() {
            assert(step_outside(plan.steps@, order@)) by {
                assert(capability_rank_spec(order@, step_capability(plan.steps@[q as int])) is None);
            }
            return Err(
                DiscoveryError::InvalidInput(
                    String::from_str("plan step references a capability outside prerequisite order"),
                ),
            );
        }
        q += 1;
    }
    Ok(())
}

} // verus!
