//! Limits, constraints, and relation-kind rules of bounded capability-graph
//! expansion.

use vstd::prelude::*;
use vstd::string::StringExecFns;

use crate::error::{DiscoveryError, DiscoveryResult};
use crate::text::{decimal, str_eq, u64_decimal};

verus! {

/// Hard ceiling for retained capability nodes.
pub const MAX_ALLOWED_NODES: usize = 64;

/// Hard ceiling for semantic relationship traversal depth.
pub const MAX_ALLOWED_DEPTH: usize = 16;

/// Resource limits for capability-graph expansion.
#[derive(Clone, Copy, Debug, PartialEq, Eq, Structural)]
pub struct GraphLimits {
    /// Maximum number of distinct capability nodes retained.
    pub max_nodes: usize,
    /// Maximum number of relationship edges from any seed.
    pub max_depth: usize,
}

/// Which error, if any, validation of graph limits reports.
pub open spec fn graph_limits_error(limits: GraphLimits) -> Option<Seq<char>> {
    if limits.max_nodes == 0 {
        Some("capability graph max_nodes must be greater than zero"@)
    } else if limits.max_nodes > MAX_ALLOWED_NODES {
        Some(
            "capability graph max_nodes "@ + decimal(limits.max_nodes as nat) + " exceeds hard ceiling "@
                + decimal(MAX_ALLOWED_NODES as nat),
        )
    } else if limits.max_depth > MAX_ALLOWED_DEPTH {
        Some(
            "capability graph max_depth "@ + decimal(limits.max_depth as nat) + " exceeds hard ceiling "@
                + decimal(MAX_ALLOWED_DEPTH as nat),
        )
    } else {
        None
    }
}

/// The message `"<prefix><value> exceeds hard ceiling <ceiling>"`.
fn ceiling_message(prefix: &str, value: usize, ceiling: usize) -> (r: String)
    ensures
        r@ == prefix@ + decimal(value as nat) + " exceeds hard ceiling "@ + decimal(ceiling as nat),
{
    let mut m = String::from_str(prefix);
    let a = u64_decimal(value as u64);
    m.append(a.as_str());
    m.append(" exceeds hard ceiling ");
    let b = u64_decimal(ceiling as u64);
    m.append(b.as_str());
    m
}

impl GraphLimits {
    /// Checks the node limit is nonzero and both limits are within ceilings.
    ///
    /// # Errors
    ///
    /// [`DiscoveryError::InvalidInput`] for a zero node limit, and
    /// [`DiscoveryError::LimitExceeded`] for a limit above its ceiling.
    pub fn validate(self) -> (r: DiscoveryResult<()>)
        ensures
            graph_limits_error(self) is None <==> r is Ok,
            self.max_nodes == 0 ==> (r matches Err(DiscoveryError::InvalidInput(m)) && Some(m@)
                == graph_limits_error(self)),
            self.max_nodes != 0 && graph_limits_error(self) is Some ==> (r matches Err(
                DiscoveryError::LimitExceeded(m),
            ) && Some(m@) == graph_limits_error(self)),
    {
        if self.max_nodes == 0 {
            return Err(
                DiscoveryError::InvalidInput(
                    String::from_str("capability graph max_nodes must be greater than zero"),
                ),
            );
        }
        if self.max_nodes > MAX_ALLOWED_NODES {
            return Err(
                DiscoveryError::LimitExceeded(
                    ceiling_message("capability graph max_nodes ", self.max_nodes, MAX_ALLOWED_NODES),
                ),
            );
        }
        if self.max_depth > MAX_ALLOWED_DEPTH {
            return Err(
                DiscoveryError::LimitExceeded(
                    ceiling_message("capability graph max_depth ", self.max_depth, MAX_ALLOWED_DEPTH),
                ),
            );
        }
        Ok(())
    }
}

impl Default for GraphLimits {
    fn default() -> (r: Self)
        ensures
            r.max_nodes == 64,
            r.max_depth == 4,
    {
        GraphLimits { max_nodes: 64, max_depth: 4 }
    }
}

/// Project-derived constraints that invalidate capability candidates.
#[derive(Debug, PartialEq, Eq)]
pub struct GraphConstraints {
    /// Capability IDs that must not appear in expansion paths.
    pub blocked_capabilities: std::collections::BTreeSet<String>,
}

/// A resource boundary that truncated graph expansion.
#[derive(Clone, Copy, Debug, PartialEq, Eq, Structural)]
pub enum GraphLimit {
    /// The retained-node limit was reached.
    NodeCount {
        /// Configured maximum retained nodes.
        max: usize,
        /// Bounded attempted count (`max.saturating_add(1)`).
        observed: usize,
    },
    /// The traversal-depth limit left an unvisited frontier.
    Depth {
        /// Configured maximum edge depth.
        max: usize,
        /// Bounded attempted depth (`max + 1`).
        observed: usize,
    },
}

/// Completion state for bounded graph expansion.
#[derive(Debug, PartialEq, Eq)]
pub enum GraphExpansionState {
    /// Every reachable unblocked capability fit within the configured limits.
    Complete,
    /// Deterministic partial paths are available despite one or more limits.
    Partial {
        /// Limits reached, in stable node-count then depth order.
        limits: Vec<GraphLimit>,
    },
}

/// Relation kinds traversed in both directions.
pub open spec fn spec_is_reversible(kind: Seq<char>) -> bool {
    kind == "supports"@ || kind == "produces_input_for"@ || kind == "composes_with"@ || kind
        == "alternative_to"@
}

/// Relation kinds that invalidate rather than connect capabilities.
pub open spec fn spec_is_invalidating(kind: Seq<char>) -> bool {
    kind == "invalid_when"@ || kind == "invalidates"@ || kind == "conflicts_with"@ || kind
        == "incompatible_with"@
}

/// Whether a relation kind is also traversed in reverse.
pub fn is_reversible(kind: &str) -> (r: bool)
    ensures
        r == spec_is_reversible(kind@),
{
    str_eq(kind, "supports") || str_eq(kind, "produces_input_for") || str_eq(kind, "composes_with")
        || str_eq(kind, "alternative_to")
}

/// Whether a relation kind invalidates; such relations are never traversed.
pub fn is_invalidating(kind: &str) -> (r: bool)
    ensures
        r == spec_is_invalidating(kind@),
{
    str_eq(kind, "invalid_when") || str_eq(kind, "invalidates") || str_eq(kind, "conflicts_with")
        || str_eq(kind, "incompatible_with")
}

} // verus!
