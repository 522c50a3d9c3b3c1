//! Shared protocol value types used by inspection and planning.

use vstd::prelude::*;

verus! {

/// A compatibility verdict with its supporting reasons.
#[derive(Debug, PartialEq, Eq)]
pub struct Compatibility {
    /// Verdict status (`compatible`, `applicable`, `unknown_version`).
    pub status: String,
    /// Human-readable reasons, sorted and deduplicated.
    pub reasons: Vec<String>,
}

/// Identity of the embedded capability catalog.
#[derive(Debug, PartialEq, Eq)]
pub struct CatalogIdentity {
    /// Catalog version.
    pub version: String,
    /// Catalog content hash.
    pub hash: String,
}

/// Saved-probe replay hashes.
#[derive(Debug, PartialEq, Eq)]
pub struct ProbeReplayHash {
    /// Probe identifier.
    pub probe_id: String,
    /// Probe input hash.
    pub input_hash: String,
    /// Probe result hash.
    pub result_hash: String,
}

impl View for ProbeReplayHash {
    type V = (Seq<char>, Seq<char>, Seq<char>);

    open spec fn view(&self) -> Self::V {
        (self.probe_id@, self.input_hash@, self.result_hash@)
    }
}

/// Replay compatibility of a candidate plan.
#[derive(Debug, PartialEq, Eq)]
pub struct PlanCompatibility {
    /// Catalog the plan was generated against.
    pub catalog: CatalogIdentity,
    /// Project hash the plan was generated for.
    pub project_hash: String,
    /// Canonical goal input hash.
    pub input_hash: String,
    /// Saved-probe replay hashes, sorted and deduplicated.
    pub probe_results: Vec<ProbeReplayHash>,
}

/// Whether a result can be replayed, and which hashes must match.
#[derive(Debug, PartialEq, Eq)]
pub struct ReplayMetadata {
    /// Whether the result is replayable.
    pub replayable: bool,
    /// Names of the hash fields a replay must match.
    pub required_hashes: Vec<String>,
    /// Reasons a result is not replayable.
    pub reasons: Vec<String>,
}

/// The shared versioned envelope around a command result.
#[derive(Debug, PartialEq, Eq)]
pub struct Envelope<T> {
    /// The command result.
    pub data: T,
    /// The catalog the result was produced against.
    pub catalog: CatalogIdentity,
    /// Aggregate compatibility verdict.
    pub compatibility: Compatibility,
    /// Replay requirements.
    pub replay: ReplayMetadata,
    /// The project hash the result is bound to, when a project was inspected.
    pub project_hash: Option<String>,
    /// Non-fatal warnings.
    pub warnings: Vec<String>,
}

impl<T> Envelope<T> {
    /// An envelope with no project binding and no warnings.
    pub fn new(data: T, catalog: CatalogIdentity, compatibility: Compatibility, replay: ReplayMetadata) -> (r:
        Self)
        ensures
            r.data == data,
            r.catalog == catalog,
            r.compatibility == compatibility,
            r.replay == replay,
            r.project_hash.is_none(),
            r.warnings@.len() == 0,
    {
        Envelope { data, catalog, compatibility, replay, project_hash: None, warnings: Vec::new() }
    }
}

/// A planning goal: a statement and its constraints.
#[derive(Debug, PartialEq, Eq)]
pub struct GoalSpec {
    /// What the plan should achieve.
    pub statement: String,
    /// Additional constraints on the plan.
    pub constraints: Vec<String>,
}

/// Which tests a plan's test step runs.
#[derive(Clone, Copy, Debug, PartialEq, Eq, PartialOrd, Ord, Structural)]
pub enum PlanTestTarget {
    /// All Cargo targets of the package.
    AllTargets,
    /// The npm package's tests.
    NpmPackage,
}

/// One static step of a candidate plan.
#[derive(Debug, PartialEq, Eq, PartialOrd, Ord)]
pub enum PlanStep {
    /// Add a dependency on a catalog crate.
    Dependency {
        /// Capability that needs the step.
        capability_id: String,
        /// Package name.
        package: String,
        /// Catalog version.
        version: String,
    },
    /// Enable a crate feature.
    Feature {
        /// Capability that needs the step.
        capability_id: String,
        /// Package name.
        package: String,
        /// Feature name.
        feature: String,
    },
    /// Use a symbol.
    Symbol {
        /// Capability that needs the step.
        capability_id: String,
        /// Symbol path.
        path: String,
    },
    /// Consult an example.
    Example {
        /// Capability that needs the step.
        capability_id: String,
        /// Package name.
        package: String,
        /// Example name.
        example: String,
    },
    /// Run a bounded probe.
    Probe {
        /// Capability that needs the step.
        capability_id: String,
        /// Probe identifier.
        probe_id: String,
    },
    /// Run package tests.
    Test {
        /// Capability that needs the step.
        capability_id: String,
        /// Package name.
        package: String,
        /// Which tests.
        target: PlanTestTarget,
    },
}

/// One retained normalization transition.
#[derive(Debug, PartialEq, Eq)]
pub struct NormalizationTrace {
    /// Steps before the transition.
    pub before: Vec<PlanStep>,
    /// Steps after the transition.
    pub after: Vec<PlanStep>,
}

/// Normalization record of a plan.
#[derive(Debug, PartialEq, Eq)]
pub struct PlanNormalization {
    /// Whether the steps are in canonical order.
    pub normalized: bool,
    /// Rewrite limit in force.
    pub max_rewrites: usize,
    /// Retained transitions.
    pub trace: Vec<NormalizationTrace>,
}

/// A replayable candidate plan.
#[derive(Debug, PartialEq, Eq)]
pub struct CandidatePlan {
    /// The capability the plan integrates.
    pub capability_id: String,
    /// Capabilities in prerequisite order, ending at `capability_id`.
    pub prerequisite_order: Vec<String>,
    /// Static plan steps.
    pub steps: Vec<PlanStep>,
    /// Replay compatibility hashes.
    pub compatibility: PlanCompatibility,
    /// Normalization record.
    pub normalization: PlanNormalization,
    /// Hash of the normalized plan.
    pub plan_hash: String,
}

} // verus!
