//! Ranking vocabulary: signal kinds, blocked candidates, and provenance.

use vstd::prelude::*;

verus! {

/// A typed project signal that adjusts one candidate's ranking components.
#[derive(Clone, Copy, Debug, PartialEq, Eq, Structural)]
pub enum RankingSignalKind {
    /// Evidence that the capability applies to the project goal.
    Applicability,
    /// Additional typed project evidence.
    Evidence,
    /// Explicit platform compatibility evidence.
    Platform,
    /// Additional bounded verification evidence.
    Verification,
    /// Additional uncertainty or risk.
    Risk,
}

/// A capability that cannot be recommended, with its reasons.
#[derive(Debug, PartialEq, Eq)]
pub struct BlockedCandidate {
    /// Stable catalog capability ID.
    pub capability_id: String,
    /// Deterministically sorted blocking reasons.
    pub reasons: Vec<String>,
}

/// Provenance for deterministic Pareto and preferred-candidate selection.
#[derive(Debug, PartialEq, Eq)]
pub struct RankingProvenance {
    /// Optimization implementation used to retain non-dominated alternatives.
    pub optimizer: String,
    /// Canonical objective order.
    pub objective_order: Vec<String>,
    /// Whether every objective is minimized.
    pub all_minimization: bool,
    /// Stable preferred-candidate tie-break order.
    pub preferred_tie_break: Vec<String>,
    /// Deterministic fallback used if the optimizer produced no front.
    pub deterministic_fallback: Option<String>,
}

/// Ranks expanded graph paths; ranking itself is floating-point work done
/// outside this library.
#[derive(Clone, Copy, Debug, Default, PartialEq, Eq)]
pub struct CandidateRanker {
    private: (),
}

} // verus!
