//! Recall vocabulary and deterministic query tokenization.

use vstd::prelude::*;

verus! {

/// The candidate-generation path selected for a retrieved capability.
#[derive(Clone, Copy, Debug, PartialEq, Eq, Structural)]
pub enum RetrievalSource {
    /// Deterministic MAP-algebra recall met the configured confidence threshold.
    Holographic,
    /// Token overlap was used because holographic confidence was too low.
    LexicalFallback,
}

} // verus!
