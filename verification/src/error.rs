//! Typed failures shared by inspection, framing, and planning.

use vstd::prelude::*;
use vstd::string::StringExecFns;

verus! {

/// A failure reported by discovery operations.
#[derive(Debug, PartialEq, Eq)]
pub enum DiscoveryError {
    /// The caller supplied an input outside the accepted domain.
    InvalidInput(String),
    /// A configured resource ceiling was reached.
    LimitExceeded(String),
    /// A project input could not be inspected safely.
    InspectionFailure(String),
    /// The embedded catalog failed validation.
    CatalogCorruption(String),
    /// An internal invariant or serialization step failed.
    Internal(String),
    /// Writing or flushing an output stream failed.
    Io(String),
    /// A replay-required hash no longer matches the current input.
    ReplayDrift {
        /// Name of the first mismatched field.
        field: String,
        /// Value recorded when the plan was generated.
        expected: String,
        /// Value observed now.
        actual: String,
    },
}

/// Result alias for discovery operations.
pub type DiscoveryResult<T> = Result<T, DiscoveryError>;

impl DiscoveryError {
    /// Human-readable rendering of the error.
    pub fn message(&self) -> (r: String)
        ensures
            r@ == self.spec_message(),
    {
        match self {
            DiscoveryError::InvalidInput(m) => m.clone(),
            DiscoveryError::LimitExceeded(m) => m.clone(),
            DiscoveryError::InspectionFailure(m) => m.clone(),
            DiscoveryError::CatalogCorruption(m) => m.clone(),
            DiscoveryError::Internal(m) => m.clone(),
            DiscoveryError::Io(m) => m.clone(),
            DiscoveryError::ReplayDrift { field, .. } => {
                let mut m = String::from_str("replay drift on field ");
                m.append(field.as_str());
                m
            },
        }
    }

    /// The text that [`DiscoveryError::message`] returns.
    pub open spec fn spec_message(&self) -> Seq<char> {
        match self {
            DiscoveryError::InvalidInput(m) => m@,
            DiscoveryError::LimitExceeded(m) => m@,
            DiscoveryError::InspectionFailure(m) => m@,
            DiscoveryError::CatalogCorruption(m) => m@,
            DiscoveryError::Internal(m) => m@,
            DiscoveryError::Io(m) => m@,
            DiscoveryError::ReplayDrift { field, .. } => "replay drift on field "@ + field@,
        }
    }
}

} // verus!
