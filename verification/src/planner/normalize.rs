//! Resource limits for deterministic plan normalization.

use vstd::prelude::*;
use vstd::string::StringExecFns;

use crate::error::{DiscoveryError, DiscoveryResult};
use crate::text::{decimal, u64_decimal};

verus! {

/// Hard ceiling for plan steps accepted by normalization.
pub const MAX_ALLOWED_PLAN_STEPS: usize = 64;

/// Hard ceiling for retained rewrite transitions.
pub const MAX_ALLOWED_REWRITES: usize = 4096;

/// Resource limits for deterministic plan normalization.
#[derive(Clone, Copy, Debug, PartialEq, Eq, Structural)]
pub struct NormalizationLimits {
    /// Maximum input plan steps accepted by the normalizer.
    pub max_plan_steps: usize,
    /// Maximum rewrites retained in the trace.
    pub max_rewrites: usize,
}

/// Which error, if any, validation of normalization limits reports.
pub open spec fn normalization_limits_error(limits: NormalizationLimits) -> Option<Seq<char>> {
    if limits.max_plan_steps == 0 || limits.max_rewrites == 0 {
        Some("plan normalization limits must be greater than zero"@)
    } else if limits.max_plan_steps > MAX_ALLOWED_PLAN_STEPS {
        Some(
            "plan normalization max_plan_steps "@ + decimal(limits.max_plan_steps as nat)
                + " exceeds hard ceiling "@ + decimal(MAX_ALLOWED_PLAN_STEPS as nat),
        )
    } else if limits.max_rewrites > MAX_ALLOWED_REWRITES {
        Some(
            "plan normalization max_rewrites "@ + decimal(limits.max_rewrites as nat)
                + " exceeds hard ceiling "@ + decimal(MAX_ALLOWED_REWRITES as nat),
        )
    } else {
        None
    }
}

/// The message `"<a><value> exceeds hard ceiling <ceiling>"`.
fn ceiling_message(prefix: &str, value: usize, ceiling: usize) -> (r: String)
    ensures
        r@ == prefix@ + decimal(value as nat) + " exceeds hard ceiling "@ + decimal(ceiling as nat),
{
    let mut m = String::from_str(prefix);
    let a = u64_decimal(value as u64);
    m.append(a.as_str());
    m.append(" exceeds hard ceiling ");
    let b = u64_decimal(ceiling as u64);
    m.append(b.as_str());
    m
}

impl NormalizationLimits {
    /// Checks that both limits are nonzero and within the hard ceilings.
    ///
    /// # Errors
    ///
    /// [`DiscoveryError::InvalidInput`] for a zero limit, and
    /// [`DiscoveryError::LimitExceeded`] for a limit above its ceiling.
    pub fn validate(self) -> (r: DiscoveryResult<()>)
        ensures
            normalization_limits_error(self) is None <==> r is Ok,
            (self.max_plan_steps == 0 || self.max_rewrites == 0) ==> (r matches Err(
                DiscoveryError::InvalidInput(m),
            ) && Some(m@) == normalization_limits_error(self)),
            !(self.max_plan_steps == 0 || self.max_rewrites == 0) && normalization_limits_error(
                self,
            ) is Some ==> (r matches Err(DiscoveryError::LimitExceeded(m)) && Some(m@)
                == normalization_limits_error(self)),
    {
        if self.max_plan_steps == 0 || self.max_rewrites == 0 {
            return Err(
                DiscoveryError::InvalidInput(
                    String::from_str("plan normalization limits must be greater than zero"),
                ),
            );
        }
        if self.max_plan_steps > MAX_ALLOWED_PLAN_STEPS {
            return Err(
                DiscoveryError::LimitExceeded(
                    ceiling_message(
                        "plan normalization max_plan_steps ",
                        self.max_plan_steps,
                        MAX_ALLOWED_PLAN_STEPS,
                    ),
                ),
            );
        }
        if self.max_rewrites > MAX_ALLOWED_REWRITES {
            return Err(
                DiscoveryError::LimitExceeded(
                    ceiling_message(
                        "plan normalization max_rewrites ",
                        self.max_rewrites,
                        MAX_ALLOWED_REWRITES,
                    ),
                ),
            );
        }
        Ok(())
    }
}

impl Default for NormalizationLimits {
    fn default() -> (r: Self)
        ensures
            r.max_plan_steps == 64,
            r.max_rewrites == 4096,
    {
        NormalizationLimits { max_plan_steps: 64, max_rewrites: 4096 }
    }
}

/// Deterministic bounded plan normalizer.
#[derive(Clone, Copy, Debug, PartialEq, Eq, Structural)]
pub struct PlanNormalizer {
    limits: NormalizationLimits,
}

impl PlanNormalizer {
    /// The limits the normalizer was created with.
    pub closed spec fn spec_limits(&self) -> NormalizationLimits {
        self.limits
    }

    /// Creates a normalizer with explicit nonzero limits.
    ///
    /// # Errors
    ///
    /// Returns [`DiscoveryError::InvalidInput`] when either limit is zero and
    /// [`DiscoveryError::LimitExceeded`] when a fixed hard ceiling is exceeded.
    pub fn new(limits: NormalizationLimits) -> (r: DiscoveryResult<Self>)
        ensures
            normalization_limits_error(limits) is None ==> (r matches Ok(n) && n.spec_limits()
                == limits),
            normalization_limits_error(limits) matches Some(msg) ==> (r matches Err(e)
                && e.spec_message() == msg && ((limits.max_plan_steps == 0 || limits.max_rewrites == 0)
                ==> e is InvalidInput) && (!(limits.max_plan_steps == 0 || limits.max_rewrites == 0)
                ==> e is LimitExceeded)),
    {
        match limits.validate() {
            Ok(()) => Ok(PlanNormalizer { limits }),
            Err(e) => Err(e),
        }
    }
}

impl Default for PlanNormalizer {
    fn default() -> (r: Self)
        ensures
            r.spec_limits().max_plan_steps == 64,
            r.spec_limits().max_rewrites == 4096,
    {
        PlanNormalizer { limits: NormalizationLimits::default() }
    }
}

} // verus!
