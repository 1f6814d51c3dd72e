//! Configuration and outcome of the throttle.

use vstd::prelude::*;

verus! {

/// Thresholds of the throttle.
#[derive(Debug, Clone, Copy, PartialEq, Eq, Structural)]
pub struct ThrottleConfig {
    /// Growth in non-thinking bytes that calls for another injection.
    pub growth_bytes: u64,
    /// Upper end of the dead zone, in percent of the context.
    pub recency_threshold: u64,
    /// Lower end of the dead zone, in percent of the context.
    pub primacy_threshold: u64,
    /// Size of the context, in bytes, up to which the position is not checked.
    pub min_context_bytes: u64,
}

impl ThrottleConfig {
    /// Growth of 105,000 bytes, a dead zone from 15 to 85 percent, and no check
    /// of the position up to 21,000 bytes.
    pub open spec fn standard() -> ThrottleConfig {
        ThrottleConfig {
            growth_bytes: 105_000,
            recency_threshold: 85,
            primacy_threshold: 15,
            min_context_bytes: 21_000,
        }
    }
}

impl Default for ThrottleConfig {
    fn default() -> (config: Self)
        ensures
            config == ThrottleConfig::standard(),
    {
        ThrottleConfig {
            growth_bytes: 105_000,
            recency_threshold: 85,
            primacy_threshold: 15,
            min_context_bytes: 21_000,
        }
    }
}

/// Why context is to be injected.
#[derive(Debug, Clone, Copy, PartialEq, Eq, Structural)]
pub enum InjectReason {
    /// The hook has not injected yet.
    FirstRun,
    /// The context has shrunk since the last injection.
    CompactionDetected,
    /// The context has grown by `delta`, which is more than `threshold`.
    GrowthExceeded { delta: u64, threshold: u64 },
    /// The last injection sits in the dead zone, at `position_pct` percent of
    /// the context, rounded down.
    DeadZone { position_pct: u64 },
}

/// What a hook is to do.
#[derive(Debug, Clone, Copy, PartialEq, Eq, Structural)]
pub enum ThrottleDecision {
    Inject(InjectReason),
    Skip,
}

} // verus!
