//! Vocabulary of the battery health report.
//!
//! Capacity percentages and the degradation trend are computed in floating
//! point by the application; the hardware cycle count and the reasons a
//! trend stays undecided are plain values kept here.

use vstd::prelude::*;

verus! {

/// The hardware-provided cycle count, not an estimate from charge movement.
#[derive(Clone, Debug)]
pub struct HardwareCycleCount {
    /// Timestamp of the immutable sample carrying the count.
    pub recorded_at: String,
    /// Count reported by the battery hardware or provider.
    pub count: u64,
}

/// Why a daily trend cannot safely make a directional claim.
#[derive(Clone, Copy, Debug, PartialEq, Eq, Structural)]
pub enum TrendInsufficiency {
    /// Fewer than the minimum number of valid daily capacity observations existed.
    TooFewDailyObservations,
    /// The daily observations did not cover enough elapsed time.
    TooShortTimeSpan,
}

} // verus!
