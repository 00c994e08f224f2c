//! Vocabulary of the local anomaly report.
//!
//! The detectors compare floating-point observations and run in the
//! application; the kinds, their order and the stable response spellings
//! are fixed here.

use vstd::prelude::*;
use crate::runs::are_runs;
use crate::runs::key_views;
use crate::runs::maximal_runs;
use crate::storage::SampleState;

verus! {

/// A kind of evidence-backed historical anomaly.
#[derive(Clone, Copy, Debug, PartialEq, Eq, Structural)]
pub enum AnomalyKind {
    /// A discharging sample is far outside the observed draw baseline.
    UnusualPower,
    /// A contiguous discharge interval loses charge faster than its baseline.
    RapidDischarge,
    /// A contiguous charging run stops before a full state is observed.
    InterruptedCharge,
}

/// Why an anomaly report cannot yet be conclusive.
#[derive(Clone, Copy, Debug, PartialEq, Eq, Structural)]
pub enum InsufficiencyReason {
    /// The history has too few samples for a baseline.
    TooFewSamples,
    /// Samples exist, but required fields are unavailable.
    NoUsableMetrics,
    /// There are not enough comparable observations for a robust baseline.
    TooFewBaselineValues,
}

/// The stable response spelling of an insufficiency reason.
pub open spec fn insufficiency_name(reason: InsufficiencyReason) -> Seq<char> {
    match reason {
        InsufficiencyReason::TooFewSamples => "too-few-samples"@,
        InsufficiencyReason::NoUsableMetrics => "no-usable-metrics"@,
        InsufficiencyReason::TooFewBaselineValues => "too-few-baseline-values"@,
    }
}

impl InsufficiencyReason {
    /// Returns the stable response spelling.
    pub fn as_str(self) -> (r: &'static str)
        ensures
            r@ == insufficiency_name(self),
    {
        match self {
            InsufficiencyReason::TooFewSamples => "too-few-samples",
            InsufficiencyReason::NoUsableMetrics => "no-usable-metrics",
            InsufficiencyReason::TooFewBaselineValues => "too-few-baseline-values",
        }
    }
}

/// The response spelling of an anomaly kind.
pub open spec fn anomaly_kind_name(kind: AnomalyKind) -> Seq<char> {
    match kind {
        AnomalyKind::UnusualPower => "unusual-power"@,
        AnomalyKind::RapidDischarge => "rapid-discharge"@,
        AnomalyKind::InterruptedCharge => "interrupted-charge"@,
    }
}

impl AnomalyKind {
    /// Returns the response spelling.
    pub fn as_str(self) -> (r: &'static str)
        ensures
            r@ == anomaly_kind_name(self),
    {
        match self {
            AnomalyKind::UnusualPower => "unusual-power",
            AnomalyKind::RapidDischarge => "rapid-discharge",
            AnomalyKind::InterruptedCharge => "interrupted-charge",
        }
    }
}

/// The rank of a kind among anomalies recorded at the same instant.
pub open spec fn spec_kind_order(kind: AnomalyKind) -> u8 {
    match kind {
        AnomalyKind::UnusualPower => 0,
        AnomalyKind::RapidDischarge => 1,
        AnomalyKind::InterruptedCharge => 2,
    }
}

/// The rank of a kind among anomalies recorded at the same instant: power
/// outliers, then rapid discharges, then interrupted charges.
pub fn kind_order(kind: AnomalyKind) -> (r: u8)
    ensures
        r == spec_kind_order(kind),
{
    match kind {
        AnomalyKind::UnusualPower => 0,
        AnomalyKind::RapidDischarge => 1,
        AnomalyKind::InterruptedCharge => 2,
    }
}

/// Splits a history timeline into the stretches a detector may compare:
/// `timeline[i]` is the battery of the sample at position `i`, or `None` for
/// a gap. Each stretch is a maximal run of consecutive samples of one
/// battery, so that no stretch spans a gap or mixes two batteries.
pub fn segments(timeline: &[Option<String>]) -> (r: Vec<(usize, usize)>)
    ensures
        are_runs(key_views(timeline@), r@),
{
    maximal_runs(timeline)
}

/// The fewest comparable observations a baseline detector compares against.
pub const MIN_BASELINE_VALUES: usize = 5;

/// The fewest recorded samples a report needs before any detector runs.
pub const MIN_OBSERVED_SAMPLES: usize = 2;

/// The fewest contiguous charging samples before a stop counts as an
/// interrupted charge.
pub const MIN_INTERRUPTED_CHARGE_SAMPLES: usize = 3;

/// The charging-run length from which an interrupted charge is reported
/// with high confidence.
pub const HIGH_CONFIDENCE_CHARGE_SAMPLES: usize = 6;

/// Why a report with these counts is inconclusive, or `None` when a
/// detector has enough evidence: too few samples; else no usable metric at
/// all; else too few comparable observations for every baseline, unless an
/// interrupted charge was observed.
pub open spec fn spec_report_insufficiency(
    observed_samples: nat,
    power_samples: nat,
    discharge_intervals: nat,
    interrupted_charges: nat,
) -> Option<InsufficiencyReason> {
    if observed_samples < MIN_OBSERVED_SAMPLES {
        Some(InsufficiencyReason::TooFewSamples)
    } else if power_samples >= MIN_BASELINE_VALUES || discharge_intervals >= MIN_BASELINE_VALUES
        || interrupted_charges > 0 {
        None
    } else if power_samples == 0 && discharge_intervals == 0 {
        Some(InsufficiencyReason::NoUsableMetrics)
    } else {
        Some(InsufficiencyReason::TooFewBaselineValues)
    }
}

/// Why an anomaly report with these observation counts is inconclusive, or
/// `None` when it is available.
pub fn report_insufficiency(
    observed_samples: usize,
    power_samples: usize,
    discharge_intervals: usize,
    interrupted_charges: usize,
) -> (r: Option<InsufficiencyReason>)
    ensures
        r == spec_report_insufficiency(
            observed_samples as nat,
            power_samples as nat,
            discharge_intervals as nat,
            interrupted_charges as nat,
        ),
{
    if observed_samples < MIN_OBSERVED_SAMPLES {
        Some(InsufficiencyReason::TooFewSamples)
    } else if power_samples >= MIN_BASELINE_VALUES || discharge_intervals >= MIN_BASELINE_VALUES
        || interrupted_charges > 0 {
        None
    } else if power_samples == 0 && discharge_intervals == 0 {
        Some(InsufficiencyReason::NoUsableMetrics)
    } else {
        Some(InsufficiencyReason::TooFewBaselineValues)
    }
}

/// The number of consecutive charging samples that end at position `end`
/// (exclusive) of `states`.
pub open spec fn charging_run_before(states: Seq<SampleState>, end: int) -> nat
    decreases end,
{
    if end <= 0 || states[end - 1] != SampleState::Charging {
        0
    } else {
        1 + charging_run_before(states, end - 1)
    }
}

/// The length of the charging run that stops between positions `index` and
/// `index + 1` of a contiguous stretch, when that stop counts as an
/// interrupted charge: the sample at `index` is charging, the next one is
/// neither charging nor full, and at least three charging samples led up to
/// it.
pub open spec fn spec_interrupted_charge_run(states: Seq<SampleState>, index: int) -> Option<nat> {
    if index + 1 < states.len() && states[index] == SampleState::Charging && states[index + 1]
        != SampleState::Charging && states[index + 1] != SampleState::Full && charging_run_before(
        states,
        index + 1,
    ) >= MIN_INTERRUPTED_CHARGE_SAMPLES {
        Some(charging_run_before(states, index + 1))
    } else {
        None
    }
}

/// The length of the charging run that stops after position `index` of a
/// contiguous stretch of sample states, when that stop counts as an
/// interrupted charge.
pub fn interrupted_charge_run(states: &[SampleState], index: usize) -> (r: Option<usize>)
    ensures
        match spec_interrupted_charge_run(states@, index as int) {
            Some(run) => r == Some(run as usize),
            None => r is None,
        },
{
    if index >= states.len() || index + 1 >= states.len() {
        return None;
    }
    if states[index] != SampleState::Charging || states[index + 1] == SampleState::Charging
        || states[index + 1] == SampleState::Full {
        return None;
    }
    let mut run: usize = 0;
    let mut end: usize = index + 1;
    while end > 0 && states[end - 1] == SampleState::Charging
        invariant
            end <= index + 1,
            index + 1 < states@.len(),
            run + end == index + 1,
            run + charging_run_before(states@, end as int) == charging_run_before(
                states@,
                index as int + 1,
            ),
        decreases end,
    {
        run = run + 1;
        end = end - 1;
    }
    if run >= MIN_INTERRUPTED_CHARGE_SAMPLES {
        Some(run)
    } else {
        None
    }
}

/// The confidence of an interrupted-charge report: high from six
/// contiguous charging samples, medium below.
pub fn interrupted_charge_confidence(run_len: usize) -> (r: &'static str)
    ensures
        r@ == (if run_len >= HIGH_CONFIDENCE_CHARGE_SAMPLES {
            "high"@
        } else {
            "medium"@
        }),
{
    if run_len >= HIGH_CONFIDENCE_CHARGE_SAMPLES {
        "high"
    } else {
        "medium"
    }
}

/// Distinct kinds never share a rank, so ordering by rank is total.
pub proof fn lemma_kind_order_is_injective(a: AnomalyKind, b: AnomalyKind)
    ensures
        spec_kind_order(a) == spec_kind_order(b) ==> a == b,
{
}

} // verus!
