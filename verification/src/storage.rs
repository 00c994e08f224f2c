//! Stored-sample vocabulary and the history downsampling rules.
//!
//! The SQLite database itself is opened and queried by the application; this
//! module holds the value types that describe stored observations and the
//! pure selection logic that decides which observations a chart receives.

use vstd::prelude::*;
use vstd::set_lib::set_int_range;
use vstd::set_lib::lemma_int_range;
use vstd::set_lib::lemma_len_subset;
use std::collections::BTreeSet;
use vstd::std_specs::btree::increasing_seq;
use vstd::std_specs::btree::spec_btree_keys_iter;
use vstd::std_specs::iter::IteratorSpec;

verus! {

/// The origin of a metric value as recorded by a Linux battery provider.
#[derive(Clone, Copy, Debug, PartialEq, Eq, Structural)]
pub enum MetricSource {
    /// Read from `UPower` over the local system D-Bus.
    Upower,
    /// Read directly from Linux sysfs.
    Sysfs,
    /// Calculated only from compatible observed fields.
    Derived,
    /// No provider supplied a usable value.
    Unavailable,
}

impl MetricSource {
    /// The stored spelling of this provenance.
    pub fn as_str(self) -> (r: &'static str)
        ensures
            r@ == metric_source_name(self),
    {
        match self {
            MetricSource::Upower => "upower",
            MetricSource::Sysfs => "sysfs",
            MetricSource::Derived => "derived",
            MetricSource::Unavailable => "unavailable",
        }
    }
}

/// The stored spelling of a metric provenance.
pub open spec fn metric_source_name(source: MetricSource) -> Seq<char> {
    match source {
        MetricSource::Upower => "upower"@,
        MetricSource::Sysfs => "sysfs"@,
        MetricSource::Derived => "derived"@,
        MetricSource::Unavailable => "unavailable"@,
    }
}

/// The state of one battery at the time a sample was collected.
#[derive(Clone, Copy, Debug, PartialEq, Eq, Structural)]
pub enum SampleState {
    /// The battery is receiving energy.
    Charging,
    /// The battery is providing energy.
    Discharging,
    /// The battery is reported full.
    Full,
    /// The battery is neither charging nor discharging.
    Idle,
    /// The provider did not report a usable state.
    Unknown,
}

impl SampleState {
    /// The stored spelling of this state.
    pub fn as_str(self) -> (r: &'static str)
        ensures
            r@ == sample_state_name(self),
    {
        match self {
            SampleState::Charging => "charging",
            SampleState::Discharging => "discharging",
            SampleState::Full => "full",
            SampleState::Idle => "idle",
            SampleState::Unknown => "unknown",
        }
    }
}

/// The stored spelling of a sample state.
pub open spec fn sample_state_name(state: SampleState) -> Seq<char> {
    match state {
        SampleState::Charging => "charging"@,
        SampleState::Discharging => "discharging"@,
        SampleState::Full => "full"@,
        SampleState::Idle => "idle"@,
        SampleState::Unknown => "unknown"@,
    }
}

/// The provenance a stored spelling denotes, if any.
pub open spec fn metric_source_named(value: Seq<char>) -> Option<MetricSource> {
    if value == "upower"@ {
        Some(MetricSource::Upower)
    } else if value == "sysfs"@ {
        Some(MetricSource::Sysfs)
    } else if value == "derived"@ {
        Some(MetricSource::Derived)
    } else if value == "unavailable"@ {
        Some(MetricSource::Unavailable)
    } else {
        None
    }
}

/// Reads a stored provenance; `None` marks a corrupt row.
pub fn metric_source_from_database(value: &str) -> (r: Option<MetricSource>)
    ensures
        r == metric_source_named(value@),
{
    if crate::text::text_equals(value, "upower") {
        Some(MetricSource::Upower)
    } else if crate::text::text_equals(value, "sysfs") {
        Some(MetricSource::Sysfs)
    } else if crate::text::text_equals(value, "derived") {
        Some(MetricSource::Derived)
    } else if crate::text::text_equals(value, "unavailable") {
        Some(MetricSource::Unavailable)
    } else {
        None
    }
}

/// The sample state a stored spelling denotes, if any.
pub open spec fn sample_state_named(value: Seq<char>) -> Option<SampleState> {
    if value == "charging"@ {
        Some(SampleState::Charging)
    } else if value == "discharging"@ {
        Some(SampleState::Discharging)
    } else if value == "full"@ {
        Some(SampleState::Full)
    } else if value == "idle"@ {
        Some(SampleState::Idle)
    } else if value == "unknown"@ {
        Some(SampleState::Unknown)
    } else {
        None
    }
}

/// Reads a stored sample state; `None` marks a corrupt row.
pub fn sample_state_from_database(value: &str) -> (r: Option<SampleState>)
    ensures
        r == sample_state_named(value@),
{
    if crate::text::text_equals(value, "charging") {
        Some(SampleState::Charging)
    } else if crate::text::text_equals(value, "discharging") {
        Some(SampleState::Discharging)
    } else if crate::text::text_equals(value, "full") {
        Some(SampleState::Full)
    } else if crate::text::text_equals(value, "idle") {
        Some(SampleState::Idle)
    } else if crate::text::text_equals(value, "unknown") {
        Some(SampleState::Unknown)
    } else {
        None
    }
}

/// A stored provenance or sample state reads back as what was written.
pub proof fn lemma_stored_names_read_back(source: MetricSource, state: SampleState)
    ensures
        metric_source_named(metric_source_name(source)) == Some(source),
        sample_state_named(sample_state_name(state)) == Some(state),
{
    reveal_strlit("upower");
    reveal_strlit("sysfs");
    reveal_strlit("derived");
    reveal_strlit("unavailable");
    reveal_strlit("charging");
    reveal_strlit("discharging");
    reveal_strlit("full");
    reveal_strlit("idle");
    reveal_strlit("unknown");
    assert("upower"@.len() == 6 && "sysfs"@.len() == 5 && "derived"@.len() == 7);
    assert("unavailable"@.len() == 11);
    assert("charging"@.len() == 8 && "discharging"@.len() == 11 && "full"@.len() == 4);
    assert("idle"@.len() == 4 && "unknown"@.len() == 7);
    assert("idle"@[0] != "full"@[0]);
}

/// Checks a history query: an ordered range, a positive point budget and,
/// when a battery is named, a non-blank identifier. The error is the
/// message describing the first rule broken.
pub fn validate_history_query(
    start_nanos: i128,
    end_nanos: i128,
    max_points: usize,
    battery_id: Option<&str>,
) -> (r: Result<(), &'static str>)
    ensures
        start_nanos > end_nanos ==> (r matches Err(m) && m@ == "start must not be after end"@),
        start_nanos <= end_nanos && max_points == 0 ==> (r matches Err(m) && m@
            == "max_points must be at least one"@),
        start_nanos <= end_nanos && max_points > 0 ==> match battery_id {
            Some(id) if crate::text::trim(id@).len() == 0 => (r matches Err(m) && m@
                == "battery_id must not be empty when supplied"@),
            _ => r is Ok,
        },
{
    if start_nanos > end_nanos {
        return Err("start must not be after end");
    }
    if max_points == 0 {
        return Err("max_points must be at least one");
    }
    match battery_id {
        Some(id) => if crate::text::is_blank(id) {
            Err("battery_id must not be empty when supplied")
        } else {
            Ok(())
        },
        None => Ok(()),
    }
}

/// Checks a session query: an ordered range and, when a battery is named,
/// a non-blank identifier.
pub fn validate_session_query(start_nanos: i128, end_nanos: i128, battery_id: Option<&str>) -> (r:
    Result<(), &'static str>)
    ensures
        start_nanos > end_nanos ==> (r matches Err(m) && m@ == "start must not be after end"@),
        start_nanos <= end_nanos ==> match battery_id {
            Some(id) if crate::text::trim(id@).len() == 0 => (r matches Err(m) && m@
                == "battery_id must not be empty when supplied"@),
            _ => r is Ok,
        },
{
    if start_nanos > end_nanos {
        return Err("start must not be after end");
    }
    match battery_id {
        Some(id) => if crate::text::is_blank(id) {
            Err("battery_id must not be empty when supplied")
        } else {
            Ok(())
        },
        None => Ok(()),
    }
}

/// Checks the identity of a sample about to be stored: a non-blank battery
/// identifier and a non-blank boot identifier. The error is the message
/// describing the first rule broken.
pub fn validate_sample_identity(battery_id: &str, boot_id: &str) -> (r: Result<(), &'static str>)
    ensures
        crate::text::trim(battery_id@).len() == 0 ==> (r matches Err(m) && m@
            == "battery_id is empty"@),
        crate::text::trim(battery_id@).len() != 0 && crate::text::trim(boot_id@).len() == 0 ==> (r matches Err(
            m,
        ) && m@ == "boot_id is empty"@),
        crate::text::trim(battery_id@).len() != 0 && crate::text::trim(boot_id@).len() != 0 ==> r is Ok,
{
    if crate::text::is_blank(battery_id) {
        return Err("battery_id is empty");
    }
    if crate::text::is_blank(boot_id) {
        return Err("boot_id is empty");
    }
    Ok(())
}

/// How a stored metric's value and its provenance disagree.
#[derive(Clone, Copy, Debug, PartialEq, Eq, Structural)]
pub enum ProvenanceMismatch {
    /// A value is present but no provider is named for it.
    ValueWithoutProvenance,
    /// A provider is named but no value is present.
    ProvenanceWithoutValue,
}

/// Checks that a metric about to be stored carries a value exactly when it
/// names the provider that supplied it.
pub fn provenance_mismatch(has_value: bool, source: MetricSource) -> (r: Option<ProvenanceMismatch>)
    ensures
        r == (if has_value && source == MetricSource::Unavailable {
            Some(ProvenanceMismatch::ValueWithoutProvenance)
        } else if !has_value && source != MetricSource::Unavailable {
            Some(ProvenanceMismatch::ProvenanceWithoutValue)
        } else {
            None
        }),
        r is None <==> (has_value <==> source != MetricSource::Unavailable),
{
    match (has_value, source) {
        (true, MetricSource::Unavailable) => Some(ProvenanceMismatch::ValueWithoutProvenance),
        (false, MetricSource::Unavailable) => None,
        (false, _) => Some(ProvenanceMismatch::ProvenanceWithoutValue),
        (true, _) => None,
    }
}

/// The outcome of trying to write one idempotent sample.
#[derive(Clone, Copy, Debug, PartialEq, Eq, Structural)]
pub enum InsertOutcome {
    /// A new immutable row was created.
    Inserted,
    /// A sample with the same timestamp or boot-relative identity already exists.
    Duplicate,
}

/// The durable availability of a historical metric.
#[derive(Clone, Copy, Debug, PartialEq, Eq, Structural)]
pub enum HistoryAvailability {
    /// A finite provider value was recorded.
    Available,
    /// No provider value was recorded; this is not a zero.
    Unavailable,
}

/// Freshness at the time the recorder committed an immutable observation.
#[derive(Clone, Copy, Debug, PartialEq, Eq, Structural)]
pub enum HistoryFreshness {
    /// The provider value was observed during this recorder run.
    Recorded,
    /// No provider value existed for this recorder run.
    Unavailable,
}

/// Why a chart must not interpolate between two observations.
#[derive(Clone, Copy, Debug, PartialEq, Eq, Structural)]
pub enum HistoryGapReason {
    /// Linux boot identity changed, so monotonic timing is discontinuous.
    BootChanged,
    /// A sample interval exceeded the recorder's continuity limit.
    SampleIntervalExceeded,
}

/// A real gap retained in the timeline even when samples are downsampled.
#[derive(Clone, Debug)]
pub struct HistoryGap {
    /// Timestamp of the last sample before the discontinuity.
    pub from: String,
    /// Timestamp of the first sample after the discontinuity.
    pub to: String,
    /// Why the two observations must not be joined.
    pub reason: HistoryGapReason,
}

/// A normalized activity represented by a derived battery session.
#[derive(Clone, Copy, Debug, PartialEq, Eq, Structural)]
pub enum BatterySessionKind {
    /// The battery was charging throughout.
    Charging,
    /// The battery was discharging throughout.
    Discharging,
    /// The battery reported full throughout.
    Full,
    /// Includes provider `idle` and `unknown`: neither is safely charge or discharge.
    Unknown,
}

impl BatterySessionKind {
    /// The stored spelling of this session kind.
    pub fn as_str(self) -> (r: &'static str)
        ensures
            r@ == session_kind_name(self),
    {
        match self {
            BatterySessionKind::Charging => "charging",
            BatterySessionKind::Discharging => "discharging",
            BatterySessionKind::Full => "full",
            BatterySessionKind::Unknown => "unknown",
        }
    }
}

/// The stored spelling of a session kind.
pub open spec fn session_kind_name(kind: BatterySessionKind) -> Seq<char> {
    match kind {
        BatterySessionKind::Charging => "charging"@,
        BatterySessionKind::Discharging => "discharging"@,
        BatterySessionKind::Full => "full"@,
        BatterySessionKind::Unknown => "unknown"@,
    }
}

/// Why a session ended without a continuously observed terminal transition.
#[derive(Clone, Copy, Debug, PartialEq, Eq, Structural)]
pub enum SessionInterruptReason {
    /// The following observation reported another state.
    StateChanged,
    /// A new Linux boot makes boot-relative timing discontinuous.
    BootChanged,
    /// The recorder was absent for longer than its continuity limit.
    SampleGap,
    /// No subsequent sample exists.
    DataEnded,
}

impl SessionInterruptReason {
    /// The stored spelling of this interruption reason.
    pub fn as_str(self) -> (r: &'static str)
        ensures
            r@ == interrupt_reason_name(self),
    {
        match self {
            SessionInterruptReason::StateChanged => "state_changed",
            SessionInterruptReason::BootChanged => "boot_changed",
            SessionInterruptReason::SampleGap => "sample_gap",
            SessionInterruptReason::DataEnded => "data_ended",
        }
    }
}

/// The stored spelling of an interruption reason.
pub open spec fn interrupt_reason_name(reason: SessionInterruptReason) -> Seq<char> {
    match reason {
        SessionInterruptReason::StateChanged => "state_changed"@,
        SessionInterruptReason::BootChanged => "boot_changed"@,
        SessionInterruptReason::SampleGap => "sample_gap"@,
        SessionInterruptReason::DataEnded => "data_ended"@,
    }
}

/// Calendar bucket width for observed session-duration reporting.
#[derive(Clone, Copy, Debug, PartialEq, Eq, Structural)]
pub enum SessionAggregationPeriod {
    /// One bucket per local calendar day.
    Daily,
    /// One bucket per ISO week.
    Weekly,
    /// One bucket per calendar month.
    Monthly,
}

/// Whether a day's usage summary clears the local evidence policy.
#[derive(Clone, Copy, Debug, PartialEq, Eq, Structural)]
pub enum DayEvidence {
    /// At least ten observations spanning at least ten observed minutes.
    Sufficient,
    /// Below the evidence policy.
    Insufficient,
}

/// Why a day did not clear the evidence policy.
#[derive(Clone, Copy, Debug, PartialEq, Eq, Structural)]
pub enum DayInsufficiencyReason {
    /// No samples were recorded in the requested local day at all.
    NoRecording,
    /// Too few observations or too little observed coverage exist.
    TooFewSamples,
}

/// Fewest samples a day needs before its usage summary is evidence.
pub const MIN_DAY_USAGE_SAMPLES: usize = 10;

/// The evidence policy of a day's usage summary: a day with no samples has
/// no recording; a day with fewer than [`MIN_DAY_USAGE_SAMPLES`] samples, or
/// whose observed coverage is below ten minutes, has too few; any other day
/// is sufficient. `coverage_met` says whether the observed contiguous
/// coverage reaches ten minutes.
pub fn day_evidence(sample_count: usize, coverage_met: bool) -> (r: (
    DayEvidence,
    Option<DayInsufficiencyReason>,
))
    ensures
        sample_count == 0 ==> r == (DayEvidence::Insufficient, Some(DayInsufficiencyReason::NoRecording)),
        sample_count > 0 && (sample_count < MIN_DAY_USAGE_SAMPLES || !coverage_met) ==> r == (
            DayEvidence::Insufficient,
            Some(DayInsufficiencyReason::TooFewSamples),
        ),
        sample_count >= MIN_DAY_USAGE_SAMPLES && coverage_met ==> r == (
            DayEvidence::Sufficient,
            None::<DayInsufficiencyReason>,
        ),
{
    if sample_count == 0 {
        (DayEvidence::Insufficient, Some(DayInsufficiencyReason::NoRecording))
    } else if sample_count < MIN_DAY_USAGE_SAMPLES || !coverage_met {
        (DayEvidence::Insufficient, Some(DayInsufficiencyReason::TooFewSamples))
    } else {
        (DayEvidence::Sufficient, None)
    }
}

/// The session kind a sample state opens.
pub open spec fn spec_session_kind(state: SampleState) -> BatterySessionKind {
    match state {
        SampleState::Charging => BatterySessionKind::Charging,
        SampleState::Discharging => BatterySessionKind::Discharging,
        SampleState::Full => BatterySessionKind::Full,
        SampleState::Idle | SampleState::Unknown => BatterySessionKind::Unknown,
    }
}

/// Maps a sample state onto the kind of session it belongs to; idle and
/// unknown are never treated as charge or discharge.
pub fn session_kind(state: SampleState) -> (r: BatterySessionKind)
    ensures
        r == spec_session_kind(state),
{
    match state {
        SampleState::Charging => BatterySessionKind::Charging,
        SampleState::Discharging => BatterySessionKind::Discharging,
        SampleState::Full => BatterySessionKind::Full,
        SampleState::Idle | SampleState::Unknown => BatterySessionKind::Unknown,
    }
}

// ---------------------------------------------------------------------------
// Downsampling
// ---------------------------------------------------------------------------

/// The observations a downsampled history must always keep: both ends of the
/// range, and both observations on either side of every gap.
pub open spec fn required_indices(length: int, gaps: Seq<(usize, HistoryGap)>) -> Set<int> {
    Set::new(
        |i: int|
            i == 0 || i == length - 1 || exists|k: int|
                0 <= k < gaps.len() && (i == gaps[k].0 || i == gaps[k].0 + 1),
    )
}

/// The position chosen for evenly spaced `slot` among `candidates` interior slots.
pub open spec fn slot_position(slot: int, candidates: int, length: int) -> int {
    (slot * (length - 1) + candidates / 2) / (candidates + 1)
}

/// Adds evenly spaced positions, slot by slot, until `target` are selected.
pub open spec fn fill_slots(
    selected: Set<int>,
    slot: int,
    candidates: int,
    length: int,
    target: int,
) -> Set<int>
    decreases candidates + 1 - slot,
{
    if slot > candidates || selected.len() >= target {
        selected
    } else {
        fill_slots(
            selected.insert(slot_position(slot, candidates, length)),
            slot + 1,
            candidates,
            length,
            target,
        )
    }
}

/// Adds the lowest unselected positions until `target` are selected.
pub open spec fn fill_front(selected: Set<int>, index: int, length: int, target: int) -> Set<int>
    decreases length - index,
{
    if index >= length || selected.len() >= target {
        selected
    } else {
        fill_front(selected.insert(index), index + 1, length, target)
    }
}

/// The number of observations a downsampled history holds.
pub open spec fn downsample_target(
    length: int,
    max_points: int,
    gaps: Seq<(usize, HistoryGap)>,
) -> int {
    let required = required_indices(length, gaps).len() as int;
    let wanted = if max_points > required {
        max_points
    } else {
        required
    };
    if wanted < length {
        wanted
    } else {
        length
    }
}

/// The positions a history of `length` observations keeps under a preferred
/// bound of `max_points` and the given gaps.
pub open spec fn downsample_selection(
    length: int,
    max_points: int,
    gaps: Seq<(usize, HistoryGap)>,
) -> Set<int> {
    if length == 0 {
        Set::empty()
    } else {
        let required = required_indices(length, gaps);
        let target = downsample_target(length, max_points, gaps);
        if (required.len() as int) < target {
            fill_front(fill_slots(required, 1, target - 2, length, target), 0, length, target)
        } else {
            required
        }
    }
}

/// Every gap is anchored at an observation that has a successor.
pub open spec fn gaps_in_range(length: int, gaps: Seq<(usize, HistoryGap)>) -> bool {
    forall|k: int| 0 <= k < gaps.len() ==> #[trigger] gaps[k].0 + 1 < length
}

proof fn lemma_slot_position_in_range(slot: int, candidates: int, length: int)
    requires
        1 <= slot <= candidates,
        length >= 1,
    ensures
        0 <= slot_position(slot, candidates, length) < length,
{
    let num = slot * (length - 1) + candidates / 2;
    assert(slot * (length - 1) <= candidates * (length - 1)) by (nonlinear_arith)
        requires
            1 <= slot <= candidates,
            length >= 1,
    ;
    assert(0 <= slot * (length - 1)) by (nonlinear_arith)
        requires
            1 <= slot,
            length >= 1,
    ;
    assert(num < (candidates + 1) * length) by (nonlinear_arith)
        requires
            num == slot * (length - 1) + candidates / 2,
            slot * (length - 1) <= candidates * (length - 1),
            candidates >= 1,
            length >= 1,
    ;
    assert(num / (candidates + 1) < length) by (nonlinear_arith)
        requires
            0 <= num < (candidates + 1) * length,
            candidates >= 1,
    ;
    assert(0 <= num / (candidates + 1)) by (nonlinear_arith)
        requires
            0 <= num,
            candidates >= 1,
    ;
}

proof fn lemma_fill_slots(
    selected: Set<int>,
    slot: int,
    candidates: int,
    length: int,
    target: int,
)
    requires
        selected.finite(),
        selected.subset_of(set_int_range(0, length)),
        selected.len() <= target,
        slot >= 1,
        length >= 1,
    ensures
        fill_slots(selected, slot, candidates, length, target).finite(),
        selected.subset_of(fill_slots(selected, slot, candidates, length, target)),
        fill_slots(selected, slot, candidates, length, target).subset_of(set_int_range(0, length)),
        fill_slots(selected, slot, candidates, length, target).len() <= target,
    decreases candidates + 1 - slot,
{
    if slot > candidates || selected.len() >= target {
    } else {
        let p = slot_position(slot, candidates, length);
        lemma_slot_position_in_range(slot, candidates, length);
        lemma_fill_slots(selected.insert(p), slot + 1, candidates, length, target);
    }
}

proof fn lemma_fill_front(selected: Set<int>, index: int, length: int, target: int)
    requires
        selected.finite(),
        selected.subset_of(set_int_range(0, length)),
        forall|j: int| 0 <= j < index ==> selected.contains(j),
        0 <= index <= length,
        selected.len() <= target <= length,
    ensures
        fill_front(selected, index, length, target).finite(),
        selected.subset_of(fill_front(selected, index, length, target)),
        fill_front(selected, index, length, target).subset_of(set_int_range(0, length)),
        fill_front(selected, index, length, target).len() == target,
    decreases length - index,
{
    if index >= length {
        lemma_int_range(0, length);
        assert(selected =~= set_int_range(0, length));
    } else if selected.len() >= target {
    } else {
        lemma_fill_front(selected.insert(index), index + 1, length, target);
    }
}

proof fn lemma_required_finite(length: int, gaps: Seq<(usize, HistoryGap)>)
    requires
        length >= 1,
        gaps_in_range(length, gaps),
    ensures
        required_indices(length, gaps).finite(),
        required_indices(length, gaps).subset_of(set_int_range(0, length)),
        required_indices(length, gaps).len() <= length,
{
    lemma_int_range(0, length);
    assert(required_indices(length, gaps).subset_of(set_int_range(0, length))) by {
        assert forall|i: int| required_indices(length, gaps).contains(i) implies set_int_range(
            0,
            length,
        ).contains(i) by {
            if i != 0 && i != length - 1 {
                let k = choose|k: int|
                    0 <= k < gaps.len() && (i == gaps[k].0 || i == gaps[k].0 + 1);
                assert(gaps[k].0 + 1 < length);
            }
        }
    }
    vstd::set_lib::lemma_len_subset(required_indices(length, gaps), set_int_range(0, length));
}

/// Properties of the downsampled selection that every chart relies on:
/// the selection lies within the history, keeps both ends and both sides of
/// every gap, and holds exactly the target number of observations.
pub proof fn lemma_downsample_keeps_anchors(
    length: int,
    max_points: int,
    gaps: Seq<(usize, HistoryGap)>,
)
    requires
        length >= 1,
        gaps_in_range(length, gaps),
    ensures
        downsample_selection(length, max_points, gaps).finite(),
        downsample_selection(length, max_points, gaps).subset_of(set_int_range(0, length)),
        required_indices(length, gaps).subset_of(downsample_selection(length, max_points, gaps)),
        downsample_selection(length, max_points, gaps).len() == downsample_target(
            length,
            max_points,
            gaps,
        ),
{
    lemma_required_finite(length, gaps);
    let required = required_indices(length, gaps);
    let target = downsample_target(length, max_points, gaps);
    if (required.len() as int) < target {
        lemma_fill_slots(required, 1, target - 2, length, target);
        let mid = fill_slots(required, 1, target - 2, length, target);
        lemma_fill_front(mid, 0, length, target);
    }
}

proof fn lemma_div_bracket(x: int, q: int)
    requires
        0 <= x,
        0 < q,
    ensures
        q * (x / q) <= x < q * (x / q) + q,
        0 <= x / q,
{
    vstd::arithmetic::div_mod::lemma_fundamental_div_mod(x, q);
    vstd::arithmetic::div_mod::lemma_mod_pos_bound(x, q);
    let a = x / q;
    assert(0 <= a) by (nonlinear_arith)
        requires
            q * a <= x < q * a + q,
            0 <= x,
            0 < q,
    ;
}

/// Adding `n` raises a quotient by `q` by at most the ceiling of `n / q`.
proof fn lemma_floor_step(x: int, n: int, q: int)
    requires
        0 <= x,
        0 <= n,
        0 < q,
    ensures
        (x + n) / q <= x / q + (n + q - 1) / q,
{
    lemma_div_bracket(x, q);
    lemma_div_bracket(x + n, q);
    lemma_div_bracket(n + q - 1, q);
    let a = x / q;
    let b = (n + q - 1) / q;
    let c = (x + n) / q;
    assert(c <= a + b) by (nonlinear_arith)
        requires
            q * a <= x < q * a + q,
            q * c <= x + n,
            n + q - 1 < q * b + q,
            0 < q,
    ;
}

/// Adding at least `q` raises a quotient by `q` by at least one.
proof fn lemma_floor_gain(x: int, y: int, q: int)
    requires
        0 <= x,
        x + q <= y,
        0 < q,
    ensures
        x / q + 1 <= y / q,
{
    lemma_div_bracket(x, q);
    lemma_div_bracket(y, q);
    let a = x / q;
    let c = y / q;
    assert(a + 1 <= c) by (nonlinear_arith)
        requires
            q * a <= x,
            x + q <= y,
            y < q * c + q,
            0 < q,
    ;
}

proof fn lemma_at_most_quotient(y: int, x: int, q: int)
    requires
        0 <= x,
        0 < q,
        q * y <= x,
    ensures
        y <= x / q,
{
    lemma_div_bracket(x, q);
    let a = x / q;
    assert(y <= a) by (nonlinear_arith)
        requires
            q * y <= x,
            x < q * a + q,
            0 < q,
    ;
}

proof fn lemma_below_quotient(y: int, x: int, q: int)
    requires
        0 <= x,
        0 < q,
        x < q * y,
    ensures
        x / q < y,
{
    lemma_div_bracket(x, q);
    let a = x / q;
    assert(a < y) by (nonlinear_arith)
        requires
            q * a <= x,
            x < q * y,
            0 < q,
    ;
}

/// The evenly spaced positions of `candidates` interior slots in a history
/// of `length` rows that has more rows than slots plus both ends: they lie
/// strictly inside, strictly increase, and no two neighbours (counting both
/// ends) are further apart than the ceiling of `(length - 1) / (candidates + 1)`.
proof fn lemma_slot_positions_spread(candidates: int, length: int)
    requires
        1 <= candidates,
        candidates + 2 < length,
    ensures
        forall|j: int, k: int|
            1 <= j < k <= candidates ==> slot_position(j, candidates, length) < slot_position(
                k,
                candidates,
                length,
            ),
        1 <= slot_position(1, candidates, length),
        slot_position(candidates, candidates, length) < length - 1,
        slot_position(1, candidates, length) <= (length + candidates - 1) / (candidates + 1),
        forall|k: int|
            1 <= k < candidates ==> slot_position(k + 1, candidates, length) <= #[trigger] slot_position(
                k,
                candidates,
                length,
            ) + (length + candidates - 1) / (candidates + 1),
        length - 1 <= slot_position(candidates, candidates, length) + (length + candidates - 1) / (
        candidates + 1),
{
    let n = length - 1;
    let q = candidates + 1;
    let h = candidates / 2;
    let bound = (n + q - 1) / q;
    assert(length + candidates - 1 == n + q - 1);
    assert(0 <= h < q);
    assert forall|j: int, k: int| 1 <= j < k <= candidates implies slot_position(
        j,
        candidates,
        length,
    ) < slot_position(k, candidates, length) by {
        assert(0 <= j * n && j * n + n <= k * n) by (nonlinear_arith)
            requires
                1 <= j < k,
                n >= 1,
        ;
        lemma_floor_gain(j * n + h, k * n + h, q);
    }
    assert(1 * n == n);
    lemma_at_most_quotient(1, n + h, q);
    vstd::arithmetic::div_mod::lemma_div_is_ordered(n + h, n + q - 1, q);
    assert forall|k: int| 1 <= k < candidates implies slot_position(k + 1, candidates, length)
        <= #[trigger] slot_position(k, candidates, length) + bound by {
        assert(0 <= k * n && (k + 1) * n == k * n + n) by (nonlinear_arith)
            requires
                1 <= k,
                n >= 1,
        ;
        lemma_floor_step(k * n + h, n, q);
        assert(k * n + h + n == (k + 1) * n + h);
    }
    assert(0 <= candidates * n && candidates * n + h < q * n && q * n == candidates * n + n)
        by (nonlinear_arith)
        requires
            q == candidates + 1,
            candidates >= 1,
            n > h >= 0,
    ;
    lemma_below_quotient(n, candidates * n + h, q);
    lemma_div_bracket(n + q - 1, q);
    assert(q * (n - bound) <= candidates * n + h) by (nonlinear_arith)
        requires
            n + q - 1 < q * bound + q,
            q * n == candidates * n + n,
            h >= 0,
    ;
    lemma_at_most_quotient(n - bound, candidates * n + h, q);
}

/// The two ends of a history together with the first `slots - 1` evenly
/// spaced interior positions.
spec fn spread_prefix(length: int, candidates: int, slots: int) -> Set<int> {
    Set::new(
        |x: int|
            x == 0 || x == length - 1 || exists|k: int|
                1 <= k < slots && x == slot_position(k, candidates, length),
    )
}

proof fn lemma_spread_prefix_len(length: int, candidates: int, slots: int)
    requires
        1 <= candidates,
        candidates + 2 < length,
        1 <= slots <= candidates + 1,
    ensures
        spread_prefix(length, candidates, slots).finite(),
        spread_prefix(length, candidates, slots).len() == slots + 1,
    decreases slots,
{
    lemma_slot_positions_spread(candidates, length);
    if slots == 1 {
        assert(spread_prefix(length, candidates, 1) =~= set![0, length - 1]);
        assert(set![0, length - 1].len() == 2) by {
            assert(set![0int].len() == 1);
        }
    } else {
        lemma_spread_prefix_len(length, candidates, slots - 1);
        let p = slot_position(slots - 1, candidates, length);
        let before = spread_prefix(length, candidates, slots - 1);
        assert(!before.contains(p)) by {
            if before.contains(p) && p != 0 && p != length - 1 {
                let k = choose|k: int|
                    1 <= k < slots - 1 && p == slot_position(k, candidates, length);
                assert(slot_position(k, candidates, length) < p);
            }
            if slots - 1 > 1 {
                assert(slot_position(1, candidates, length) <= p);
            }
            assert(p <= slot_position(candidates, candidates, length));
        }
        assert(spread_prefix(length, candidates, slots) =~= before.insert(p));
    }
}

proof fn lemma_fill_slots_spread(length: int, candidates: int, slots: int)
    requires
        1 <= candidates,
        candidates + 2 < length,
        1 <= slots <= candidates + 1,
    ensures
        fill_slots(spread_prefix(length, candidates, slots), slots, candidates, length, candidates + 2)
            == spread_prefix(length, candidates, candidates + 1),
    decreases candidates + 1 - slots,
{
    if slots <= candidates {
        lemma_spread_prefix_len(length, candidates, slots);
        let p = slot_position(slots, candidates, length);
        assert(spread_prefix(length, candidates, slots).insert(p) =~= spread_prefix(
            length,
            candidates,
            slots + 1,
        ));
        lemma_fill_slots_spread(length, candidates, slots + 1);
    }
}

/// A history without gaps is downsampled evenly: a budget of `max_points`
/// between two and the number of rows selects exactly that many positions,
/// both ends among them, and from every selected position but the last the
/// next selected one is at most the ceiling of
/// `(length - 1) / (max_points - 1)` rows further on.
pub proof fn lemma_downsample_spreads_evenly(length: int, max_points: int)
    requires
        2 <= max_points < length,
    ensures
        downsample_selection(length, max_points, Seq::empty()).len() == max_points,
        downsample_selection(length, max_points, Seq::empty()).contains(0),
        downsample_selection(length, max_points, Seq::empty()).contains(length - 1),
        forall|a: int|
            #![trigger downsample_selection(length, max_points, Seq::empty()).contains(a)]
            downsample_selection(length, max_points, Seq::empty()).contains(a) && a < length - 1
                ==> exists|b: int|
                downsample_selection(length, max_points, Seq::empty()).contains(b) && a < b <= a
                    + (length + max_points - 3) / (max_points - 1),
{
    let gaps = Seq::<(usize, HistoryGap)>::empty();
    let candidates = max_points - 2;
    let selection = downsample_selection(length, max_points, gaps);
    let bound = (length + max_points - 3) / (max_points - 1);
    assert(required_indices(length, gaps) =~= spread_prefix(length, candidates, 1));
    assert(set![0, length - 1].len() == 2) by {
        assert(set![0int].len() == 1);
    }
    assert(spread_prefix(length, candidates, 1) =~= set![0, length - 1]);
    assert(downsample_target(length, max_points, gaps) == max_points);
    if max_points == 2 {
        assert(selection == spread_prefix(length, candidates, 1));
        assert(bound == length - 1) by {
            vstd::arithmetic::div_mod::lemma_div_basics(length - 1);
        }
        assert forall|a: int| selection.contains(a) && a < length - 1 implies exists|b: int|
            selection.contains(b) && a < b <= a + bound by {
            assert(selection.contains(length - 1));
        }
    } else {
        lemma_fill_slots_spread(length, candidates, 1);
        lemma_spread_prefix_len(length, candidates, candidates + 1);
        let full = spread_prefix(length, candidates, candidates + 1);
        assert(fill_front(full, 0, length, max_points) == full);
        assert(selection == full);
        lemma_slot_positions_spread(candidates, length);
        assert(length + candidates - 1 == length + max_points - 3);
        assert(candidates + 1 == max_points - 1);
        assert forall|a: int| selection.contains(a) && a < length - 1 implies exists|b: int|
            selection.contains(b) && a < b <= a + bound by {
            if a == 0 {
                let b = slot_position(1, candidates, length);
                assert(full.contains(b));
            } else {
                let k = choose|k: int|
                    1 <= k < candidates + 1 && a == slot_position(k, candidates, length);
                if k < candidates {
                    let b = slot_position(k + 1, candidates, length);
                    assert(full.contains(b));
                } else {
                    assert(full.contains(length - 1));
                }
            }
        }
    }
}

/// The positions a `BTreeSet` of positions yields, in order, increase.
proof fn lemma_keys_increase(keys: Seq<&usize>)
    requires
        increasing_seq(keys),
    ensures
        forall|a: int, b: int| 0 <= a < b < keys.len() ==> *keys[a] < *keys[b],
{
    assert(vstd::laws_cmp::obeys_cmp::<usize>());
    assert(vstd::laws_cmp::obeys_cmp::<&usize>());
    assert forall|a: int, b: int| 0 <= a < b < keys.len() implies *keys[a] < *keys[b] by {
        assert(vstd::std_specs::cmp::OrdSpec::cmp_spec(&keys[a], &keys[b]) is Less);
    }
}

/// Chooses which observations of a history with `length` rows a chart
/// receives, preferring at most `max_points` of them.
///
/// Both endpoints and both observations around each gap are always kept,
/// even when that exceeds `max_points`; the remaining budget is spent on
/// evenly spaced positions, and then on the earliest unselected positions.
/// The result is in increasing order without repetition.
pub fn downsample_indices(length: usize, max_points: usize, gaps: &[(usize, HistoryGap)]) -> (r:
    Vec<usize>)
    requires
        gaps_in_range(length as int, gaps@),
    ensures
        forall|a: int, b: int| 0 <= a < b < r@.len() ==> r@[a] < r@[b],
        forall|k: int|
            0 <= k < r@.len() ==> downsample_selection(
                length as int,
                max_points as int,
                gaps@,
            ).contains(#[trigger] r@[k] as int),
        forall|i: int|
            #![trigger downsample_selection(length as int, max_points as int, gaps@).contains(i)]
            downsample_selection(length as int, max_points as int, gaps@).contains(i) ==> exists|
                k: int,
            |
                0 <= k < r@.len() && r@[k] as int == i,
        length > 0 ==> r@.len() == downsample_target(length as int, max_points as int, gaps@),
        length == 0 ==> r@.len() == 0,
{
    if length == 0 {
        return Vec::new();
    }
    let ghost len = length as int;
    let mut selected: BTreeSet<usize> = BTreeSet::new();
    let ghost mut chosen: Set<int> = Set::empty();
    let mut count: usize = 0;
    proof {
        lemma_int_range(0, len);
    }
    // Endpoints.
    selected.insert(0);
    count = 1;
    proof {
        chosen = chosen.insert(0);
    }
    if selected.insert(length - 1) {
        count = count + 1;
        proof {
            chosen = chosen.insert(len - 1);
        }
    }
    // Both sides of every gap.
    let mut g: usize = 0;
    while g < gaps.len()
        invariant
            length >= 1,
            len == length,
            forall|u: usize| #[trigger] selected@.contains(u) ==> u < length,
            gaps_in_range(len, gaps@),
            g <= gaps@.len(),
            chosen.finite(),
            chosen.subset_of(set_int_range(0, len)),
            set_int_range(0, len).finite(),
            set_int_range(0, len).len() == len,
            count == chosen.len(),
            count >= 1,
            length >= 2 ==> count >= 2,
            forall|j: int| 0 <= j < len ==> (selected@.contains(j as usize) <==> chosen.contains(j)),
            chosen =~= Set::new(
                |x: int|
                    x == 0 || x == len - 1 || exists|k: int|
                        0 <= k < g && (x == gaps@[k].0 || x == gaps@[k].0 + 1),
            ),
        decreases gaps.len() - g,
    {
        let at = gaps[g].0;
        assert(gaps@[g as int].0 + 1 < len);
        if selected.insert(at) {
            proof {
                lemma_len_subset(chosen.insert(at as int), set_int_range(0, len));
            }
            count = count + 1;
            proof {
                chosen = chosen.insert(at as int);
            }
        }
        if selected.insert(at + 1) {
            proof {
                lemma_len_subset(chosen.insert(at + 1), set_int_range(0, len));
            }
            count = count + 1;
            proof {
                chosen = chosen.insert(at + 1);
            }
        }
        proof {
            assert forall|x: int|
                (x == 0 || x == len - 1 || exists|k: int|
                    0 <= k < g + 1 && (x == gaps@[k].0 || x == gaps@[k].0 + 1)) implies chosen.contains(
                x,
            ) by {
                if x != 0 && x != len - 1 {
                    let k = choose|k: int|
                        0 <= k < g + 1 && (x == gaps@[k].0 || x == gaps@[k].0 + 1);
                    if k < g {
                        assert(exists|k2: int|
                            0 <= k2 < g && (x == gaps@[k2].0 || x == gaps@[k2].0 + 1));
                    }
                }
            }
            assert forall|x: int| chosen.contains(x) implies (x == 0 || x == len - 1 || exists|
                k: int,
            | 0 <= k < g + 1 && (x == gaps@[k].0 || x == gaps@[k].0 + 1)) by {
                if x != 0 && x != len - 1 && x != at && x != at + 1 {
                    let k = choose|k: int|
                        0 <= k < g && (x == gaps@[k].0 || x == gaps@[k].0 + 1);
                    assert(0 <= k < g + 1);
                }
                if x == at || x == at + 1 {
                    assert(0 <= g < g + 1);
                }
            }
        }
        g = g + 1;
    }
    proof {
        assert(chosen =~= required_indices(len, gaps@));
        lemma_required_finite(len, gaps@);
        lemma_len_subset(chosen, set_int_range(0, len));
    }
    let ghost required = chosen;
    let wanted = if max_points > count {
        max_points
    } else {
        count
    };
    let target = if wanted < length {
        wanted
    } else {
        length
    };
    assert(target == downsample_target(len, max_points as int, gaps@));
    if count < target {
        // count >= 2 here: both endpoints differ because length >= 2.
        let candidates = target - 2;
        let mut slot: usize = 1;
        proof {
            if len == 1 {
                assert(target <= 1);
            }
            assert(required.contains(0) && required.contains(len - 1));
        }
        while slot <= candidates && count < target
            invariant
                len == length,
                length >= 2,
                target <= length,
                candidates + 2 == target,
                1 <= slot <= candidates + 1,
                forall|u: usize| #[trigger] selected@.contains(u) ==> u < length,
                chosen.finite(),
                chosen.subset_of(set_int_range(0, len)),
                count == chosen.len(),
                count <= target,
                forall|j: int| 0 <= j < len ==> (selected@.contains(j as usize) <==> chosen.contains(j)),
                fill_slots(required, 1, candidates as int, len, target as int) == fill_slots(
                    chosen,
                    slot as int,
                    candidates as int,
                    len,
                    target as int,
                ),
            decreases candidates + 1 - slot,
        {
            proof {
                lemma_slot_position_in_range(slot as int, candidates as int, len);
            }
            assert((slot as int) * ((length - 1) as int) <= (usize::MAX as int) * (usize::MAX as int)) by (nonlinear_arith)
                requires
                    slot <= length,
                    length <= usize::MAX,
            ;
            assert((usize::MAX as int) * (usize::MAX as int) + usize::MAX <= u128::MAX) by (nonlinear_arith)
                requires
                    usize::MAX <= u64::MAX,
            ;
            let wide = (slot as u128) * ((length - 1) as u128) + ((candidates / 2) as u128);
            let position = (wide / ((candidates + 1) as u128)) as usize;
            assert(position as int == slot_position(slot as int, candidates as int, len));
            if selected.insert(position) {
                count = count + 1;
                proof {
                    chosen = chosen.insert(position as int);
                }
            } else {
                assert(chosen.insert(position as int) =~= chosen);
            }
            slot = slot + 1;
        }
        let ghost after_slots = chosen;
        proof {
            assert(fill_slots(required, 1, candidates as int, len, target as int) == after_slots);
        }
        let mut index: usize = 0;
        while index < length && count < target
            invariant
                len == length,
                target <= length,
                index <= length,
                forall|u: usize| #[trigger] selected@.contains(u) ==> u < length,
                chosen.finite(),
                chosen.subset_of(set_int_range(0, len)),
                count == chosen.len(),
                forall|j: int| 0 <= j < len ==> (selected@.contains(j as usize) <==> chosen.contains(j)),
                fill_front(after_slots, 0, len, target as int) == fill_front(
                    chosen,
                    index as int,
                    len,
                    target as int,
                ),
            decreases length - index,
        {
            if selected.insert(index) {
                count = count + 1;
                proof {
                    chosen = chosen.insert(index as int);
                }
            } else {
                assert(chosen.insert(index as int) =~= chosen);
            }
            index = index + 1;
        }
    }
    proof {
        assert(chosen == downsample_selection(len, max_points as int, gaps@));
        lemma_downsample_keeps_anchors(len, max_points as int, gaps@);
    }
    // Collect the selected positions in increasing order.
    let ghost keys = spec_btree_keys_iter(&selected).remaining();
    proof {
        lemma_keys_increase(keys);
    }
    let mut out: Vec<usize> = Vec::new();
    for x in it: selected.iter()
        invariant
            it.seq() == keys,
            out@.len() == it.index(),
            forall|k: int| 0 <= k < it.index() ==> out@[k] == *keys[k],
    {
        out.push(*x);
    }
    let ghost sel = chosen;
    proof {
        assert(out@.len() == keys.len());
        assert forall|a: int, b: int| 0 <= a < b < out@.len() implies out@[a] < out@[b] by {
            assert(out@[a] == *keys[a] && out@[b] == *keys[b]);
        }
        assert(keys.unref().to_set() == selected@);
        assert forall|k: int| 0 <= k < out@.len() implies sel.contains(#[trigger] out@[k] as int) by {
            assert(keys.unref()[k] == out@[k]);
            assert(keys.unref().to_set().contains(out@[k]));
        }
        assert forall|i: int| sel.contains(i) implies exists|k: int| 0 <= k < out@.len() && out@[k] as int == i by {
            assert(sel.subset_of(set_int_range(0, len)));
            assert(selected@.contains(i as usize));
            assert(keys.unref().to_set().contains(i as usize));
            let k = choose|k: int| 0 <= k < keys.unref().len() && keys.unref()[k] == i as usize;
            assert(out@[k] == *keys[k]);
        }
        let as_int = out@.map_values(|x: usize| x as int);
        assert forall|a: int, b: int| 0 <= a < as_int.len() && 0 <= b < as_int.len() && a != b implies as_int[a] != as_int[b] by {
            if a < b {
                assert(out@[a] < out@[b]);
            } else {
                assert(out@[b] < out@[a]);
            }
        }
        assert(as_int.no_duplicates());
        as_int.unique_seq_to_set();
        assert forall|x: int| as_int.to_set().contains(x) <==> sel.contains(x) by {
            if sel.contains(x) {
                let k = choose|k: int| 0 <= k < out@.len() && out@[k] as int == x;
                assert(as_int[k] == x);
            }
            if as_int.to_set().contains(x) {
                let k = choose|k: int| 0 <= k < as_int.len() && as_int[k] == x;
                assert(sel.contains(out@[k] as int));
            }
        }
        assert(as_int.to_set() =~= sel);
    }
    out
}

} // verus!

verus! {

// ---------------------------------------------------------------------------
// Session segmentation
// ---------------------------------------------------------------------------

/// What session reconstruction needs to know about one stored sample, in
/// storage order (by battery, then by collection time).
#[derive(Clone, Debug)]
pub struct SessionRow {
    /// Physical battery identifier.
    pub battery_id: String,
    /// Linux boot identity at collection time.
    pub boot_id: String,
    /// Normalized state at collection time.
    pub state: SampleState,
    /// Whether the interval from the previous row is an observed, contiguous
    /// one (same boot, forward in both clocks, within the continuity limit).
    pub contiguous_with_previous: bool,
}

/// One derived session: the rows `start..end` of the input.
#[derive(Clone, Copy, Debug, PartialEq, Eq, Structural)]
pub struct SessionSegment {
    /// First row of the session.
    pub start: usize,
    /// One past the last row of the session.
    pub end: usize,
    /// The activity of the session.
    pub kind: BatterySessionKind,
    /// True only when a following observed sample established a state change.
    pub complete: bool,
    /// Why the session ended.
    pub interrupt_reason: SessionInterruptReason,
}

/// Why a session must end between rows `i - 1` and `i`, if it must.
pub open spec fn session_boundary(rows: Seq<SessionRow>, i: int) -> Option<SessionInterruptReason> {
    if rows[i].battery_id@ != rows[i - 1].battery_id@ {
        Some(SessionInterruptReason::DataEnded)
    } else if rows[i].boot_id@ != rows[i - 1].boot_id@ {
        Some(SessionInterruptReason::BootChanged)
    } else if !rows[i].contiguous_with_previous {
        Some(SessionInterruptReason::SampleGap)
    } else if rows[i].state != rows[i - 1].state {
        Some(SessionInterruptReason::StateChanged)
    } else {
        None
    }
}

/// `segments` partitions the rows into sessions exactly at the boundaries,
/// each tagged with its kind, completeness and ending reason.
pub open spec fn sessions_of(rows: Seq<SessionRow>, segments: Seq<SessionSegment>) -> bool {
    &&& rows.len() == 0 ==> segments.len() == 0
    &&& rows.len() > 0 ==> segments.len() > 0 && segments[0].start == 0 && segments.last().end
        == rows.len()
    &&& forall|k: int|
        0 <= k < segments.len() - 1 ==> #[trigger] segments[k].end == segments[k + 1].start
    &&& forall|k: int|
        #![trigger segments[k]]
        0 <= k < segments.len() ==> {
            let seg = segments[k];
            &&& seg.start < seg.end <= rows.len()
            &&& forall|i: int| seg.start < i < seg.end ==> session_boundary(rows, i) is None
            &&& seg.end < rows.len() ==> session_boundary(rows, seg.end as int) == Some(
                seg.interrupt_reason,
            )
            &&& seg.end == rows.len() ==> seg.interrupt_reason == SessionInterruptReason::DataEnded
            &&& seg.kind == spec_session_kind(rows[seg.start as int].state)
            &&& seg.complete == (seg.interrupt_reason == SessionInterruptReason::StateChanged)
        }
}

fn boundary(rows: &[SessionRow], i: usize) -> (r: Option<SessionInterruptReason>)
    requires
        1 <= i < rows@.len(),
    ensures
        r == session_boundary(rows@, i as int),
{
    let current = &rows[i];
    let previous = &rows[i - 1];
    if !current.battery_id.eq(&previous.battery_id) {
        Some(SessionInterruptReason::DataEnded)
    } else if !current.boot_id.eq(&previous.boot_id) {
        Some(SessionInterruptReason::BootChanged)
    } else if !current.contiguous_with_previous {
        Some(SessionInterruptReason::SampleGap)
    } else if current.state != previous.state {
        Some(SessionInterruptReason::StateChanged)
    } else {
        None
    }
}

/// Splits stored samples into sessions. A session never spans two
/// batteries, two boots, a sampling gap or a state change; the session
/// before a state change is complete, every other one records why it was
/// cut short.
pub fn session_segments(rows: &[SessionRow]) -> (r: Vec<SessionSegment>)
    ensures
        sessions_of(rows@, r@),
{
    let mut out: Vec<SessionSegment> = Vec::new();
    if rows.len() == 0 {
        return out;
    }
    let mut start: usize = 0;
    let mut i: usize = 1;
    while i < rows.len()
        invariant
            rows@.len() > 0,
            start < i <= rows@.len(),
            forall|j: int| start < j < i ==> session_boundary(rows@, j) is None,
            out@.len() > 0 ==> out@.last().end == start,
            out@.len() == 0 ==> start == 0,
            forall|k: int|
                0 <= k < out@.len() - 1 ==> #[trigger] out@[k].end == out@[k + 1].start,
            forall|k: int|
                #![trigger out@[k]]
                0 <= k < out@.len() ==> {
                    let seg = out@[k];
                    &&& seg.start < seg.end <= start
                    &&& forall|j: int| seg.start < j < seg.end ==> session_boundary(rows@, j) is None
                    &&& session_boundary(rows@, seg.end as int) == Some(seg.interrupt_reason)
                    &&& seg.kind == spec_session_kind(rows@[seg.start as int].state)
                    &&& seg.complete == (seg.interrupt_reason
                        == SessionInterruptReason::StateChanged)
                },
            out@.len() > 0 ==> out@[0].start == 0,
        decreases rows.len() - i,
    {
        match boundary(rows, i) {
            Some(reason) => {
                let kind = session_kind(rows[start].state);
                let complete = match reason {
                    SessionInterruptReason::StateChanged => true,
                    _ => false,
                };
                out.push(SessionSegment { start, end: i, kind, complete, interrupt_reason: reason });
                start = i;
            },
            None => {},
        }
        i = i + 1;
    }
    let kind = session_kind(rows[start].state);
    out.push(
        SessionSegment {
            start,
            end: rows.len(),
            kind,
            complete: false,
            interrupt_reason: SessionInterruptReason::DataEnded,
        },
    );
    out
}

/// Every row of a session shares the session's battery, boot and state, and
/// every later row was contiguous with its predecessor: sessions never bridge
/// a battery change, a reboot, a sampling gap or a state change.
pub proof fn lemma_session_rows_agree(
    rows: Seq<SessionRow>,
    segments: Seq<SessionSegment>,
    k: int,
    i: int,
)
    requires
        sessions_of(rows, segments),
        0 <= k < segments.len(),
        segments[k].start <= i < segments[k].end,
    ensures
        rows[i].battery_id@ == rows[segments[k].start as int].battery_id@,
        rows[i].boot_id@ == rows[segments[k].start as int].boot_id@,
        rows[i].state == rows[segments[k].start as int].state,
        i > segments[k].start ==> rows[i].contiguous_with_previous,
    decreases i - segments[k].start,
{
    let seg = segments[k];
    if i > seg.start {
        assert(session_boundary(rows, i) is None);
        lemma_session_rows_agree(rows, segments, k, i - 1);
    }
}

/// Why a session ends, read off the rows on either side of its end: a
/// change of battery ends the data of that battery, a reboot a boot, an
/// interval that was not observed contiguously a sampling gap, and only a
/// contiguous observation in another state ends it complete. A session that
/// runs to the end of the rows is never complete.
pub proof fn lemma_session_end_reason(rows: Seq<SessionRow>, segments: Seq<SessionSegment>, k: int)
    requires
        sessions_of(rows, segments),
        0 <= k < segments.len(),
    ensures
        ({
            let e = segments[k].end as int;
            let reason = segments[k].interrupt_reason;
            &&& segments[k].complete ==> {
                &&& 0 < e < rows.len()
                &&& rows[e].battery_id@ == rows[e - 1].battery_id@
                &&& rows[e].boot_id@ == rows[e - 1].boot_id@
                &&& rows[e].contiguous_with_previous
                &&& rows[e].state != rows[e - 1].state
            }
            &&& e == rows.len() ==> !segments[k].complete
            &&& e < rows.len() && rows[e].battery_id@ != rows[e - 1].battery_id@ ==> reason
                == SessionInterruptReason::DataEnded
            &&& e < rows.len() && rows[e].battery_id@ == rows[e - 1].battery_id@
                && rows[e].boot_id@ != rows[e - 1].boot_id@ ==> reason
                == SessionInterruptReason::BootChanged
            &&& e < rows.len() && rows[e].battery_id@ == rows[e - 1].battery_id@
                && rows[e].boot_id@ == rows[e - 1].boot_id@ && !rows[e].contiguous_with_previous
                ==> reason == SessionInterruptReason::SampleGap && !segments[k].complete
        }),
{
    let seg = segments[k];
    assert(seg.start < seg.end <= rows.len());
}

} // verus!

verus! {

// ---------------------------------------------------------------------------
// History gaps
// ---------------------------------------------------------------------------

/// What gap detection needs to know about one stored sample of a history
/// read, in collection-time order.
#[derive(Clone, Debug)]
pub struct HistoryRow {
    /// Physical battery identifier.
    pub battery_id: String,
    /// RFC 3339 collection time as stored.
    pub recorded_at: String,
    /// Linux boot identity at collection time.
    pub boot_id: String,
}

/// Row `j` is the next row after `i` from the same battery.
pub open spec fn is_next_of_battery(rows: Seq<HistoryRow>, i: int, j: int) -> bool {
    &&& 0 <= i < j < rows.len()
    &&& rows[j].battery_id@ == rows[i].battery_id@
    &&& forall|k: int| i < k < j ==> rows[k].battery_id@ != rows[i].battery_id@
}

/// Whether no later row belongs to the battery of row `i`.
pub open spec fn is_last_of_battery(rows: Seq<HistoryRow>, i: int) -> bool {
    forall|k: int| i < k < rows.len() ==> rows[k].battery_id@ != rows[i].battery_id@
}

/// For every row, the next row from the same battery, if there is one.
pub fn next_of_battery(rows: &[HistoryRow]) -> (r: Vec<Option<usize>>)
    ensures
        r@.len() == rows@.len(),
        forall|i: int|
            0 <= i < rows@.len() ==> match #[trigger] r@[i] {
                Some(j) => is_next_of_battery(rows@, i, j as int),
                None => is_last_of_battery(rows@, i),
            },
{
    let mut out: Vec<Option<usize>> = Vec::new();
    let mut i: usize = 0;
    while i < rows.len()
        invariant
            i <= rows@.len(),
            out@.len() == i,
            forall|x: int|
                0 <= x < i ==> match #[trigger] out@[x] {
                    Some(j) => is_next_of_battery(rows@, x, j as int),
                    None => is_last_of_battery(rows@, x),
                },
        decreases rows.len() - i,
    {
        let mut j: usize = i + 1;
        while j < rows.len() && !rows[j].battery_id.eq(&rows[i].battery_id)
            invariant
                i < rows@.len(),
                i + 1 <= j <= rows@.len(),
                forall|k: int| i < k < j ==> rows@[k].battery_id@ != rows@[i as int].battery_id@,
            decreases rows.len() - j,
        {
            j = j + 1;
        }
        let found = if j < rows.len() {
            Some(j)
        } else {
            None
        };
        out.push(found);
        i = i + 1;
    }
    out
}

/// The gap, if any, between row `i` and the next row `j` of its battery:
/// a boot change, or else an interval that was not observed contiguously.
pub open spec fn gap_reason(rows: Seq<HistoryRow>, i: int, j: int, interval_known: bool) -> Option<
    HistoryGapReason,
> {
    if rows[i].boot_id@ != rows[j].boot_id@ {
        Some(HistoryGapReason::BootChanged)
    } else if !interval_known {
        Some(HistoryGapReason::SampleIntervalExceeded)
    } else {
        None
    }
}

/// `entry` records a real gap after row `entry.0`, naming both timestamps.
pub open spec fn is_gap_entry(
    rows: Seq<HistoryRow>,
    interval_known: Seq<bool>,
    entry: (usize, HistoryGap),
) -> bool {
    exists|j: int|
        is_next_of_battery(rows, entry.0 as int, j) && gap_reason(
            rows,
            entry.0 as int,
            j,
            interval_known[entry.0 as int],
        ) == Some(entry.1.reason) && entry.1.from@ == rows[entry.0 as int].recorded_at@
            && entry.1.to@ == rows[j].recorded_at@
}

/// A reported gap lies between a row and the next row of its battery and
/// names both of their timestamps; it is a boot change exactly when the two
/// rows come from different boots, whatever the interval check said, and a
/// missed sample interval only within one boot whose interval was not
/// observed contiguously.
pub proof fn lemma_gap_reason_follows_boot(
    rows: Seq<HistoryRow>,
    interval_known: Seq<bool>,
    entry: (usize, HistoryGap),
)
    requires
        is_gap_entry(rows, interval_known, entry),
    ensures
        exists|j: int|
            #![trigger rows[j]]
            {
                &&& is_next_of_battery(rows, entry.0 as int, j)
                &&& entry.1.from@ == rows[entry.0 as int].recorded_at@
                &&& entry.1.to@ == rows[j].recorded_at@
                &&& (entry.1.reason == HistoryGapReason::BootChanged <==> rows[entry.0 as int].boot_id@
                    != rows[j].boot_id@)
                &&& (entry.1.reason == HistoryGapReason::SampleIntervalExceeded ==> rows[entry.0 as int].boot_id@
                    == rows[j].boot_id@ && !interval_known[entry.0 as int])
            },
{
    let j = choose|j: int|
        is_next_of_battery(rows, entry.0 as int, j) && gap_reason(
            rows,
            entry.0 as int,
            j,
            interval_known[entry.0 as int],
        ) == Some(entry.1.reason) && entry.1.from@ == rows[entry.0 as int].recorded_at@
            && entry.1.to@ == rows[j].recorded_at@;
    assert(entry.1.to@ == rows[j].recorded_at@);
}

/// Finds every discontinuity between consecutive observations of the same
/// battery. `interval_known[i]` says whether the interval from row `i` to
/// the next row of its battery was observed contiguously. Gaps come in
/// increasing order of the row before them, each naming both timestamps.
pub fn history_gaps(rows: &[HistoryRow], interval_known: &[bool]) -> (r: Vec<(usize, HistoryGap)>)
    requires
        interval_known@.len() == rows@.len(),
    ensures
        forall|a: int, b: int| 0 <= a < b < r@.len() ==> r@[a].0 < r@[b].0,
        forall|k: int| 0 <= k < r@.len() ==> is_gap_entry(rows@, interval_known@, #[trigger] r@[k]),
        forall|i: int, j: int|
            is_next_of_battery(rows@, i, j) && gap_reason(rows@, i, j, interval_known@[i]) is Some
                ==> exists|k: int| 0 <= k < r@.len() && r@[k].0 == i,
{
    let next = next_of_battery(rows);
    let mut out: Vec<(usize, HistoryGap)> = Vec::new();
    let mut i: usize = 0;
    while i < rows.len()
        invariant
            i <= rows@.len(),
            next@.len() == rows@.len(),
            interval_known@.len() == rows@.len(),
            forall|x: int|
                0 <= x < rows@.len() ==> match #[trigger] next@[x] {
                    Some(j) => is_next_of_battery(rows@, x, j as int),
                    None => is_last_of_battery(rows@, x),
                },
            forall|a: int, b: int| 0 <= a < b < out@.len() ==> out@[a].0 < out@[b].0,
            forall|k: int| 0 <= k < out@.len() ==> out@[k].0 < i,
            forall|k: int|
                0 <= k < out@.len() ==> is_gap_entry(rows@, interval_known@, #[trigger] out@[k]),
            forall|x: int, j: int|
                0 <= x < i && is_next_of_battery(rows@, x, j) && gap_reason(
                    rows@,
                    x,
                    j,
                    interval_known@[x],
                ) is Some ==> exists|k: int| 0 <= k < out@.len() && out@[k].0 == x,
        decreases rows.len() - i,
    {
        let ghost prev = out@;
        match next[i] {
            Some(j) => {
                let reason = if !rows[i].boot_id.eq(&rows[j].boot_id) {
                    Some(HistoryGapReason::BootChanged)
                } else if !interval_known[i] {
                    Some(HistoryGapReason::SampleIntervalExceeded)
                } else {
                    None
                };
                match reason {
                    Some(reason) => {
                        let gap = HistoryGap {
                            from: rows[i].recorded_at.clone(),
                            to: rows[j].recorded_at.clone(),
                            reason,
                        };
                        out.push((i, gap));
                        proof {
                            assert(out@[out@.len() - 1].0 == i);
                            assert(is_gap_entry(rows@, interval_known@, out@[out@.len() - 1])) by {
                                assert(is_next_of_battery(rows@, i as int, j as int));
                            }
                            assert forall|k: int|
                                0 <= k < out@.len() implies is_gap_entry(
                                rows@,
                                interval_known@,
                                #[trigger] out@[k],
                            ) by {
                                if k < prev.len() {
                                    assert(out@[k] == prev[k]);
                                }
                            }
                            assert forall|x: int, j2: int|
                                0 <= x < i + 1 && is_next_of_battery(rows@, x, j2) && gap_reason(
                                    rows@,
                                    x,
                                    j2,
                                    interval_known@[x],
                                ) is Some implies exists|k: int|
                                0 <= k < out@.len() && out@[k].0 == x by {
                                if x < i {
                                    let k = choose|k: int| 0 <= k < prev.len() && prev[k].0 == x;
                                    assert(out@[k] == prev[k]);
                                } else {
                                    assert(out@[out@.len() - 1].0 == x);
                                }
                            }
                        }
                    },
                    None => {
                        proof {
                            assert forall|x: int, j2: int|
                                0 <= x < i + 1 && is_next_of_battery(rows@, x, j2) && gap_reason(
                                    rows@,
                                    x,
                                    j2,
                                    interval_known@[x],
                                ) is Some implies exists|k: int|
                                0 <= k < out@.len() && out@[k].0 == x by {
                                if x == i {
                                    assert(is_next_of_battery(rows@, i as int, j as int));
                                    if j2 < j {
                                        assert(rows@[j2].battery_id@ != rows@[x].battery_id@);
                                    } else if j < j2 {
                                        assert(rows@[j as int].battery_id@ != rows@[x].battery_id@);
                                    }
                                }
                            }
                        }
                    },
                }
            },
            None => {
                proof {
                    assert forall|x: int, j2: int|
                        0 <= x < i + 1 && is_next_of_battery(rows@, x, j2) && gap_reason(
                            rows@,
                            x,
                            j2,
                            interval_known@[x],
                        ) is Some implies exists|k: int| 0 <= k < out@.len() && out@[k].0 == x by {
                        if x == i {
                            assert(is_last_of_battery(rows@, x));
                            assert(rows@[j2].battery_id@ != rows@[x].battery_id@);
                        }
                    }
                }
            },
        }
        i = i + 1;
    }
    out
}

} // verus!

verus! {

// ---------------------------------------------------------------------------
// Downsampling an aggregate history by collection instant
// ---------------------------------------------------------------------------

/// Whether row `x` opens a collection instant: the rows of one instant are
/// a maximal run of consecutive rows with the same timestamp.
pub open spec fn starts_instant(rows: Seq<HistoryRow>, x: int) -> bool {
    x == 0 || rows[x].recorded_at@ != rows[x - 1].recorded_at@
}

/// How many collection instants open among the first `count` rows.
pub open spec fn instants_upto(rows: Seq<HistoryRow>, count: nat) -> nat
    decreases count,
{
    if count == 0 {
        0
    } else {
        instants_upto(rows, (count - 1) as nat) + if starts_instant(rows, count - 1) {
            1nat
        } else {
            0nat
        }
    }
}

/// The position of row `x`'s collection instant among all instants.
pub open spec fn instant_index(rows: Seq<HistoryRow>, x: int) -> int {
    instants_upto(rows, (x + 1) as nat) - 1
}

/// The gaps of a history, each anchored at the instant of the row before it.
pub open spec fn instant_gaps(rows: Seq<HistoryRow>, gaps: Seq<(usize, HistoryGap)>) -> Seq<
    (usize, HistoryGap),
> {
    gaps.map_values(|g: (usize, HistoryGap)| (instant_index(rows, g.0 as int) as usize, g.1))
}

/// Every gap follows a row that a later instant comes after.
pub open spec fn gaps_before_later_instant(
    rows: Seq<HistoryRow>,
    gaps: Seq<(usize, HistoryGap)>,
) -> bool {
    forall|k: int|
        0 <= k < gaps.len() ==> #[trigger] gaps[k].0 < rows.len() && exists|m: int|
            gaps[k].0 < m < rows.len() && (#[trigger] rows[m]).recorded_at@ != rows[gaps[k].0 as int].recorded_at@
}

/// The instants an aggregate history keeps.
pub open spec fn instant_selection(
    rows: Seq<HistoryRow>,
    max_points: int,
    gaps: Seq<(usize, HistoryGap)>,
) -> Set<int> {
    downsample_selection(instants_upto(rows, rows.len()) as int, max_points, instant_gaps(rows, gaps))
}

proof fn lemma_instants_bounded(rows: Seq<HistoryRow>, count: nat)
    ensures
        instants_upto(rows, count) <= count,
        count > 0 ==> instants_upto(rows, count) >= 1,
    decreases count,
{
    if count > 0 {
        lemma_instants_bounded(rows, (count - 1) as nat);
    }
}

proof fn lemma_instants_monotone(rows: Seq<HistoryRow>, a: nat, b: nat)
    requires
        a <= b,
    ensures
        instants_upto(rows, a) <= instants_upto(rows, b),
    decreases b - a,
{
    if a < b {
        lemma_instants_monotone(rows, a, (b - 1) as nat);
    }
}

proof fn lemma_later_instant(rows: Seq<HistoryRow>, g: int, m: int)
    requires
        0 <= g < m < rows.len(),
        rows[m].recorded_at@ != rows[g].recorded_at@,
    ensures
        instant_index(rows, g) < instant_index(rows, m),
    decreases m - g,
{
    if rows[m].recorded_at@ != rows[m - 1].recorded_at@ {
        lemma_instants_monotone(rows, (g + 1) as nat, m as nat);
    } else {
        lemma_later_instant(rows, g, m - 1);
    }
}

proof fn lemma_selection_depends_on_anchors(
    length: int,
    max_points: int,
    a: Seq<(usize, HistoryGap)>,
    b: Seq<(usize, HistoryGap)>,
)
    requires
        a.len() == b.len(),
        forall|k: int| 0 <= k < a.len() ==> #[trigger] a[k].0 == b[k].0,
    ensures
        downsample_selection(length, max_points, a) == downsample_selection(length, max_points, b),
{
    assert(required_indices(length, a) =~= required_indices(length, b)) by {
        assert forall|i: int| required_indices(length, a).contains(i) implies required_indices(
            length,
            b,
        ).contains(i) by {
            if i != 0 && i != length - 1 {
                let k = choose|k: int| 0 <= k < a.len() && (i == a[k].0 || i == a[k].0 + 1);
                assert(b[k].0 == a[k].0);
            }
        }
        assert forall|i: int| required_indices(length, b).contains(i) implies required_indices(
            length,
            a,
        ).contains(i) by {
            if i != 0 && i != length - 1 {
                let k = choose|k: int| 0 <= k < b.len() && (i == b[k].0 || i == b[k].0 + 1);
                assert(b[k].0 == a[k].0);
            }
        }
    }
}

/// Rows of one collection instant share their instant's position, so an
/// aggregate history keeps or drops all batteries' rows of an instant
/// together.
pub proof fn lemma_instant_rows_share_index(rows: Seq<HistoryRow>, x: int, y: int)
    requires
        0 <= x <= y < rows.len(),
        forall|i: int| x <= i <= y ==> #[trigger] rows[i].recorded_at@ == rows[x].recorded_at@,
    ensures
        instant_index(rows, x) == instant_index(rows, y),
    decreases y - x,
{
    if x < y {
        lemma_instant_rows_share_index(rows, x, y - 1);
        assert(rows[y].recorded_at@ == rows[y - 1].recorded_at@);
    }
}

/// Chooses the rows of an aggregate history that a chart receives. Rows are
/// grouped by collection instant, so that one instant keeps every battery's
/// row; the instants are then chosen as [`downsample_indices`] chooses rows,
/// each gap anchored at the instant of the row before it.
pub fn downsample_timestamp_groups(
    rows: &[HistoryRow],
    max_points: usize,
    gaps: &[(usize, HistoryGap)],
) -> (r: Vec<usize>)
    requires
        gaps_before_later_instant(rows@, gaps@),
    ensures
        forall|a: int, b: int| 0 <= a < b < r@.len() ==> r@[a] < r@[b],
        forall|k: int|
            0 <= k < r@.len() ==> r@[k] < rows@.len() && instant_selection(
                rows@,
                max_points as int,
                gaps@,
            ).contains(instant_index(rows@, #[trigger] r@[k] as int)),
        forall|x: int|
            0 <= x < rows@.len() && instant_selection(rows@, max_points as int, gaps@).contains(
                #[trigger] instant_index(rows@, x),
            ) ==> exists|k: int| 0 <= k < r@.len() && r@[k] == x,
{
    let n = rows.len();
    if n == 0 {
        return Vec::new();
    }
    let mut group_of: Vec<usize> = Vec::new();
    let mut count: usize = 0;
    let mut x: usize = 0;
    while x < n
        invariant
            n == rows@.len(),
            x <= n,
            group_of@.len() == x,
            count == instants_upto(rows@, x as nat),
            forall|y: int| 0 <= y < x ==> #[trigger] group_of@[y] == instant_index(rows@, y),
        decreases n - x,
    {
        proof {
            lemma_instants_bounded(rows@, x as nat);
        }
        if x == 0 || !rows[x].recorded_at.eq(&rows[x - 1].recorded_at) {
            count = count + 1;
        }
        proof {
            lemma_instants_bounded(rows@, (x + 1) as nat);
        }
        group_of.push(count - 1);
        x = x + 1;
    }
    let mut group_gaps: Vec<(usize, HistoryGap)> = Vec::new();
    let mut k: usize = 0;
    while k < gaps.len()
        invariant
            n == rows@.len(),
            n > 0,
            group_of@.len() == n,
            count == instants_upto(rows@, n as nat),
            forall|y: int| 0 <= y < n ==> #[trigger] group_of@[y] == instant_index(rows@, y),
            gaps_before_later_instant(rows@, gaps@),
            k <= gaps@.len(),
            group_gaps@.len() == k,
            forall|j: int| 0 <= j < k ==> #[trigger] group_gaps@[j].0 == instant_index(rows@, gaps@[j].0 as int),
            forall|j: int| 0 <= j < k ==> #[trigger] group_gaps@[j].0 + 1 < count,
        decreases gaps.len() - k,
    {
        let anchor = gaps[k].0;
        proof {
            assert(gaps@[k as int].0 < rows@.len());
            let m = choose|m: int|
                anchor < m < rows@.len() && (#[trigger] rows@[m]).recorded_at@ != rows@[anchor as int].recorded_at@;
            lemma_later_instant(rows@, anchor as int, m);
            lemma_instants_monotone(rows@, (m + 1) as nat, n as nat);
        }
        group_gaps.push(
            (
                group_of[anchor],
                HistoryGap {
                    from: String::new(),
                    to: String::new(),
                    reason: HistoryGapReason::SampleIntervalExceeded,
                },
            ),
        );
        k = k + 1;
    }
    proof {
        let ig = instant_gaps(rows@, gaps@);
        assert forall|j: int| 0 <= j < group_gaps@.len() implies #[trigger] group_gaps@[j].0 == ig[j].0 by {
            assert(group_of@[gaps@[j].0 as int] == instant_index(rows@, gaps@[j].0 as int));
        }
        lemma_selection_depends_on_anchors(count as int, max_points as int, group_gaps@, ig);
        assert(gaps_in_range(count as int, group_gaps@));
    }
    let selected = downsample_indices(count, max_points, &group_gaps);
    let ghost sel = instant_selection(rows@, max_points as int, gaps@);
    proof {
        lemma_instants_bounded(rows@, n as nat);
        lemma_downsample_keeps_anchors(count as int, max_points as int, group_gaps@);
        assert forall|j: int| 0 <= j < selected@.len() implies #[trigger] selected@[j] < count by {
            assert(set_int_range(0, count as int).contains(selected@[j] as int));
        }
    }
    let mut mask: Vec<bool> = Vec::new();
    let mut g: usize = 0;
    while g < count
        invariant
            g <= count,
            mask@.len() == g,
            forall|j: int| 0 <= j < g ==> !(#[trigger] mask@[j]),
        decreases count - g,
    {
        mask.push(false);
        g = g + 1;
    }
    let mut s: usize = 0;
    while s < selected.len()
        invariant
            mask@.len() == count,
            s <= selected@.len(),
            forall|j: int| 0 <= j < selected@.len() ==> sel.contains(#[trigger] selected@[j] as int),
            forall|i: int| #![trigger sel.contains(i)] sel.contains(i) ==> exists|j: int| 0 <= j < selected@.len() && selected@[j] as int == i,
            forall|i: int| 0 <= i < count ==> (#[trigger] mask@[i] <==> exists|j: int| 0 <= j < s && selected@[j] as int == i),
            forall|j: int| 0 <= j < selected@.len() ==> #[trigger] selected@[j] < count,
        decreases selected.len() - s,
    {
        let at = selected[s];
        mask.set(at, true);
        proof {
            assert forall|i: int| 0 <= i < count implies (#[trigger] mask@[i] <==> exists|j: int| 0 <= j < s + 1 && selected@[j] as int == i) by {
                if i == at {
                    assert(selected@[s as int] as int == i);
                }
            }
        }
        s = s + 1;
    }
    proof {
        assert forall|y: int| 0 <= y < n implies #[trigger] group_of@[y] < count by {
            lemma_instants_monotone(rows@, (y + 1) as nat, n as nat);
        }
        assert forall|i: int| 0 <= i < count implies (#[trigger] mask@[i] <==> sel.contains(i)) by {
            if sel.contains(i) {
                let j = choose|j: int| 0 <= j < selected@.len() && selected@[j] as int == i;
            }
        }
    }
    let mut out: Vec<usize> = Vec::new();
    let mut x: usize = 0;
    while x < n
        invariant
            n == rows@.len(),
            x <= n,
            group_of@.len() == n,
            mask@.len() == count,
            count == instants_upto(rows@, n as nat),
            forall|y: int| 0 <= y < n ==> #[trigger] group_of@[y] == instant_index(rows@, y),
            forall|y: int| 0 <= y < n ==> #[trigger] group_of@[y] < count,
            forall|i: int| 0 <= i < count ==> (#[trigger] mask@[i] <==> sel.contains(i)),
            forall|a: int, b: int| 0 <= a < b < out@.len() ==> out@[a] < out@[b],
            forall|j: int| 0 <= j < out@.len() ==> #[trigger] out@[j] < x,
            forall|j: int| 0 <= j < out@.len() ==> sel.contains(instant_index(rows@, #[trigger] out@[j] as int)),
            forall|y: int|
                0 <= y < x && sel.contains(#[trigger] instant_index(rows@, y)) ==> exists|j: int|
                    0 <= j < out@.len() && out@[j] == y,
        decreases n - x,
    {
        let ghost old_out = out@;
        if mask[group_of[x]] {
            out.push(x);
            proof {
                assert(out@[out@.len() - 1] == x);
            }
        }
        proof {
            assert forall|y: int|
                0 <= y < x + 1 && sel.contains(#[trigger] instant_index(rows@, y)) implies exists|j: int|
                    0 <= j < out@.len() && out@[j] == y by {
                if y == x {
                    assert(group_of@[y] == instant_index(rows@, y));
                    assert(mask@[group_of@[y] as int]);
                    assert(out@[out@.len() - 1] == x);
                } else {
                    let j = choose|j: int| 0 <= j < old_out.len() && old_out[j] == y;
                    assert(out@[j] == old_out[j]);
                }
            }
        }
        x = x + 1;
    }
    out
}

} // verus!

verus! {

// ---------------------------------------------------------------------------
// Chart timeline
// ---------------------------------------------------------------------------

/// One entry of a chart timeline: a kept row, or a gap (by its position in
/// the history's gap list) across which the chart must break its line.
#[derive(Clone, Copy, Debug, PartialEq, Eq, Structural)]
pub enum TimelineSlot {
    /// The row at this index of the history.
    Sample(usize),
    /// The gap at this index of the history's gaps.
    Gap(usize),
}

/// One past the last row of row `i`'s collection instant.
pub open spec fn instant_end(rows: Seq<HistoryRow>, i: int) -> int
    decreases rows.len() - i,
{
    if i + 1 >= rows.len() || rows[i + 1].recorded_at@ != rows[i].recorded_at@ {
        i + 1
    } else {
        instant_end(rows, i + 1)
    }
}

/// Whether a gap found after row `anchor` is drawn after row `row`: after
/// the row itself for one battery, and after the whole collection instant
/// of the row for an aggregate history.
pub open spec fn gap_follows(rows: Seq<HistoryRow>, aggregate: bool, anchor: int, row: int) -> bool {
    if aggregate {
        instant_end(rows, anchor) - 1 == row
    } else {
        anchor == row
    }
}

/// Whether gaps may be drawn after row `row`: always for one battery, and
/// for an aggregate history only after the last row of an instant.
pub open spec fn closes_instant(rows: Seq<HistoryRow>, aggregate: bool, row: int) -> bool {
    !aggregate || instant_end(rows, row) == row + 1
}

/// The gaps, among the first `count`, drawn after row `row`, in list order.
pub open spec fn gaps_after(
    rows: Seq<HistoryRow>,
    gaps: Seq<(usize, HistoryGap)>,
    aggregate: bool,
    row: int,
    count: nat,
) -> Seq<TimelineSlot>
    decreases count,
{
    if count == 0 {
        Seq::empty()
    } else {
        gaps_after(rows, gaps, aggregate, row, (count - 1) as nat) + if gap_follows(
            rows,
            aggregate,
            gaps[count - 1].0 as int,
            row,
        ) {
            seq![TimelineSlot::Gap((count - 1) as usize)]
        } else {
            Seq::empty()
        }
    }
}

/// A kept row followed by the gaps drawn after it.
pub open spec fn row_slots(
    rows: Seq<HistoryRow>,
    gaps: Seq<(usize, HistoryGap)>,
    aggregate: bool,
    row: int,
) -> Seq<TimelineSlot> {
    seq![TimelineSlot::Sample(row as usize)] + if closes_instant(rows, aggregate, row) {
        gaps_after(rows, gaps, aggregate, row, gaps.len())
    } else {
        Seq::empty()
    }
}

/// The chart timeline of the kept rows `selected`, in order.
pub open spec fn timeline_of(
    rows: Seq<HistoryRow>,
    selected: Seq<usize>,
    gaps: Seq<(usize, HistoryGap)>,
    aggregate: bool,
) -> Seq<TimelineSlot>
    decreases selected.len(),
{
    if selected.len() == 0 {
        Seq::empty()
    } else {
        timeline_of(rows, selected.drop_last(), gaps, aggregate) + row_slots(
            rows,
            gaps,
            aggregate,
            selected.last() as int,
        )
    }
}

/// One past the last row of row `start`'s collection instant.
pub fn timestamp_group_end(rows: &[HistoryRow], start: usize) -> (r: usize)
    requires
        start < rows@.len(),
    ensures
        r == instant_end(rows@, start as int),
        start < r <= rows@.len(),
{
    let n = rows.len();
    let mut end: usize = start + 1;
    while end < rows.len() && rows[end].recorded_at.eq(&rows[start].recorded_at)
        invariant
            start < end <= rows@.len(),
            forall|k: int| start <= k < end ==> #[trigger] rows@[k].recorded_at@ == rows@[start as int].recorded_at@,
            instant_end(rows@, start as int) == instant_end(rows@, end - 1),
        decreases rows.len() - end,
    {
        end = end + 1;
    }
    end
}

/// Orders a chart timeline: each kept row, then the gaps drawn after it.
/// For one battery a gap follows the row before it; for an aggregate history
/// it follows the whole collection instant of that row, so that no battery's
/// row of an instant is separated from the others by a gap.
pub fn timeline_slots(
    rows: &[HistoryRow],
    selected: &[usize],
    gaps: &[(usize, HistoryGap)],
    aggregate: bool,
) -> (r: Vec<TimelineSlot>)
    requires
        forall|k: int| 0 <= k < selected@.len() ==> #[trigger] selected@[k] < rows@.len(),
        forall|k: int| 0 <= k < gaps@.len() ==> #[trigger] gaps@[k].0 < rows@.len(),
    ensures
        r@ == timeline_of(rows@, selected@, gaps@, aggregate),
{
    let mut out: Vec<TimelineSlot> = Vec::new();
    let mut s: usize = 0;
    while s < selected.len()
        invariant
            s <= selected@.len(),
            forall|k: int| 0 <= k < selected@.len() ==> #[trigger] selected@[k] < rows@.len(),
            forall|k: int| 0 <= k < gaps@.len() ==> #[trigger] gaps@[k].0 < rows@.len(),
            out@ == timeline_of(rows@, selected@.take(s as int), gaps@, aggregate),
        decreases selected.len() - s,
    {
        let row = selected[s];
        let n = rows.len();
        assert(row < n);
        let ghost before = out@;
        out.push(TimelineSlot::Sample(row));
        let closes = if aggregate {
            timestamp_group_end(rows, row) == row + 1
        } else {
            true
        };
        if closes {
            let mut k: usize = 0;
            while k < gaps.len()
                invariant
                    k <= gaps@.len(),
                    row < rows@.len(),
                    forall|j: int| 0 <= j < gaps@.len() ==> #[trigger] gaps@[j].0 < rows@.len(),
                    out@ == before + seq![TimelineSlot::Sample(row)] + gaps_after(
                        rows@,
                        gaps@,
                        aggregate,
                        row as int,
                        k as nat,
                    ),
                decreases gaps.len() - k,
            {
                let anchor = gaps[k].0;
                let follows = if aggregate {
                    timestamp_group_end(rows, anchor) - 1 == row
                } else {
                    anchor == row
                };
                if follows {
                    out.push(TimelineSlot::Gap(k));
                }
                proof {
                    assert(out@ =~= before + seq![TimelineSlot::Sample(row)] + gaps_after(
                        rows@,
                        gaps@,
                        aggregate,
                        row as int,
                        (k + 1) as nat,
                    ));
                }
                k = k + 1;
            }
        }
        proof {
            let taken = selected@.take(s + 1);
            assert(taken.drop_last() =~= selected@.take(s as int));
            assert(taken.last() == row);
            assert(out@ =~= timeline_of(rows@, taken, gaps@, aggregate));
        }
        s = s + 1;
    }
    proof {
        assert(selected@.take(selected@.len() as int) =~= selected@);
    }
    out
}

} // verus!
