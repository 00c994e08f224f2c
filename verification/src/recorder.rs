//! One-shot collection of live battery readings into local history.
//!
//! The recorder binary reads the dashboard once, converts each battery into
//! an immutable sample, inserts the samples and exits. This module holds the
//! conversion and counting rules; reading procfs and the database is left to
//! the binary.

use vstd::prelude::*;
use crate::text::chars_of;
use crate::text::trim;
use crate::text::has_white_space;
use crate::text::trim_bounds;
use crate::text::string_from_range;
use crate::text::text_equals;
use crate::storage::InsertOutcome;
use crate::storage::MetricSource;
use crate::storage::SampleState;

verus! {

/// Counts returned after a one-shot recorder execution.
#[derive(Clone, Copy, Debug, PartialEq, Eq, Structural)]
pub struct RecordSummary {
    /// Number of new immutable rows committed.
    pub inserted: u32,
    /// Number of rows already present for the same battery and collection instant.
    pub duplicates: u32,
}

impl Default for RecordSummary {
    fn default() -> (r: Self)
        ensures
            r.inserted == 0 && r.duplicates == 0,
    {
        RecordSummary { inserted: 0, duplicates: 0 }
    }
}

/// How many of `outcomes` are `outcome`.
pub open spec fn count_outcome(outcomes: Seq<InsertOutcome>, outcome: InsertOutcome) -> nat
    decreases outcomes.len(),
{
    if outcomes.len() == 0 {
        0
    } else {
        count_outcome(outcomes.drop_last(), outcome) + if outcomes.last() == outcome {
            1nat
        } else {
            0nat
        }
    }
}

impl RecordSummary {
    /// Counts one insert attempt.
    pub fn record(&mut self, outcome: InsertOutcome)
        requires
            old(self).inserted < u32::MAX,
            old(self).duplicates < u32::MAX,
        ensures
            outcome == InsertOutcome::Inserted ==> final(self).inserted == old(self).inserted + 1
                && final(self).duplicates == old(self).duplicates,
            outcome == InsertOutcome::Duplicate ==> final(self).duplicates == old(self).duplicates
                + 1 && final(self).inserted == old(self).inserted,
    {
        match outcome {
            InsertOutcome::Inserted => self.inserted = self.inserted + 1,
            InsertOutcome::Duplicate => self.duplicates = self.duplicates + 1,
        }
    }

    /// Whether derived sessions must be rebuilt: only new rows change them.
    pub fn needs_session_rebuild(&self) -> (r: bool)
        ensures
            r == (self.inserted > 0),
    {
        self.inserted > 0
    }
}

/// Counts the outcomes of inserting every sample of one recorder run.
pub fn tally(outcomes: &[InsertOutcome]) -> (r: RecordSummary)
    requires
        outcomes@.len() <= u32::MAX,
    ensures
        r.inserted == count_outcome(outcomes@, InsertOutcome::Inserted),
        r.duplicates == count_outcome(outcomes@, InsertOutcome::Duplicate),
{
    let mut summary = RecordSummary::default();
    let mut i: usize = 0;
    while i < outcomes.len()
        invariant
            i <= outcomes@.len() <= u32::MAX,
            summary.inserted == count_outcome(outcomes@.take(i as int), InsertOutcome::Inserted),
            summary.duplicates == count_outcome(outcomes@.take(i as int), InsertOutcome::Duplicate),
            summary.inserted + summary.duplicates == i,
        decreases outcomes.len() - i,
    {
        assert(outcomes@.take(i + 1).drop_last() =~= outcomes@.take(i as int));
        summary.record(outcomes[i]);
        i = i + 1;
    }
    assert(outcomes@.take(outcomes@.len() as int) =~= outcomes@);
    summary
}

/// Every insert attempt is counted exactly once.
pub proof fn lemma_tally_counts_every_sample(outcomes: Seq<InsertOutcome>)
    ensures
        count_outcome(outcomes, InsertOutcome::Inserted) + count_outcome(
            outcomes,
            InsertOutcome::Duplicate,
        ) == outcomes.len(),
    decreases outcomes.len(),
{
    if outcomes.len() > 0 {
        lemma_tally_counts_every_sample(outcomes.drop_last());
    }
}

/// A failure while converting a live dashboard response into a stored sample.
#[derive(Clone, Debug)]
pub enum RecorderError {
    /// The dashboard did not provide an unambiguous UTC collection time.
    InvalidCollectionTimestamp(String),
    /// Linux did not expose a usable boot identifier.
    InvalidBootId(String),
    /// Linux did not expose a usable boot-relative time.
    InvalidBootTime(String),
    /// A battery response did not preserve the live-data contract.
    InvalidDashboardField(String),
}

/// The boot identifier held by the contents of the kernel's `boot_id` file:
/// the trimmed text, when it is non-empty and holds no white space.
pub open spec fn boot_id_of(value: Seq<char>) -> Option<Seq<char>> {
    let id = trim(value);
    if id.len() == 0 || has_white_space(id) {
        None
    } else {
        Some(id)
    }
}

/// Reads the boot identifier from the contents of the kernel's `boot_id` file.
pub fn parse_boot_id(value: &str) -> (r: Result<String, RecorderError>)
    ensures
        match (r, boot_id_of(value@)) {
            (Ok(id), Some(expected)) => id@ == expected,
            (Err(RecorderError::InvalidBootId(message)), None) => message@
                == "empty or malformed value"@,
            _ => false,
        },
{
    let cs = chars_of(value);
    let (a, b) = trim_bounds(cs.as_slice(), 0, cs.len());
    assert(cs@.subrange(0, cs@.len() as int) =~= cs@);
    let id = string_from_range(cs.as_slice(), a, b);
    if a == b || crate::text::contains_white_space(id.as_str()) {
        let cm = chars_of("empty or malformed value");
        assert(cm@.subrange(0, cm@.len() as int) =~= cm@);
        return Err(RecorderError::InvalidBootId(string_from_range(cm.as_slice(), 0, cm.len())));
    }
    Ok(id)
}

/// The stored sample state for a dashboard state name.
pub open spec fn sample_state_of(state: Seq<char>) -> SampleState {
    if state == "charging"@ {
        SampleState::Charging
    } else if state == "discharging"@ {
        SampleState::Discharging
    } else if state == "full"@ {
        SampleState::Full
    } else if state == "idle"@ {
        SampleState::Idle
    } else {
        SampleState::Unknown
    }
}

/// The stored sample state for a dashboard state name; anything unrecognised
/// is stored as unknown.
pub fn sample_state(state: &str) -> (r: SampleState)
    ensures
        r == sample_state_of(state@),
{
    if text_equals(state, "charging") {
        SampleState::Charging
    } else if text_equals(state, "discharging") {
        SampleState::Discharging
    } else if text_equals(state, "full") {
        SampleState::Full
    } else if text_equals(state, "idle") {
        SampleState::Idle
    } else {
        SampleState::Unknown
    }
}

/// The provenance stored for a dashboard metric. A value is stored only
/// when it is available from a named provider; an absent value only when it
/// is marked unavailable throughout. Any other combination breaks the live
/// contract and has no provenance.
pub open spec fn metric_source_of(
    has_value: bool,
    source: Seq<char>,
    availability: Seq<char>,
) -> Option<MetricSource> {
    if has_value && availability == "available"@ {
        if source == "upower"@ {
            Some(MetricSource::Upower)
        } else if source == "sysfs"@ {
            Some(MetricSource::Sysfs)
        } else if source == "derived"@ {
            Some(MetricSource::Derived)
        } else {
            None
        }
    } else if !has_value && source == "unavailable"@ && availability == "unavailable"@ {
        Some(MetricSource::Unavailable)
    } else {
        None
    }
}

/// The provenance stored for a dashboard metric, or `None` when the metric
/// breaks the live-data contract.
pub fn metric_source(has_value: bool, source: &str, availability: &str) -> (r: Option<MetricSource>)
    ensures
        r == metric_source_of(has_value, source@, availability@),
{
    if has_value && text_equals(availability, "available") {
        if text_equals(source, "upower") {
            Some(MetricSource::Upower)
        } else if text_equals(source, "sysfs") {
            Some(MetricSource::Sysfs)
        } else if text_equals(source, "derived") {
            Some(MetricSource::Derived)
        } else {
            None
        }
    } else if !has_value && text_equals(source, "unavailable") && text_equals(
        availability,
        "unavailable",
    ) {
        Some(MetricSource::Unavailable)
    } else {
        None
    }
}

/// The instant an RFC 3339 timestamp denotes, in nanoseconds since the Unix
/// epoch, as `time` parses it; `None` where `time` rejects the text.
pub uninterp spec fn rfc3339_instant(value: Seq<char>) -> Option<i128>;

/// `time::OffsetDateTime::parse` with the `Rfc3339` description, read as
/// Unix nanoseconds (`unix_timestamp_nanos`, the same instant in any offset).
/// Claimed: the outcome depends on `value` alone. The text of a parse error is
/// not stated.
#[verifier::external_body]
pub(crate) fn parse_rfc3339(value: &str) -> (r: Result<i128, String>)
    ensures
        match r {
            Ok(nanos) => rfc3339_instant(value@) == Some(nanos),
            Err(_) => rfc3339_instant(value@) is None,
        },
{
    match time::OffsetDateTime::parse(value, &time::format_description::well_known::Rfc3339) {
        Ok(timestamp) => Ok(timestamp.unix_timestamp_nanos()),
        Err(error) => Err(error.to_string()),
    }
}

/// Reads the dashboard's collection time as Unix nanoseconds (UTC).
pub fn parse_collection_timestamp(value: Option<&str>) -> (r: Result<i128, RecorderError>)
    ensures
        value is None ==> (r matches Err(RecorderError::InvalidCollectionTimestamp(message))
            && message@ == "collection timestamp was unavailable"@),
        value matches Some(text) ==> match r {
            Ok(nanos) => rfc3339_instant(text@) == Some(nanos),
            Err(RecorderError::InvalidCollectionTimestamp(_)) => rfc3339_instant(text@) is None,
            Err(_) => false,
        },
{
    match value {
        None => {
            let cm = chars_of("collection timestamp was unavailable");
            assert(cm@.subrange(0, cm@.len() as int) =~= cm@);
            Err(
                RecorderError::InvalidCollectionTimestamp(
                    string_from_range(cm.as_slice(), 0, cm.len()),
                ),
            )
        },
        Some(text) => match parse_rfc3339(text) {
            Ok(nanos) => Ok(nanos),
            Err(message) => Err(RecorderError::InvalidCollectionTimestamp(message)),
        },
    }
}

/// A stored provenance never invents a value or hides one: a metric is
/// stored as unavailable exactly when the dashboard had no value for it.
pub proof fn lemma_no_value_is_invented(has_value: bool, source: Seq<char>, availability: Seq<char>)
    ensures
        metric_source_of(has_value, source, availability) == Some(MetricSource::Unavailable)
            ==> !has_value,
        (metric_source_of(has_value, source, availability) matches Some(s) && s
            != MetricSource::Unavailable) ==> has_value,
{
}

} // verus!
