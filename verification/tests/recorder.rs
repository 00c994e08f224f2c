use battery_dashboard::recorder::metric_source;
use battery_dashboard::recorder::parse_boot_id;
use battery_dashboard::recorder::parse_collection_timestamp;
use battery_dashboard::recorder::sample_state;
use battery_dashboard::recorder::tally;
use battery_dashboard::recorder::RecordSummary;
use battery_dashboard::recorder::RecorderError;
use battery_dashboard::storage::InsertOutcome;
use battery_dashboard::storage::MetricSource;
use battery_dashboard::storage::SampleState;

#[test]
fn preserves_available_metric_provenance_and_rejects_mixed_contracts() {
    assert_eq!(
        metric_source(true, "sysfs", "available"),
        Some(MetricSource::Sysfs)
    );
    assert_eq!(metric_source(false, "upower", "available"), None);
}

#[test]
fn metric_provenance_covers_every_provider() {
    assert_eq!(metric_source(true, "upower", "available"), Some(MetricSource::Upower));
    assert_eq!(metric_source(true, "derived", "available"), Some(MetricSource::Derived));
    assert_eq!(
        metric_source(false, "unavailable", "unavailable"),
        Some(MetricSource::Unavailable)
    );
    assert_eq!(metric_source(true, "unavailable", "unavailable"), None);
    assert_eq!(metric_source(true, "sysfs", "unavailable"), None);
    assert_eq!(metric_source(true, "guess", "available"), None);
}

#[test]
fn boot_identifiers_are_trimmed_and_single_words() {
    assert_eq!(
        parse_boot_id(" 11111111-2222-3333-4444-555555555555\n").expect("trimmed boot ID is valid"),
        "11111111-2222-3333-4444-555555555555"
    );
    match parse_boot_id(" \n") {
        Err(RecorderError::InvalidBootId(message)) => {
            assert_eq!(message, "empty or malformed value")
        }
        other => panic!("unexpected {other:?}"),
    }
    assert!(matches!(
        parse_boot_id("abc def"),
        Err(RecorderError::InvalidBootId(_))
    ));
}

#[test]
fn collection_timestamps_must_be_present_and_rfc3339() {
    assert!(matches!(
        parse_collection_timestamp(None),
        Err(RecorderError::InvalidCollectionTimestamp(_))
    ));
    assert!(matches!(
        parse_collection_timestamp(Some("yesterday")),
        Err(RecorderError::InvalidCollectionTimestamp(_))
    ));
    assert_eq!(
        parse_collection_timestamp(Some("1970-01-01T00:00:01Z")).expect("valid"),
        1_000_000_000
    );
    assert_eq!(
        parse_collection_timestamp(Some("1970-01-01T01:00:00+01:00")).expect("valid"),
        0
    );
}

#[test]
fn dashboard_states_map_to_stored_states() {
    assert_eq!(sample_state("charging"), SampleState::Charging);
    assert_eq!(sample_state("discharging"), SampleState::Discharging);
    assert_eq!(sample_state("full"), SampleState::Full);
    assert_eq!(sample_state("idle"), SampleState::Idle);
    assert_eq!(sample_state("unknown"), SampleState::Unknown);
    assert_eq!(sample_state("Charging"), SampleState::Unknown);
}

#[test]
fn every_insert_attempt_is_counted_once() {
    let summary = tally(&[
        InsertOutcome::Inserted,
        InsertOutcome::Duplicate,
        InsertOutcome::Inserted,
    ]);
    assert_eq!(summary, RecordSummary { inserted: 2, duplicates: 1 });
    assert!(summary.needs_session_rebuild());
    let none = tally(&[]);
    assert_eq!(none, RecordSummary::default());
    assert!(!none.needs_session_rebuild());
    let only_duplicates = tally(&[InsertOutcome::Duplicate]);
    assert!(!only_duplicates.needs_session_rebuild());
}
