use battery_dashboard::storage::timeline_slots;
use battery_dashboard::storage::timestamp_group_end;
use battery_dashboard::storage::TimelineSlot;
use battery_dashboard::anomalies::segments;
use battery_dashboard::storage::day_evidence;
use battery_dashboard::storage::downsample_timestamp_groups;
use battery_dashboard::storage::DayEvidence;
use battery_dashboard::storage::DayInsufficiencyReason;
use battery_dashboard::storage::downsample_indices;
use battery_dashboard::storage::history_gaps;
use battery_dashboard::storage::metric_source_from_database;
use battery_dashboard::storage::next_of_battery;
use battery_dashboard::storage::sample_state_from_database;
use battery_dashboard::storage::session_kind;
use battery_dashboard::storage::session_segments;
use battery_dashboard::storage::provenance_mismatch;
use battery_dashboard::storage::validate_history_query;
use battery_dashboard::storage::validate_sample_identity;
use battery_dashboard::storage::ProvenanceMismatch;
use battery_dashboard::storage::validate_session_query;
use battery_dashboard::storage::BatterySessionKind;
use battery_dashboard::storage::HistoryGap;
use battery_dashboard::storage::HistoryGapReason;
use battery_dashboard::storage::HistoryRow;
use battery_dashboard::storage::MetricSource;
use battery_dashboard::storage::SampleState;
use battery_dashboard::storage::SessionInterruptReason;
use battery_dashboard::storage::SessionRow;

fn gap_after(index: usize) -> (usize, HistoryGap) {
    (
        index,
        HistoryGap {
            from: String::new(),
            to: String::new(),
            reason: HistoryGapReason::BootChanged,
        },
    )
}

#[test]
fn downsampling_keeps_endpoints_and_spreads_the_rest() {
    assert_eq!(downsample_indices(10, 3, &[]), vec![0, 4, 9]);
    assert_eq!(downsample_indices(10, 4, &[]), vec![0, 3, 6, 9]);
    assert_eq!(downsample_indices(3, 10, &[]), vec![0, 1, 2]);
    assert_eq!(downsample_indices(1, 1, &[]), vec![0]);
    assert_eq!(downsample_indices(0, 5, &[]), Vec::<usize>::new());
    assert_eq!(downsample_indices(10, 1, &[]), vec![0, 9]);
}

#[test]
fn downsampling_never_drops_the_observations_around_a_gap() {
    assert_eq!(downsample_indices(10, 2, &[gap_after(4)]), vec![0, 4, 5, 9]);
    assert_eq!(
        downsample_indices(10, 5, &[gap_after(2)]),
        vec![0, 2, 3, 4, 9]
    );
}

#[test]
fn stored_spellings_read_back() {
    for source in [
        MetricSource::Upower,
        MetricSource::Sysfs,
        MetricSource::Derived,
        MetricSource::Unavailable,
    ] {
        assert_eq!(metric_source_from_database(source.as_str()), Some(source));
    }
    for state in [
        SampleState::Charging,
        SampleState::Discharging,
        SampleState::Full,
        SampleState::Idle,
        SampleState::Unknown,
    ] {
        assert_eq!(sample_state_from_database(state.as_str()), Some(state));
    }
    assert_eq!(metric_source_from_database("UPower"), None);
    assert_eq!(sample_state_from_database("Charging"), None);
}

#[test]
fn idle_and_unknown_samples_open_unknown_sessions() {
    assert_eq!(session_kind(SampleState::Charging), BatterySessionKind::Charging);
    assert_eq!(session_kind(SampleState::Discharging), BatterySessionKind::Discharging);
    assert_eq!(session_kind(SampleState::Full), BatterySessionKind::Full);
    assert_eq!(session_kind(SampleState::Idle), BatterySessionKind::Unknown);
    assert_eq!(session_kind(SampleState::Unknown), BatterySessionKind::Unknown);
    assert_eq!(BatterySessionKind::Unknown.as_str(), "unknown");
    assert_eq!(SessionInterruptReason::SampleGap.as_str(), "sample_gap");
}

fn row(battery: &str, boot: &str, state: SampleState, contiguous: bool) -> SessionRow {
    SessionRow {
        battery_id: battery.to_owned(),
        boot_id: boot.to_owned(),
        state,
        contiguous_with_previous: contiguous,
    }
}

#[test]
fn sessions_end_at_state_changes_boots_gaps_and_battery_changes() {
    let rows = vec![
        row("BAT0", "a", SampleState::Discharging, false),
        row("BAT0", "a", SampleState::Discharging, true),
        row("BAT0", "a", SampleState::Charging, true),
        row("BAT0", "b", SampleState::Charging, true),
        row("BAT0", "b", SampleState::Charging, false),
        row("BAT1", "b", SampleState::Idle, true),
    ];
    let segments = session_segments(&rows);
    let summary: Vec<_> = segments
        .iter()
        .map(|s| (s.start, s.end, s.kind, s.complete, s.interrupt_reason))
        .collect();
    assert_eq!(
        summary,
        vec![
            (0, 2, BatterySessionKind::Discharging, true, SessionInterruptReason::StateChanged),
            (2, 3, BatterySessionKind::Charging, false, SessionInterruptReason::BootChanged),
            (3, 4, BatterySessionKind::Charging, false, SessionInterruptReason::SampleGap),
            (4, 5, BatterySessionKind::Charging, false, SessionInterruptReason::DataEnded),
            (5, 6, BatterySessionKind::Unknown, false, SessionInterruptReason::DataEnded),
        ]
    );
    assert!(session_segments(&[]).is_empty());
}

fn history_row(battery: &str, at: &str, boot: &str) -> HistoryRow {
    HistoryRow {
        battery_id: battery.to_owned(),
        recorded_at: at.to_owned(),
        boot_id: boot.to_owned(),
    }
}

#[test]
fn gaps_follow_each_battery_separately() {
    let rows = vec![
        history_row("BAT0", "t0", "a"),
        history_row("BAT1", "t0", "a"),
        history_row("BAT0", "t1", "a"),
        history_row("BAT1", "t1", "b"),
        history_row("BAT0", "t2", "a"),
    ];
    assert_eq!(
        next_of_battery(&rows),
        vec![Some(2), Some(3), Some(4), None, None]
    );
    let gaps = history_gaps(&rows, &[true, true, false, true, true]);
    let summary: Vec<_> = gaps
        .iter()
        .map(|(i, g)| (*i, g.from.clone(), g.to.clone(), g.reason))
        .collect();
    assert_eq!(
        summary,
        vec![
            (1, "t0".to_owned(), "t1".to_owned(), HistoryGapReason::BootChanged),
            (
                2,
                "t1".to_owned(),
                "t2".to_owned(),
                HistoryGapReason::SampleIntervalExceeded
            ),
        ]
    );
}

#[test]
fn queries_are_checked_before_reading() {
    assert_eq!(validate_history_query(0, 10, 5, Some("BAT0")), Ok(()));
    assert_eq!(
        validate_history_query(11, 10, 5, None),
        Err("start must not be after end")
    );
    assert_eq!(
        validate_history_query(0, 10, 0, None),
        Err("max_points must be at least one")
    );
    assert_eq!(
        validate_history_query(0, 10, 5, Some(" ")),
        Err("battery_id must not be empty when supplied")
    );
    assert_eq!(validate_session_query(5, 5, None), Ok(()));
    assert_eq!(
        validate_session_query(6, 5, Some("")),
        Err("start must not be after end")
    );
    assert_eq!(
        validate_session_query(0, 5, Some("\t")),
        Err("battery_id must not be empty when supplied")
    );
}

#[test]
fn aggregate_downsampling_keeps_each_instant_whole() {
    let rows = vec![
        history_row("BAT0", "t0", "a"),
        history_row("BAT1", "t0", "a"),
        history_row("BAT0", "t1", "a"),
        history_row("BAT1", "t1", "a"),
        history_row("BAT0", "t2", "a"),
        history_row("BAT1", "t2", "a"),
        history_row("BAT0", "t3", "a"),
        history_row("BAT1", "t3", "a"),
    ];
    assert_eq!(downsample_timestamp_groups(&rows, 2, &[]), vec![0, 1, 6, 7]);
    assert_eq!(
        downsample_timestamp_groups(&rows, 2, &[gap_after(3)]),
        vec![0, 1, 2, 3, 4, 5, 6, 7]
    );
    assert_eq!(
        downsample_timestamp_groups(&rows, 10, &[]),
        vec![0, 1, 2, 3, 4, 5, 6, 7]
    );
    assert_eq!(downsample_timestamp_groups(&[], 3, &[]), Vec::<usize>::new());
}

#[test]
fn timeline_segments_never_span_gaps_or_batteries() {
    let timeline = vec![
        Some("BAT0".to_owned()),
        Some("BAT0".to_owned()),
        None,
        Some("BAT0".to_owned()),
        Some("BAT1".to_owned()),
        Some("BAT1".to_owned()),
        None,
        None,
    ];
    assert_eq!(segments(&timeline), vec![(0, 2), (3, 4), (4, 6)]);
    assert_eq!(segments(&[]), Vec::<(usize, usize)>::new());
}

#[test]
fn a_day_needs_ten_samples_and_ten_observed_minutes() {
    assert_eq!(
        day_evidence(0, true),
        (DayEvidence::Insufficient, Some(DayInsufficiencyReason::NoRecording))
    );
    assert_eq!(
        day_evidence(9, true),
        (DayEvidence::Insufficient, Some(DayInsufficiencyReason::TooFewSamples))
    );
    assert_eq!(
        day_evidence(12, false),
        (DayEvidence::Insufficient, Some(DayInsufficiencyReason::TooFewSamples))
    );
    assert_eq!(day_evidence(10, true), (DayEvidence::Sufficient, None));
}

#[test]
fn aggregate_history_places_a_gap_after_the_whole_shared_instant() {
    let rows = vec![
        history_row("BAT0", "t0", "a"),
        history_row("BAT1", "t0", "a"),
        history_row("BAT0", "t1", "b"),
        history_row("BAT1", "t1", "a"),
    ];
    assert_eq!(timestamp_group_end(&rows, 0), 2);
    assert_eq!(timestamp_group_end(&rows, 1), 2);
    assert_eq!(timestamp_group_end(&rows, 3), 4);
    let gaps = vec![gap_after(0)];
    assert_eq!(
        timeline_slots(&rows, &[0, 1, 2, 3], &gaps, true),
        vec![
            TimelineSlot::Sample(0),
            TimelineSlot::Sample(1),
            TimelineSlot::Gap(0),
            TimelineSlot::Sample(2),
            TimelineSlot::Sample(3),
        ]
    );
    assert_eq!(
        timeline_slots(&rows, &[0, 2], &gaps, false),
        vec![
            TimelineSlot::Sample(0),
            TimelineSlot::Gap(0),
            TimelineSlot::Sample(2),
        ]
    );
    assert!(timeline_slots(&rows, &[], &gaps, true).is_empty());
}

#[test]
fn sample_identity_must_name_a_battery_and_a_boot() {
    assert_eq!(validate_sample_identity("BAT0", "boot-a"), Ok(()));
    assert_eq!(validate_sample_identity("  ", "boot-a"), Err("battery_id is empty"));
    assert_eq!(validate_sample_identity("", ""), Err("battery_id is empty"));
    assert_eq!(validate_sample_identity("BAT0", " \t"), Err("boot_id is empty"));
}

#[test]
fn stored_metrics_carry_a_value_exactly_when_they_name_a_provider() {
    assert_eq!(provenance_mismatch(true, MetricSource::Sysfs), None);
    assert_eq!(provenance_mismatch(false, MetricSource::Unavailable), None);
    assert_eq!(
        provenance_mismatch(true, MetricSource::Unavailable),
        Some(ProvenanceMismatch::ValueWithoutProvenance)
    );
    assert_eq!(
        provenance_mismatch(false, MetricSource::Derived),
        Some(ProvenanceMismatch::ProvenanceWithoutValue)
    );
}
