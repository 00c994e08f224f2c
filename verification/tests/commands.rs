use battery_dashboard::commands::history_freshness;
use battery_dashboard::commands::recent_history_status;
use battery_dashboard::commands::anomaly_range;
use battery_dashboard::commands::has_several_batteries;
use battery_dashboard::commands::boundary_reason;
use battery_dashboard::commands::completeness;
use battery_dashboard::storage::SessionInterruptReason;
use battery_dashboard::commands::enable_refusal;
use battery_dashboard::commands::export_load_failure;
use battery_dashboard::commands::export_unavailable_message;
use battery_dashboard::commands::export_write_failure;
use battery_dashboard::commands::export_written;
use battery_dashboard::commands::failed_export;
use battery_dashboard::commands::format_name;
use battery_dashboard::commands::normalize_session_states;
use battery_dashboard::commands::recorder_state;
use battery_dashboard::commands::recorder_status;
use battery_dashboard::commands::recorder_unavailable_reason;
use battery_dashboard::commands::session_kind;
use battery_dashboard::commands::storage_metric_source;
use battery_dashboard::commands::storage_state;
use battery_dashboard::commands::summary_period;
use battery_dashboard::commands::supported_history_range;
use battery_dashboard::commands::to_ascii_lowercase;
use battery_dashboard::commands::validate_export_request;
use battery_dashboard::commands::ExportDataType;
use battery_dashboard::commands::ExportLoadError;
use battery_dashboard::commands::ExportRequest;
use battery_dashboard::commands::RecordedHistory;
use battery_dashboard::commands::SessionRebuildResponse;
use battery_dashboard::export::ExportError;
use battery_dashboard::export::ExportFormat;
use battery_dashboard::scheduler::SchedulerStatus;
use battery_dashboard::storage::BatterySessionKind;
use battery_dashboard::storage::MetricSource;
use battery_dashboard::storage::SampleState;
use battery_dashboard::storage::SessionAggregationPeriod;

fn request(data_type: &str, format: &str, destination: &str) -> ExportRequest {
    ExportRequest {
        data_type: data_type.to_owned(),
        format: format.to_owned(),
        destination: destination.to_owned(),
        battery_id: None,
        start_date: None,
        end_date: None,
        timezone: None,
        summary_period: None,
    }
}

#[test]
fn export_command_requires_an_absolute_user_destination() {
    let response = validate_export_request(&ExportRequest {
        data_type: "raw-samples".to_owned(),
        format: "csv".to_owned(),
        destination: "history.csv".to_owned(),
        battery_id: None,
        start_date: None,
        end_date: None,
        timezone: None,
        summary_period: None,
    })
    .expect_err("a relative destination is refused");
    assert_eq!(response.availability, "unavailable");
    assert_eq!(response.unavailable_reason, Some("invalid-request"));
    assert!(response.error.is_some());
}

#[test]
fn export_requests_are_checked_in_order() {
    let bad_type = validate_export_request(&request("everything", "CSV", "/tmp/x")).unwrap_err();
    assert_eq!(bad_type.data_type, "everything");
    assert_eq!(bad_type.format, "csv");
    assert_eq!(bad_type.destination, Some("/tmp/x".to_owned()));
    assert_eq!(
        bad_type.error.as_deref(),
        Some("data_type must be raw-samples, sessions, or summaries")
    );

    let bad_format = validate_export_request(&request("rawSamples", "XML", "/tmp/x")).unwrap_err();
    assert_eq!(bad_format.data_type, "raw-samples");
    assert_eq!(bad_format.format, "xml");
    assert_eq!(bad_format.error.as_deref(), Some("format must be csv or json"));

    let blank = validate_export_request(&request("sessions", "Json", "  ")).unwrap_err();
    assert_eq!(blank.format, "json");
    assert_eq!(blank.destination, None);
    assert_eq!(
        blank.error.as_deref(),
        Some("an explicit user-selected destination is required")
    );

    let mut with_blank_id = request("summaries", "csv", "/tmp/x");
    with_blank_id.battery_id = Some(" ".to_owned());
    assert_eq!(
        validate_export_request(&with_blank_id).unwrap_err().error.as_deref(),
        Some("battery_id must not be empty when supplied")
    );

    let mut with_bad_zone = request("summaries", "csv", "/tmp/x");
    with_bad_zone.timezone = Some("Mars/Olympus".to_owned());
    let refused = validate_export_request(&with_bad_zone).unwrap_err();
    assert_eq!(refused.record_count, 0);
    assert_eq!(refused.bytes_written, None);
    assert_eq!(
        refused.error.as_deref(),
        Some("timezone must be a valid IANA timezone")
    );
}

#[test]
fn an_accepted_export_request_names_its_plan() {
    let plan = validate_export_request(&request("calendar_summaries", "JSON", "/tmp/x.json"))
        .expect("a valid request");
    assert_eq!(plan.data_type, ExportDataType::Summaries);
    assert_eq!(plan.format, ExportFormat::Json);
    assert_eq!(plan.timezone, "UTC");

    let mut zoned = request("raw_samples", "csv", "/tmp/x.csv");
    zoned.timezone = Some("Europe/Berlin".to_owned());
    zoned.battery_id = Some("BAT0".to_owned());
    let plan = validate_export_request(&zoned).expect("a valid zoned request");
    assert_eq!(plan.data_type, ExportDataType::RawSamples);
    assert_eq!(plan.timezone, "Europe/Berlin");
}

#[test]
fn export_data_types_round_trip() {
    for data_type in [
        ExportDataType::RawSamples,
        ExportDataType::Sessions,
        ExportDataType::Summaries,
    ] {
        assert_eq!(ExportDataType::parse(data_type.as_str()), Some(data_type));
    }
    assert_eq!(ExportDataType::parse("Sessions"), None);
    assert_eq!(format_name(ExportFormat::Csv), "csv");
    assert_eq!(format_name(ExportFormat::Json), "json");
}

#[test]
fn export_outcomes_report_reasons_and_counts() {
    let plan = validate_export_request(&request("sessions", "csv", "/tmp/s.csv")).unwrap();
    let empty = export_load_failure(
        &plan,
        "/tmp/s.csv".to_owned(),
        ExportLoadError::Unavailable("no-recorded-samples"),
    );
    assert_eq!(empty.unavailable_reason, Some("no-recorded-samples"));
    assert_eq!(
        empty.error.as_deref(),
        Some("no recorded rows match the export request")
    );
    let database = export_load_failure(&plan, "/tmp/s.csv".to_owned(), ExportLoadError::Database);
    assert_eq!(database.unavailable_reason, Some("database-unavailable"));
    let invalid = export_load_failure(
        &plan,
        "/tmp/s.csv".to_owned(),
        ExportLoadError::Invalid("summary_period must be daily, weekly, or monthly"),
    );
    assert_eq!(invalid.unavailable_reason, Some("invalid-request"));

    let exists = export_write_failure(
        &plan,
        "/tmp/s.csv".to_owned(),
        &ExportError::DestinationExists("/tmp/s.csv".to_owned()),
    );
    assert_eq!(exists.unavailable_reason, Some("destination-exists"));
    assert_eq!(
        exists.error.as_deref(),
        Some("refusing to overwrite existing export destination /tmp/s.csv")
    );
    let invalid_path = export_write_failure(
        &plan,
        "/tmp/s.csv".to_owned(),
        &ExportError::InvalidPath("x".to_owned()),
    );
    assert_eq!(invalid_path.unavailable_reason, Some("invalid-destination"));
    let io = export_write_failure(&plan, "/tmp/s.csv".to_owned(), &ExportError::Io("e".to_owned()));
    assert_eq!(io.unavailable_reason, Some("destination-write-failed"));

    let written = export_written(&plan, "/tmp/s.csv".to_owned(), 3, Some(120));
    assert_eq!(written.availability, "available");
    assert_eq!(written.unavailable_reason, None);
    assert_eq!(written.record_count, 3);
    assert_eq!(written.bytes_written, Some(120));
    assert_eq!(written.data_type, "sessions");
    assert_eq!(written.format, "csv");
    assert_eq!(written.error, None);

    let failed = failed_export("a".to_owned(), "b".to_owned(), None, "unsupported", "m");
    assert_eq!(failed.schema_version, 1);
    assert_eq!(failed.availability, "unavailable");
}

#[test]
fn unavailable_messages_and_reasons_follow_the_recorder_state() {
    assert_eq!(
        export_unavailable_message("recorder-disabled"),
        "recording is disabled and no history is available"
    );
    assert_eq!(
        export_unavailable_message("unsupported"),
        "local recording is unsupported on this system"
    );
    assert_eq!(export_unavailable_message("other"), "no local history is available");
    assert_eq!(recorder_unavailable_reason("enabled"), "no-recorded-samples");
    assert_eq!(recorder_unavailable_reason("disabled"), "recorder-disabled");
    assert_eq!(recorder_unavailable_reason("unsupported"), "unsupported");
    assert_eq!(recorder_unavailable_reason("?"), "unknown");
    assert_eq!(recorder_state(&SchedulerStatus::Enabled), "enabled");
    assert_eq!(recorder_state(&SchedulerStatus::Disabled), "disabled");
    assert_eq!(
        recorder_state(&SchedulerStatus::Unavailable { reason: "x".to_owned() }),
        "unsupported"
    );
}

#[test]
fn session_state_filters_are_sorted_and_deduplicated() {
    let values = vec![
        "unknown".to_owned(),
        "charging".to_owned(),
        "unknown".to_owned(),
    ];
    assert_eq!(
        normalize_session_states(&values),
        Some(vec!["charging".to_owned(), "unknown".to_owned()])
    );
    assert_eq!(normalize_session_states(&[]), None);
    assert_eq!(
        normalize_session_states(&["full".to_owned(), "idle".to_owned()]),
        None
    );
    assert_eq!(
        normalize_session_states(&[
            "full".to_owned(),
            "discharging".to_owned(),
            "charging".to_owned()
        ]),
        Some(vec![
            "charging".to_owned(),
            "discharging".to_owned(),
            "full".to_owned()
        ])
    );
}

#[test]
fn vocabulary_helpers_spell_values_for_the_frontend() {
    assert_eq!(session_kind(BatterySessionKind::Discharging), "discharging");
    assert_eq!(storage_metric_source(MetricSource::Derived), "derived");
    assert_eq!(storage_state(SampleState::Full), "full");
    assert_eq!(supported_history_range(2), Some(2));
    assert_eq!(supported_history_range(24), Some(24));
    assert_eq!(supported_history_range(3), None);
    assert_eq!(summary_period(None), Some(SessionAggregationPeriod::Daily));
    assert_eq!(summary_period(Some("weekly")), Some(SessionAggregationPeriod::Weekly));
    assert_eq!(summary_period(Some("monthly")), Some(SessionAggregationPeriod::Monthly));
    assert_eq!(summary_period(Some("yearly")), None);
    assert_eq!(to_ascii_lowercase("CsV-É"), "csv-É");
}

#[test]
fn recorder_status_reflects_the_scheduler_and_history() {
    let unsupported = recorder_status(
        None,
        SchedulerStatus::Unavailable { reason: "no bus".to_owned() },
        RecordedHistory::Recorded(Some("2026-08-23T12:00:00Z".to_owned())),
    );
    assert!(!unsupported.supported);
    assert!(!unsupported.enabled);
    assert_eq!(unsupported.health, "unknown");
    assert_eq!(unsupported.last_recorded_at, None);
    assert_eq!(unsupported.error.as_deref(), Some("no bus"));

    let healthy = recorder_status(
        None,
        SchedulerStatus::Enabled,
        RecordedHistory::Recorded(Some("2026-08-23T12:00:00Z".to_owned())),
    );
    assert!(healthy.supported && healthy.enabled);
    assert_eq!(healthy.health, "healthy");
    assert_eq!(healthy.transition, "idle");
    assert_eq!(healthy.last_recorded_at.as_deref(), Some("2026-08-23T12:00:00Z"));

    let disabled = recorder_status(
        Some("request failed".to_owned()),
        SchedulerStatus::Disabled,
        RecordedHistory::Recorded(None),
    );
    assert_eq!(disabled.health, "unknown");
    assert_eq!(disabled.error.as_deref(), Some("request failed"));

    let never = recorder_status(None, SchedulerStatus::Enabled, RecordedHistory::Never);
    assert_eq!(never.health, "unknown");

    let broken = recorder_status(
        None,
        SchedulerStatus::Enabled,
        RecordedHistory::Failed("database is locked".to_owned()),
    );
    assert_eq!(broken.health, "error");
    assert_eq!(broken.error.as_deref(), Some("database is locked"));
}

#[test]
fn enabling_is_refused_only_where_the_scheduler_is_unavailable() {
    let unavailable = SchedulerStatus::Unavailable { reason: "no bus".to_owned() };
    assert_eq!(
        enable_refusal(true, &unavailable),
        Some("background recording is unsupported on this system: no bus".to_owned())
    );
    assert_eq!(enable_refusal(false, &unavailable), None);
    assert_eq!(enable_refusal(true, &SchedulerStatus::Disabled), None);
}

#[test]
fn rebuild_responses() {
    let none = SessionRebuildResponse::unavailable("database-unavailable");
    assert_eq!(none.availability, "unavailable");
    assert_eq!(none.unavailable_reason, Some("database-unavailable"));
    assert_eq!(none.sessions_rebuilt, None);
    let done = SessionRebuildResponse::rebuilt(Some("2026-08-23T12:00:00Z".to_owned()), 4);
    assert_eq!(done.availability, "available");
    assert_eq!(done.sessions_rebuilt, Some(4));
}

#[test]
fn recent_history_reports_a_disabled_recorder_and_its_sources() {
    let disabled = recent_history_status("disabled", true, false);
    assert_eq!(disabled.availability, "available");
    assert_eq!(disabled.unavailable_reason, Some("recorder-disabled"));
    assert_eq!(disabled.source, "sqlite");
    let live_only = recent_history_status("enabled", false, true);
    assert_eq!(live_only.availability, "available");
    assert_eq!(live_only.unavailable_reason, Some("no-recorded-samples"));
    assert_eq!(live_only.source, "transient");
    let nothing = recent_history_status("unsupported", false, false);
    assert_eq!(nothing.availability, "unavailable");
    assert_eq!(nothing.unavailable_reason, Some("unsupported"));
    assert_eq!(nothing.source, "unavailable");
    let recorded = recent_history_status("enabled", true, true);
    assert_eq!(recorded.unavailable_reason, None);
}

#[test]
fn anomaly_windows_and_battery_scopes_are_checked() {
    assert_eq!(anomaly_range(None, None), Ok(24));
    assert_eq!(anomaly_range(Some("BAT0"), Some(720)), Ok(720));
    assert_eq!(anomaly_range(None, Some(0)), Err(0));
    assert_eq!(anomaly_range(None, Some(721)), Err(721));
    assert_eq!(anomaly_range(Some("  "), Some(5)), Err(24));
    assert!(!has_several_batteries(&[]));
    assert!(!has_several_batteries(&["BAT0".to_owned(), "BAT0".to_owned()]));
    assert!(has_several_batteries(&["BAT0".to_owned(), "BAT1".to_owned()]));
}

#[test]
fn session_boundaries_are_spelled_for_the_frontend() {
    assert_eq!(boundary_reason(SessionInterruptReason::StateChanged), "state-change");
    assert_eq!(boundary_reason(SessionInterruptReason::BootChanged), "rebooted");
    assert_eq!(boundary_reason(SessionInterruptReason::SampleGap), "sampling-gap");
    assert_eq!(boundary_reason(SessionInterruptReason::DataEnded), "end-of-data");
    assert_eq!(completeness(true), "complete");
    assert_eq!(completeness(false), "incomplete");
}

#[test]
fn recorded_history_goes_stale_after_three_minutes() {
    let now: i128 = 1_000_000_000_000;
    let minute: i128 = 60_000_000_000;
    assert_eq!(history_freshness(None, false, now), "unknown");
    assert_eq!(history_freshness(None, true, now), "fresh");
    assert_eq!(history_freshness(Some(Some(now - 3 * minute)), false, now), "fresh");
    assert_eq!(history_freshness(Some(Some(now - 3 * minute - 1)), false, now), "stale");
    assert_eq!(history_freshness(Some(None), false, now), "fresh");
    assert_eq!(history_freshness(Some(Some(0)), false, i128::MIN), "fresh");
}
