use battery_dashboard::export::csv_field;
use battery_dashboard::export::csv_row;
use battery_dashboard::export::json_string;
use battery_dashboard::export::state_name;
use battery_dashboard::export::ExportError;
use battery_dashboard::export::ExportFormat;
use battery_dashboard::storage::SampleState;

#[test]
fn csv_fields_are_quoted_only_when_needed() {
    let mut out = String::new();
    csv_field(&mut out, "BAT0");
    assert_eq!(out, "BAT0");
    let mut out = String::new();
    csv_field(&mut out, "BAT,\"0");
    assert_eq!(out, "\"BAT,\"\"0\"");
    let mut out = String::new();
    csv_field(&mut out, "a\nb");
    assert_eq!(out, "\"a\nb\"");
    let mut out = String::from("x,");
    csv_field(&mut out, "");
    assert_eq!(out, "x,");
}

#[test]
fn csv_rows_join_fields_and_end_with_crlf() {
    let mut out = String::new();
    csv_row(
        &mut out,
        &["1".to_owned(), "BAT,\"0".to_owned(), String::new()],
    );
    assert_eq!(out, "1,\"BAT,\"\"0\",\r\n");
    let mut out = String::new();
    csv_row(&mut out, &[]);
    assert_eq!(out, "\r\n");
}

#[test]
fn json_strings_escape_quotes_backslashes_and_controls() {
    assert_eq!(json_string("BAT,\"0"), "\"BAT,\\\"0\"");
    assert_eq!(json_string("a\\b"), "\"a\\\\b\"");
    assert_eq!(json_string("l1\nl2\t\r"), "\"l1\\nl2\\t\\r\"");
    assert_eq!(json_string("\u{1}"), "\"\\u0001\"");
    assert_eq!(json_string("é"), "\"é\"");
    assert_eq!(json_string(""), "\"\"");
    assert_eq!(json_string("\u{7f}\u{8}\u{c}"), "\"\\u007f\\b\\f\"");
}

#[test]
fn export_vocabulary_is_stable() {
    assert_eq!(ExportFormat::Csv.extension(), "csv");
    assert_eq!(ExportFormat::Json.extension(), "json");
    assert_eq!(state_name(SampleState::Idle), "idle");
    assert_eq!(state_name(SampleState::Discharging), "discharging");
}

#[test]
fn export_errors_describe_the_failure() {
    assert_eq!(
        ExportError::InvalidPath("a destination filename is required".to_owned()).message(),
        "invalid export path: a destination filename is required"
    );
    assert_eq!(
        ExportError::DestinationExists("/tmp/history.csv".to_owned()).message(),
        "refusing to overwrite existing export destination /tmp/history.csv"
    );
    assert_eq!(ExportError::Io("disk full".to_owned()).message(), "disk full");
}
