//! Request validation and response vocabulary of the desktop commands.
//!
//! The commands themselves read hardware, the database and the clock; the
//! decisions they make on what they read are stated and proved here.

use vstd::prelude::*;
use crate::text::chars_of;
use crate::text::trim;
use crate::text::is_blank;
use crate::text::text_equals;
use crate::text::push_char;
use crate::text::owned_text;
use crate::export::ExportFormat;
use crate::export::ExportError;
use crate::export::export_error_text;
use crate::storage::SessionAggregationPeriod;
use crate::storage::SessionInterruptReason;
use crate::scheduler::SchedulerStatus;
use crate::storage::BatterySessionKind;
use crate::storage::MetricSource;
use crate::storage::SampleState;
use crate::storage::metric_source_name;
use crate::storage::sample_state_name;
use crate::storage::session_kind_name;

verus! {

/// The kind of history rows an export request asks for.
#[derive(Clone, Copy, Debug, PartialEq, Eq, Structural)]
pub enum ExportDataType {
    /// Immutable recorded samples.
    RawSamples,
    /// Derived charge and discharge sessions.
    Sessions,
    /// Calendar summaries of sessions.
    Summaries,
}

/// The data type named by a request value; several spellings are accepted.
pub open spec fn export_data_type_of(value: Seq<char>) -> Option<ExportDataType> {
    if value == "raw-samples"@ || value == "raw_samples"@ || value == "rawSamples"@ {
        Some(ExportDataType::RawSamples)
    } else if value == "sessions"@ {
        Some(ExportDataType::Sessions)
    } else if value == "summaries"@ || value == "calendar-summaries"@ || value
        == "calendar_summaries"@ {
        Some(ExportDataType::Summaries)
    } else {
        None
    }
}

/// The canonical spelling of a data type.
pub open spec fn export_data_type_name(data_type: ExportDataType) -> Seq<char> {
    match data_type {
        ExportDataType::RawSamples => "raw-samples"@,
        ExportDataType::Sessions => "sessions"@,
        ExportDataType::Summaries => "summaries"@,
    }
}

impl ExportDataType {
    /// Parses any accepted spelling of a data type.
    pub fn parse(value: &str) -> (r: Option<ExportDataType>)
        ensures
            r == export_data_type_of(value@),
    {
        if text_equals(value, "raw-samples") || text_equals(value, "raw_samples") || text_equals(
            value,
            "rawSamples",
        ) {
            Some(ExportDataType::RawSamples)
        } else if text_equals(value, "sessions") {
            Some(ExportDataType::Sessions)
        } else if text_equals(value, "summaries") || text_equals(value, "calendar-summaries")
            || text_equals(value, "calendar_summaries") {
            Some(ExportDataType::Summaries)
        } else {
            None
        }
    }

    /// The canonical spelling of this data type.
    pub fn as_str(self) -> (r: &'static str)
        ensures
            r@ == export_data_type_name(self),
    {
        match self {
            ExportDataType::RawSamples => "raw-samples",
            ExportDataType::Sessions => "sessions",
            ExportDataType::Summaries => "summaries",
        }
    }
}

/// Every data type is parsed back from its canonical spelling.
pub proof fn lemma_export_data_type_round_trip(data_type: ExportDataType)
    ensures
        export_data_type_of(export_data_type_name(data_type)) == Some(data_type),
{
    reveal_strlit("raw-samples");
    reveal_strlit("raw_samples");
    reveal_strlit("rawSamples");
    reveal_strlit("sessions");
    reveal_strlit("summaries");
    reveal_strlit("calendar-summaries");
    reveal_strlit("calendar_summaries");
    match data_type {
        ExportDataType::RawSamples => {},
        ExportDataType::Sessions => {
            assert("sessions"@.len() != "raw-samples"@.len());
            assert("sessions"@.len() != "raw_samples"@.len());
            assert("sessions"@.len() != "rawSamples"@.len());
        },
        ExportDataType::Summaries => {
            assert("summaries"@.len() != "raw-samples"@.len());
            assert("summaries"@.len() != "raw_samples"@.len());
            assert("summaries"@.len() != "rawSamples"@.len());
            assert("summaries"@.len() != "sessions"@.len());
        },
    }
}

/// The response spelling of an export format.
pub open spec fn format_spec_name(format: ExportFormat) -> Seq<char> {
    match format {
        ExportFormat::Csv => "csv"@,
        ExportFormat::Json => "json"@,
    }
}

/// The response spelling of an export format.
pub fn format_name(format: ExportFormat) -> (r: &'static str)
    ensures
        r@ == format_spec_name(format),
{
    match format {
        ExportFormat::Csv => "csv",
        ExportFormat::Json => "json",
    }
}

/// `c` with an ASCII upper-case letter mapped to its lower-case letter.
pub open spec fn ascii_lower_char(c: char) -> char {
    if 'A' <= c && c <= 'Z' {
        ((c as int) + 32) as char
    } else {
        c
    }
}

/// `s` with every ASCII upper-case letter lowered (`str::to_ascii_lowercase`).
pub open spec fn ascii_lower(s: Seq<char>) -> Seq<char> {
    s.map_values(|c: char| ascii_lower_char(c))
}

fn lower_ascii_char(c: char) -> (r: char)
    ensures
        r == ascii_lower_char(c),
{
    if 'A' <= c && c <= 'Z' {
        let b: u8 = c as u8;
        assert(b == c as int);
        (b + 32) as char
    } else {
        c
    }
}

/// `text` with every ASCII upper-case letter lowered.
pub fn to_ascii_lowercase(text: &str) -> (r: String)
    ensures
        r@ == ascii_lower(text@),
{
    let cs = chars_of(text);
    let mut out = String::new();
    let mut i: usize = 0;
    while i < cs.len()
        invariant
            i <= cs@.len(),
            cs@ == text@,
            out@ == ascii_lower(cs@.take(i as int)),
        decreases cs.len() - i,
    {
        let c = lower_ascii_char(cs[i]);
        push_char(&mut out, c);
        assert(ascii_lower(cs@.take(i + 1)) =~= ascii_lower(cs@.take(i as int)).push(c));
        i = i + 1;
    }
    assert(cs@.take(cs@.len() as int) =~= cs@);
    out
}

/// The frontend spelling of a session kind.
pub fn session_kind(kind: BatterySessionKind) -> (r: &'static str)
    ensures
        r@ == session_kind_name(kind),
{
    kind.as_str()
}

/// The frontend spelling of a metric provenance.
pub fn storage_metric_source(source: MetricSource) -> (r: &'static str)
    ensures
        r@ == metric_source_name(source),
{
    source.as_str()
}

/// The frontend spelling of a sample state.
pub fn storage_state(state: SampleState) -> (r: &'static str)
    ensures
        r@ == sample_state_name(state),
{
    state.as_str()
}

/// The chart ranges, in hours, that the history command serves.
pub open spec fn is_supported_history_range(range_hours: u8) -> bool {
    range_hours == 2 || range_hours == 6 || range_hours == 12 || range_hours == 24
}

/// The requested range when it is one that the history command serves.
pub fn supported_history_range(range_hours: u8) -> (r: Option<u8>)
    ensures
        r == (if is_supported_history_range(range_hours) {
            Some(range_hours)
        } else {
            None
        }),
{
    if range_hours == 2 || range_hours == 6 || range_hours == 12 || range_hours == 24 {
        Some(range_hours)
    } else {
        None
    }
}

/// The recorder state reported for a scheduler status.
pub open spec fn recorder_state_name(status: SchedulerStatus) -> Seq<char> {
    match status {
        SchedulerStatus::Enabled => "enabled"@,
        SchedulerStatus::Disabled => "disabled"@,
        SchedulerStatus::Unavailable { .. } => "unsupported"@,
    }
}

/// The recorder state reported for a scheduler status.
pub fn recorder_state(status: &SchedulerStatus) -> (r: &'static str)
    ensures
        r@ == recorder_state_name(*status),
{
    match status {
        SchedulerStatus::Enabled => "enabled",
        SchedulerStatus::Disabled => "disabled",
        SchedulerStatus::Unavailable { .. } => "unsupported",
    }
}

/// Why no history is available, given the recorder state.
pub open spec fn unavailable_reason_for(recorder_state: Seq<char>) -> Seq<char> {
    if recorder_state == "enabled"@ {
        "no-recorded-samples"@
    } else if recorder_state == "disabled"@ {
        "recorder-disabled"@
    } else if recorder_state == "unsupported"@ {
        "unsupported"@
    } else {
        "unknown"@
    }
}

/// Why no history is available, given the recorder state.
pub fn recorder_unavailable_reason(recorder_state: &str) -> (r: &'static str)
    ensures
        r@ == unavailable_reason_for(recorder_state@),
{
    if text_equals(recorder_state, "enabled") {
        "no-recorded-samples"
    } else if text_equals(recorder_state, "disabled") {
        "recorder-disabled"
    } else if text_equals(recorder_state, "unsupported") {
        "unsupported"
    } else {
        "unknown"
    }
}

/// The message shown beside an export failure that has no history behind it.
pub open spec fn unavailable_message_for(reason: Seq<char>) -> Seq<char> {
    if reason == "no-recorded-samples"@ {
        "no recorded rows match the export request"@
    } else if reason == "recorder-disabled"@ {
        "recording is disabled and no history is available"@
    } else if reason == "unsupported"@ {
        "local recording is unsupported on this system"@
    } else {
        "no local history is available"@
    }
}

/// The message shown beside an export failure that has no history behind it.
pub fn export_unavailable_message(reason: &str) -> (r: &'static str)
    ensures
        r@ == unavailable_message_for(reason@),
{
    if text_equals(reason, "no-recorded-samples") {
        "no recorded rows match the export request"
    } else if text_equals(reason, "recorder-disabled") {
        "recording is disabled and no history is available"
    } else if text_equals(reason, "unsupported") {
        "local recording is unsupported on this system"
    } else {
        "no local history is available"
    }
}

/// The session states a history request may filter on, in the order that
/// a filter lists them.
pub open spec fn is_session_state_name(value: Seq<char>) -> bool {
    value == "charging"@ || value == "discharging"@ || value == "full"@ || value == "unknown"@
}

/// `name` as a one-element list when `values` holds it, else nothing.
pub open spec fn present(values: Seq<Seq<char>>, name: Seq<char>) -> Seq<Seq<char>> {
    if values.contains(name) {
        seq![name]
    } else {
        Seq::empty()
    }
}

/// The distinct requested states in sorted order, when the request names at
/// least one state and nothing but supported states.
pub open spec fn normalized_states(values: Seq<Seq<char>>) -> Option<Seq<Seq<char>>> {
    if values.len() > 0 && forall|i: int| 0 <= i < values.len() ==> is_session_state_name(values[i]) {
        Some(
            present(values, "charging"@) + present(values, "discharging"@) + present(
                values,
                "full"@,
            ) + present(values, "unknown"@),
        )
    } else {
        None
    }
}

/// The views of a list of strings.
pub open spec fn string_views(values: Seq<String>) -> Seq<Seq<char>> {
    values.map_values(|v: String| v@)
}

/// The view of an optional string.
pub open spec fn opt_string(value: Option<String>) -> Option<Seq<char>> {
    match value {
        Some(s) => Some(s@),
        None => None,
    }
}

/// The view of an optional static string.
pub open spec fn opt_static(value: Option<&'static str>) -> Option<Seq<char>> {
    match value {
        Some(s) => Some(s@),
        None => None,
    }
}

proof fn lemma_contains_push(s: Seq<Seq<char>>, x: Seq<char>, y: Seq<char>)
    ensures
        s.push(x).contains(y) == (s.contains(y) || x == y),
{
    if s.contains(y) {
        let k = choose|k: int| 0 <= k < s.len() && s[k] == y;
        assert(s.push(x)[k] == y);
    }
    if x == y {
        assert(s.push(x)[s.len() as int] == y);
    }
    if s.push(x).contains(y) {
        let k = choose|k: int| 0 <= k < s.push(x).len() && s.push(x)[k] == y;
        if k < s.len() {
            assert(s[k] == y);
        }
    }
}

fn push_if_present(out: &mut Vec<String>, found: bool, name: &str)
    ensures
        found ==> final(out)@.len() == old(out)@.len() + 1 && final(out)@.drop_last() == old(out)@
            && final(out)@.last()@ == name@,
        !found ==> final(out)@ == old(out)@,
{
    if found {
        let cs = chars_of(name);
        assert(cs@.subrange(0, cs@.len() as int) =~= cs@);
        out.push(crate::text::string_from_range(cs.as_slice(), 0, cs.len()));
        assert(out@.drop_last() =~= old(out)@);
    }
}

/// Checks a session-state filter: the distinct requested states, sorted,
/// or `None` when the filter is empty or names an unsupported state.
pub fn normalize_session_states(values: &[String]) -> (r: Option<Vec<String>>)
    ensures
        match (r, normalized_states(string_views(values@))) {
            (Some(v), Some(expected)) => string_views(v@) == expected,
            (None, None) => true,
            _ => false,
        },
{
    let ghost views = string_views(values@);
    let mut charging = false;
    let mut discharging = false;
    let mut full = false;
    let mut unknown = false;
    let mut i: usize = 0;
    while i < values.len()
        invariant
            i <= values@.len(),
            views == string_views(values@),
            forall|k: int| 0 <= k < i ==> is_session_state_name(#[trigger] views[k]),
            charging == views.take(i as int).contains("charging"@),
            discharging == views.take(i as int).contains("discharging"@),
            full == views.take(i as int).contains("full"@),
            unknown == views.take(i as int).contains("unknown"@),
        decreases values.len() - i,
    {
        let v = values[i].as_str();
        proof {
            reveal_strlit("charging");
            reveal_strlit("discharging");
            reveal_strlit("full");
            reveal_strlit("unknown");
            assert("charging"@.len() == 8 && "discharging"@.len() == 11);
            assert("full"@.len() == 4 && "unknown"@.len() == 7);
            assert(views.take(i + 1) =~= views.take(i as int).push(v@));
            lemma_contains_push(views.take(i as int), v@, "charging"@);
            lemma_contains_push(views.take(i as int), v@, "discharging"@);
            lemma_contains_push(views.take(i as int), v@, "full"@);
            lemma_contains_push(views.take(i as int), v@, "unknown"@);
        }
        if text_equals(v, "charging") {
            charging = true;
        } else if text_equals(v, "discharging") {
            discharging = true;
        } else if text_equals(v, "full") {
            full = true;
        } else if text_equals(v, "unknown") {
            unknown = true;
        } else {
            assert(!is_session_state_name(views[i as int]));
            return None;
        }
        i = i + 1;
    }
    assert(views.take(views.len() as int) =~= views);
    if values.len() == 0 {
        return None;
    }
    let mut out: Vec<String> = Vec::new();
    push_if_present(&mut out, charging, "charging");
    let ghost a = string_views(out@);
    assert(a =~= present(views, "charging"@));
    push_if_present(&mut out, discharging, "discharging");
    let ghost b = string_views(out@);
    assert(b =~= a + present(views, "discharging"@)) by {
        if discharging {
            assert(string_views(out@).drop_last() =~= string_views(out@.drop_last()));
        }
    }
    push_if_present(&mut out, full, "full");
    let ghost c = string_views(out@);
    assert(c =~= b + present(views, "full"@)) by {
        if full {
            assert(string_views(out@).drop_last() =~= string_views(out@.drop_last()));
        }
    }
    push_if_present(&mut out, unknown, "unknown");
    assert(string_views(out@) =~= c + present(views, "unknown"@)) by {
        if unknown {
            assert(string_views(out@).drop_last() =~= string_views(out@.drop_last()));
        }
    }
    Some(out)
}

// ---------------------------------------------------------------------------
// Export requests
// ---------------------------------------------------------------------------

/// The answer to an export request.
#[derive(Clone, Debug)]
pub struct ExportResponse {
    /// Version of this response schema.
    pub schema_version: u8,
    /// `available` after a file was written, else `unavailable`.
    pub availability: &'static str,
    /// Machine-readable reason for an unavailable export.
    pub unavailable_reason: Option<&'static str>,
    /// The data type, canonical once it was recognised.
    pub data_type: String,
    /// The format, lower-cased, canonical once it was recognised.
    pub format: String,
    /// The destination the request named, where it is echoed back.
    pub destination: Option<String>,
    /// Rows written.
    pub record_count: usize,
    /// Size of the written file, when it could be read back.
    pub bytes_written: Option<u64>,
    /// Human-readable failure description.
    pub error: Option<String>,
}

/// The content of an [`ExportResponse`].
pub struct ExportResponseModel {
    pub schema_version: u8,
    pub availability: Seq<char>,
    pub unavailable_reason: Option<Seq<char>>,
    pub data_type: Seq<char>,
    pub format: Seq<char>,
    pub destination: Option<Seq<char>>,
    pub record_count: usize,
    pub bytes_written: Option<u64>,
    pub error: Option<Seq<char>>,
}

impl View for ExportResponse {
    type V = ExportResponseModel;

    open spec fn view(&self) -> ExportResponseModel {
        ExportResponseModel {
            schema_version: self.schema_version,
            availability: self.availability@,
            unavailable_reason: opt_static(self.unavailable_reason),
            data_type: self.data_type@,
            format: self.format@,
            destination: opt_string(self.destination),
            record_count: self.record_count,
            bytes_written: self.bytes_written,
            error: opt_string(self.error),
        }
    }
}

/// An unavailable export answer.
pub open spec fn failed_export_model(
    data_type: Seq<char>,
    format: Seq<char>,
    destination: Option<Seq<char>>,
    reason: Seq<char>,
    message: Seq<char>,
) -> ExportResponseModel {
    ExportResponseModel {
        schema_version: 1,
        availability: "unavailable"@,
        unavailable_reason: Some(reason),
        data_type,
        format,
        destination,
        record_count: 0,
        bytes_written: None,
        error: Some(message),
    }
}

/// Builds an unavailable export answer; nothing was written.
pub fn failed_export(
    data_type: String,
    format: String,
    destination: Option<String>,
    reason: &'static str,
    message: &str,
) -> (r: ExportResponse)
    ensures
        r@ == failed_export_model(data_type@, format@, opt_string(destination), reason@, message@),
{
    ExportResponse {
        schema_version: 1,
        availability: "unavailable",
        unavailable_reason: Some(reason),
        data_type,
        format,
        destination,
        record_count: 0,
        bytes_written: None,
        error: Some(owned_text(message)),
    }
}

/// A user-initiated export request. The destination is a required caller
/// value: no application path is ever invented for it.
#[derive(Clone, Debug)]
pub struct ExportRequest {
    /// `raw-samples`, `sessions` or `summaries` (and their accepted aliases).
    pub data_type: String,
    /// `csv` or `json`, in any letter case.
    pub format: String,
    /// Absolute path selected by the user.
    pub destination: String,
    /// Restricts the export to one battery.
    pub battery_id: Option<String>,
    /// First local calendar day, `YYYY-MM-DD`.
    pub start_date: Option<String>,
    /// Last local calendar day, `YYYY-MM-DD`.
    pub end_date: Option<String>,
    /// IANA time zone of the calendar days; UTC when absent.
    pub timezone: Option<String>,
    /// `daily`, `weekly` or `monthly` for summaries; daily when absent.
    pub summary_period: Option<String>,
}

/// The content of an [`ExportRequest`].
pub struct ExportRequestModel {
    pub data_type: Seq<char>,
    pub format: Seq<char>,
    pub destination: Seq<char>,
    pub battery_id: Option<Seq<char>>,
    pub start_date: Option<Seq<char>>,
    pub end_date: Option<Seq<char>>,
    pub timezone: Option<Seq<char>>,
    pub summary_period: Option<Seq<char>>,
}

impl View for ExportRequest {
    type V = ExportRequestModel;

    open spec fn view(&self) -> ExportRequestModel {
        ExportRequestModel {
            data_type: self.data_type@,
            format: self.format@,
            destination: self.destination@,
            battery_id: opt_string(self.battery_id),
            start_date: opt_string(self.start_date),
            end_date: opt_string(self.end_date),
            timezone: opt_string(self.timezone),
            summary_period: opt_string(self.summary_period),
        }
    }
}

/// What an accepted export request asks for.
#[derive(Clone, Debug)]
pub struct ExportPlan {
    /// Which rows to export.
    pub data_type: ExportDataType,
    /// How to encode them.
    pub format: ExportFormat,
    /// The IANA time zone name of the calendar days.
    pub timezone: String,
}

/// The content of an [`ExportPlan`].
pub struct ExportPlanModel {
    pub data_type: ExportDataType,
    pub format: ExportFormat,
    pub timezone: Seq<char>,
}

impl View for ExportPlan {
    type V = ExportPlanModel;

    open spec fn view(&self) -> ExportPlanModel {
        ExportPlanModel {
            data_type: self.data_type,
            format: self.format,
            timezone: self.timezone@,
        }
    }
}

/// The content of a request check's outcome.
pub open spec fn plan_result(r: Result<ExportPlan, ExportResponse>) -> Result<
    ExportPlanModel,
    ExportResponseModel,
> {
    match r {
        Ok(plan) => Ok(plan@),
        Err(response) => Err(response@),
    }
}

/// A Unix path is absolute when it starts at the root.
pub open spec fn is_absolute_path(path: Seq<char>) -> bool {
    path.len() > 0 && path[0] == '/'
}

/// The time zone a request names; UTC when it names none.
pub open spec fn requested_timezone(request: ExportRequestModel) -> Seq<char> {
    match request.timezone {
        Some(name) => name,
        None => "UTC"@,
    }
}

/// The checks made on an export request before any history is read, in
/// order: data type, format, destination present, destination absolute,
/// battery identifier not blank, and a known time zone.
pub open spec fn export_check(request: ExportRequestModel, timezone_known: bool) -> Result<
    ExportPlanModel,
    ExportResponseModel,
> {
    let format = ascii_lower(request.format);
    let destination = request.destination;
    match export_data_type_of(request.data_type) {
        None => Err(
            failed_export_model(
                request.data_type,
                format,
                Some(destination),
                "invalid-request"@,
                "data_type must be raw-samples, sessions, or summaries"@,
            ),
        ),
        Some(data_type) => {
            let name = export_data_type_name(data_type);
            if format != "csv"@ && format != "json"@ {
                Err(
                    failed_export_model(
                        name,
                        format,
                        Some(destination),
                        "invalid-request"@,
                        "format must be csv or json"@,
                    ),
                )
            } else {
                let f = if format == "csv"@ {
                    ExportFormat::Csv
                } else {
                    ExportFormat::Json
                };
                let fname = format_spec_name(f);
                if trim(destination).len() == 0 {
                    Err(
                        failed_export_model(
                            name,
                            fname,
                            None,
                            "invalid-request"@,
                            "an explicit user-selected destination is required"@,
                        ),
                    )
                } else if !is_absolute_path(destination) {
                    Err(
                        failed_export_model(
                            name,
                            fname,
                            Some(destination),
                            "invalid-request"@,
                            "the export destination must be an absolute user-selected path"@,
                        ),
                    )
                } else if request.battery_id matches Some(id) && trim(id).len() == 0 {
                    Err(
                        failed_export_model(
                            name,
                            fname,
                            Some(destination),
                            "invalid-request"@,
                            "battery_id must not be empty when supplied"@,
                        ),
                    )
                } else if !timezone_known {
                    Err(
                        failed_export_model(
                            name,
                            fname,
                            Some(destination),
                            "invalid-request"@,
                            "timezone must be a valid IANA timezone"@,
                        ),
                    )
                } else {
                    Ok(ExportPlanModel { data_type, format: f, timezone: requested_timezone(request) })
                }
            }
        },
    }
}

/// Checks an export request, given whether its time zone is known.
pub fn check_export_request(request: &ExportRequest, timezone_known: bool) -> (r: Result<
    ExportPlan,
    ExportResponse,
>)
    ensures
        plan_result(r) == export_check(request@, timezone_known),
{
    let format = to_ascii_lowercase(request.format.as_str());
    let data_type = match ExportDataType::parse(request.data_type.as_str()) {
        Some(t) => t,
        None => {
            return Err(
                failed_export(
                    request.data_type.clone(),
                    format,
                    Some(request.destination.clone()),
                    "invalid-request",
                    "data_type must be raw-samples, sessions, or summaries",
                ),
            );
        },
    };
    let name = data_type.as_str();
    let f = if text_equals(format.as_str(), "csv") {
        ExportFormat::Csv
    } else if text_equals(format.as_str(), "json") {
        ExportFormat::Json
    } else {
        return Err(
            failed_export(
                owned_text(name),
                format,
                Some(request.destination.clone()),
                "invalid-request",
                "format must be csv or json",
            ),
        );
    };
    let fname = format_name(f);
    if is_blank(request.destination.as_str()) {
        return Err(
            failed_export(
                owned_text(name),
                owned_text(fname),
                None,
                "invalid-request",
                "an explicit user-selected destination is required",
            ),
        );
    }
    let dest = chars_of(request.destination.as_str());
    if !(dest.len() > 0 && dest[0] == '/') {
        return Err(
            failed_export(
                owned_text(name),
                owned_text(fname),
                Some(request.destination.clone()),
                "invalid-request",
                "the export destination must be an absolute user-selected path",
            ),
        );
    }
    let blank_id = match &request.battery_id {
        Some(id) => is_blank(id.as_str()),
        None => false,
    };
    if blank_id {
        return Err(
            failed_export(
                owned_text(name),
                owned_text(fname),
                Some(request.destination.clone()),
                "invalid-request",
                "battery_id must not be empty when supplied",
            ),
        );
    }
    if !timezone_known {
        return Err(
            failed_export(
                owned_text(name),
                owned_text(fname),
                Some(request.destination.clone()),
                "invalid-request",
                "timezone must be a valid IANA timezone",
            ),
        );
    }
    let timezone = match &request.timezone {
        Some(t) => t.clone(),
        None => owned_text("UTC"),
    };
    Ok(ExportPlan { data_type, format: f, timezone })
}

/// Whether `chrono_tz` knows the time zone called `name`.
pub uninterp spec fn known_timezone(name: Seq<char>) -> bool;

/// `chrono_tz::Tz`'s `FromStr`: a lookup of `name` in the crate's fixed table
/// of IANA zone names. Claimed: whether it succeeds depends on `name` alone,
/// and the table holds `UTC`; which other names it holds is not stated.
#[verifier::external_body]
fn timezone_is_known(name: &str) -> (r: bool)
    ensures
        r == known_timezone(name@),
        name@ == "UTC"@ ==> r,
{
    name.parse::<chrono_tz::Tz>().is_ok()
}

/// Checks an export request before any history is read.
pub fn validate_export_request(request: &ExportRequest) -> (r: Result<ExportPlan, ExportResponse>)
    ensures
        plan_result(r) == export_check(request@, known_timezone(requested_timezone(request@))),
        requested_timezone(request@) == "UTC"@ ==> plan_result(r) == export_check(request@, true),
{
    let known = match &request.timezone {
        Some(name) => timezone_is_known(name.as_str()),
        None => timezone_is_known("UTC"),
    };
    check_export_request(request, known)
}

/// The summary period a request names; daily when it names none.
pub open spec fn summary_period_of(value: Option<Seq<char>>) -> Option<SessionAggregationPeriod> {
    let period = match value {
        Some(p) => p,
        None => "daily"@,
    };
    if period == "daily"@ {
        Some(SessionAggregationPeriod::Daily)
    } else if period == "weekly"@ {
        Some(SessionAggregationPeriod::Weekly)
    } else if period == "monthly"@ {
        Some(SessionAggregationPeriod::Monthly)
    } else {
        None
    }
}

/// The summary period a request names; daily when it names none, `None`
/// when it names an unsupported period.
pub fn summary_period(value: Option<&str>) -> (r: Option<SessionAggregationPeriod>)
    ensures
        r == summary_period_of(crate::battery::opt_view(value)),
{
    let period = match value {
        Some(p) => p,
        None => "daily",
    };
    if text_equals(period, "daily") {
        Some(SessionAggregationPeriod::Daily)
    } else if text_equals(period, "weekly") {
        Some(SessionAggregationPeriod::Weekly)
    } else if text_equals(period, "monthly") {
        Some(SessionAggregationPeriod::Monthly)
    } else {
        None
    }
}

/// Why the rows of an accepted export could not be loaded.
#[derive(Clone, Copy, Debug, PartialEq, Eq)]
pub enum ExportLoadError {
    /// No history exists for the request; the reason to report.
    Unavailable(&'static str),
    /// The request is malformed in a way only visible while loading.
    Invalid(&'static str),
    /// The local history database could not be read.
    Database,
}

/// The answer when the rows of an accepted export could not be loaded.
pub open spec fn load_failure_model(
    plan: ExportPlanModel,
    destination: Seq<char>,
    error: ExportLoadError,
) -> ExportResponseModel {
    let name = export_data_type_name(plan.data_type);
    let fname = format_spec_name(plan.format);
    match error {
        ExportLoadError::Unavailable(reason) => failed_export_model(
            name,
            fname,
            Some(destination),
            reason@,
            unavailable_message_for(reason@),
        ),
        ExportLoadError::Invalid(message) => failed_export_model(
            name,
            fname,
            Some(destination),
            "invalid-request"@,
            message@,
        ),
        ExportLoadError::Database => failed_export_model(
            name,
            fname,
            Some(destination),
            "database-unavailable"@,
            "the local history database could not be read"@,
        ),
    }
}

/// The answer when the rows of an accepted export could not be loaded.
pub fn export_load_failure(plan: &ExportPlan, destination: String, error: ExportLoadError) -> (r:
    ExportResponse)
    ensures
        r@ == load_failure_model(plan@, destination@, error),
{
    let name = owned_text(plan.data_type.as_str());
    let fname = owned_text(format_name(plan.format));
    match error {
        ExportLoadError::Unavailable(reason) => failed_export(
            name,
            fname,
            Some(destination),
            reason,
            export_unavailable_message(reason),
        ),
        ExportLoadError::Invalid(message) => failed_export(
            name,
            fname,
            Some(destination),
            "invalid-request",
            message,
        ),
        ExportLoadError::Database => failed_export(
            name,
            fname,
            Some(destination),
            "database-unavailable",
            "the local history database could not be read",
        ),
    }
}

/// The reason reported for a failed write.
pub open spec fn write_failure_reason(error: ExportError) -> Seq<char> {
    match error {
        ExportError::DestinationExists(_) => "destination-exists"@,
        ExportError::InvalidPath(_) => "invalid-destination"@,
        ExportError::Io(_) => "destination-write-failed"@,
    }
}

/// The answer when writing an export file failed.
pub fn export_write_failure(plan: &ExportPlan, destination: String, error: &ExportError) -> (r:
    ExportResponse)
    ensures
        r@ == failed_export_model(
            export_data_type_name(plan.data_type),
            format_spec_name(plan.format),
            Some(destination@),
            write_failure_reason(*error),
            export_error_text(*error),
        ),
{
    let reason = match error {
        ExportError::DestinationExists(_) => "destination-exists",
        ExportError::InvalidPath(_) => "invalid-destination",
        ExportError::Io(_) => "destination-write-failed",
    };
    let message = error.message();
    failed_export(
        owned_text(plan.data_type.as_str()),
        owned_text(format_name(plan.format)),
        Some(destination),
        reason,
        message.as_str(),
    )
}

/// The answer after an export file was written.
pub fn export_written(
    plan: &ExportPlan,
    destination: String,
    record_count: usize,
    bytes_written: Option<u64>,
) -> (r: ExportResponse)
    ensures
        r@ == (ExportResponseModel {
            schema_version: 1,
            availability: "available"@,
            unavailable_reason: None,
            data_type: export_data_type_name(plan.data_type),
            format: format_spec_name(plan.format),
            destination: Some(destination@),
            record_count,
            bytes_written,
            error: None,
        }),
{
    ExportResponse {
        schema_version: 1,
        availability: "available",
        unavailable_reason: None,
        data_type: owned_text(plan.data_type.as_str()),
        format: owned_text(format_name(plan.format)),
        destination: Some(destination),
        record_count,
        bytes_written,
        error: None,
    }
}

// ---------------------------------------------------------------------------
// Session rebuilds and the recorder
// ---------------------------------------------------------------------------

/// The answer to an explicit rebuild of derived sessions.
#[derive(Clone, Debug)]
pub struct SessionRebuildResponse {
    /// Version of this response schema.
    pub schema_version: u8,
    /// `available` after a rebuild, else `unavailable`.
    pub availability: &'static str,
    /// Machine-readable reason for an unavailable rebuild.
    pub unavailable_reason: Option<&'static str>,
    /// RFC 3339 time of the rebuild.
    pub rebuilt_at: Option<String>,
    /// Number of sessions derived by the rebuild.
    pub sessions_rebuilt: Option<u64>,
}

impl SessionRebuildResponse {
    /// The answer when no rebuild took place.
    pub fn unavailable(reason: &'static str) -> (r: SessionRebuildResponse)
        ensures
            r.schema_version == 1,
            r.availability@ == "unavailable"@,
            r.unavailable_reason == Some(reason),
            r.rebuilt_at is None,
            r.sessions_rebuilt is None,
    {
        SessionRebuildResponse {
            schema_version: 1,
            availability: "unavailable",
            unavailable_reason: Some(reason),
            rebuilt_at: None,
            sessions_rebuilt: None,
        }
    }

    /// The answer after `sessions_rebuilt` sessions were derived.
    pub fn rebuilt(rebuilt_at: Option<String>, sessions_rebuilt: u64) -> (r: SessionRebuildResponse)
        ensures
            r.schema_version == 1,
            r.availability@ == "available"@,
            r.unavailable_reason is None,
            r.rebuilt_at == rebuilt_at,
            r.sessions_rebuilt == Some(sessions_rebuilt),
    {
        SessionRebuildResponse {
            schema_version: 1,
            availability: "available",
            unavailable_reason: None,
            rebuilt_at,
            sessions_rebuilt: Some(sessions_rebuilt),
        }
    }
}

/// What the history database says of the last recorded sample.
#[derive(Clone, Debug)]
pub enum RecordedHistory {
    /// No sample has been recorded (or no database exists).
    Never,
    /// A sample was recorded; its RFC 3339 time where it can be written.
    Recorded(Option<String>),
    /// The database could not be read; the description of the failure.
    Failed(String),
}

/// The recorder control and diagnostics answer.
#[derive(Clone, Debug)]
pub struct RecorderStatusResponse {
    /// Version of this response schema.
    pub schema_version: u8,
    /// Whether a user service manager can schedule the recorder.
    pub supported: bool,
    /// Whether the recorder timer is enabled.
    pub enabled: bool,
    /// Always `idle`: a request has completed when this answer is built.
    pub transition: &'static str,
    /// `healthy`, `unknown` or `error`.
    pub health: &'static str,
    /// RFC 3339 time of the last recorded sample.
    pub last_recorded_at: Option<String>,
    /// Description of a failed request or an unreadable state.
    pub error: Option<String>,
}

/// The content of a [`RecorderStatusResponse`].
pub struct RecorderStatusModel {
    pub schema_version: u8,
    pub supported: bool,
    pub enabled: bool,
    pub transition: Seq<char>,
    pub health: Seq<char>,
    pub last_recorded_at: Option<Seq<char>>,
    pub error: Option<Seq<char>>,
}

impl View for RecorderStatusResponse {
    type V = RecorderStatusModel;

    open spec fn view(&self) -> RecorderStatusModel {
        RecorderStatusModel {
            schema_version: self.schema_version,
            supported: self.supported,
            enabled: self.enabled,
            transition: self.transition@,
            health: self.health@,
            last_recorded_at: opt_string(self.last_recorded_at),
            error: opt_string(self.error),
        }
    }
}

/// The recorder status for a scheduler status and what the database holds.
/// The database is not consulted where the scheduler is unavailable.
pub open spec fn recorder_status_model(
    request_error: Option<Seq<char>>,
    scheduler: SchedulerStatus,
    history: RecordedHistory,
) -> RecorderStatusModel {
    match scheduler {
        SchedulerStatus::Unavailable { reason } => RecorderStatusModel {
            schema_version: 1,
            supported: false,
            enabled: false,
            transition: "idle"@,
            health: "unknown"@,
            last_recorded_at: None,
            error: match request_error {
                Some(e) => Some(e),
                None => Some(reason@),
            },
        },
        _ => {
            let enabled = scheduler is Enabled;
            match history {
                RecordedHistory::Failed(message) => RecorderStatusModel {
                    schema_version: 1,
                    supported: true,
                    enabled,
                    transition: "idle"@,
                    health: "error"@,
                    last_recorded_at: None,
                    error: match request_error {
                        Some(e) => Some(e),
                        None => Some(message@),
                    },
                },
                RecordedHistory::Never => RecorderStatusModel {
                    schema_version: 1,
                    supported: true,
                    enabled,
                    transition: "idle"@,
                    health: "unknown"@,
                    last_recorded_at: None,
                    error: request_error,
                },
                RecordedHistory::Recorded(at) => RecorderStatusModel {
                    schema_version: 1,
                    supported: true,
                    enabled,
                    transition: "idle"@,
                    health: if enabled {
                        "healthy"@
                    } else {
                        "unknown"@
                    },
                    last_recorded_at: opt_string(at),
                    error: request_error,
                },
            }
        },
    }
}

/// Builds the recorder status from the scheduler status and, where the
/// scheduler is available, what the database says of the last sample.
pub fn recorder_status(
    request_error: Option<String>,
    scheduler: SchedulerStatus,
    history: RecordedHistory,
) -> (r: RecorderStatusResponse)
    ensures
        r@ == recorder_status_model(opt_string(request_error), scheduler, history),
{
    match scheduler {
        SchedulerStatus::Unavailable { reason } => RecorderStatusResponse {
            schema_version: 1,
            supported: false,
            enabled: false,
            transition: "idle",
            health: "unknown",
            last_recorded_at: None,
            error: match request_error {
                Some(e) => Some(e),
                None => Some(reason),
            },
        },
        _ => {
            let enabled = match scheduler {
                SchedulerStatus::Enabled => true,
                _ => false,
            };
            match history {
                RecordedHistory::Failed(message) => RecorderStatusResponse {
                    schema_version: 1,
                    supported: true,
                    enabled,
                    transition: "idle",
                    health: "error",
                    last_recorded_at: None,
                    error: match request_error {
                        Some(e) => Some(e),
                        None => Some(message),
                    },
                },
                RecordedHistory::Never => RecorderStatusResponse {
                    schema_version: 1,
                    supported: true,
                    enabled,
                    transition: "idle",
                    health: "unknown",
                    last_recorded_at: None,
                    error: request_error,
                },
                RecordedHistory::Recorded(at) => RecorderStatusResponse {
                    schema_version: 1,
                    supported: true,
                    enabled,
                    transition: "idle",
                    health: if enabled {
                        "healthy"
                    } else {
                        "unknown"
                    },
                    last_recorded_at: at,
                    error: request_error,
                },
            }
        },
    }
}

/// The error reported when recording is enabled on a system whose user
/// service manager is unavailable; `None` where the request may proceed.
pub open spec fn enable_refusal_text(enabled: bool, scheduler: SchedulerStatus) -> Option<Seq<char>> {
    match scheduler {
        SchedulerStatus::Unavailable { reason } => if enabled {
            Some("background recording is unsupported on this system: "@ + reason@)
        } else {
            None
        },
        _ => None,
    }
}

/// The error reported when recording is enabled on a system whose user
/// service manager is unavailable; `None` where the request may proceed.
pub fn enable_refusal(enabled: bool, scheduler: &SchedulerStatus) -> (r: Option<String>)
    ensures
        opt_string(r) == enable_refusal_text(enabled, *scheduler),
{
    match scheduler {
        SchedulerStatus::Unavailable { reason } => if enabled {
            let mut out = String::new();
            assert(out@ =~= Seq::<char>::empty());
            crate::text::push_text(&mut out, "background recording is unsupported on this system: ");
            crate::text::push_text(&mut out, reason.as_str());
            Some(out)
        } else {
            None
        },
        _ => None,
    }
}

/// A recorder reported healthy has its timer enabled and has recorded at
/// least one sample; every unsupported system is reported not enabled.
pub proof fn lemma_recorder_health(
    request_error: Option<Seq<char>>,
    scheduler: SchedulerStatus,
    history: RecordedHistory,
)
    ensures
        ({
            let status = recorder_status_model(request_error, scheduler, history);
            &&& status.health == "healthy"@ ==> (scheduler is Enabled && history is Recorded)
            &&& !status.supported ==> !status.enabled && status.last_recorded_at is None
        }),
{
    reveal_strlit("healthy");
    reveal_strlit("unknown");
    reveal_strlit("error");
    assert("healthy"@[0] != "unknown"@[0]);
    assert("healthy"@[0] != "error"@[0]);
}

// ---------------------------------------------------------------------------
// Recent history, sessions and anomalies
// ---------------------------------------------------------------------------

/// How a recent-history answer describes where its points came from.
#[derive(Clone, Copy, Debug, PartialEq, Eq)]
pub struct HistoryStatus {
    /// `available` when any point exists, else `unavailable`.
    pub availability: &'static str,
    /// Why no recorded history is shown, if none is.
    pub unavailable_reason: Option<&'static str>,
    /// `sqlite`, `transient` or `unavailable`.
    pub source: &'static str,
}

/// The description of a recent-history answer, from the recorder state and
/// which kinds of point it holds. A disabled recorder is always reported,
/// even beside recorded points, so that the user knows history has stopped.
pub open spec fn history_status_of(
    recorder_state: Seq<char>,
    has_persisted: bool,
    has_transient: bool,
) -> (Seq<char>, Option<Seq<char>>, Seq<char>) {
    (
        if has_persisted || has_transient {
            "available"@
        } else {
            "unavailable"@
        },
        if recorder_state == "disabled"@ {
            Some("recorder-disabled"@)
        } else if !has_persisted {
            Some(unavailable_reason_for(recorder_state))
        } else {
            None
        },
        if has_persisted {
            "sqlite"@
        } else if has_transient {
            "transient"@
        } else {
            "unavailable"@
        },
    )
}

/// Describes a recent-history answer: its availability, the reason shown
/// when recorded history is missing, and the source of its points.
pub fn recent_history_status(recorder_state: &str, has_persisted: bool, has_transient: bool) -> (r:
    HistoryStatus)
    ensures
        (r.availability@, opt_static(r.unavailable_reason), r.source@) == history_status_of(
            recorder_state@,
            has_persisted,
            has_transient,
        ),
{
    let unavailable_reason = if text_equals(recorder_state, "disabled") {
        Some("recorder-disabled")
    } else if !has_persisted {
        Some(recorder_unavailable_reason(recorder_state))
    } else {
        None
    };
    HistoryStatus {
        availability: if has_persisted || has_transient {
            "available"
        } else {
            "unavailable"
        },
        unavailable_reason,
        source: if has_persisted {
            "sqlite"
        } else if has_transient {
            "transient"
        } else {
            "unavailable"
        },
    }
}

/// The anomaly window of a request, in hours: 24 when none is named, and
/// at most 30 days. `Err` carries the window to report back with an invalid
/// request: a blank battery identifier or a window outside 1 to 720 hours.
pub fn anomaly_range(battery_id: Option<&str>, range_hours: Option<u16>) -> (r: Result<u16, u16>)
    ensures
        battery_id matches Some(id) && trim(id@).len() == 0 ==> r == Err::<u16, u16>(24),
        !(battery_id matches Some(id) && trim(id@).len() == 0) ==> ({
            let range = match range_hours {
                Some(h) => h,
                None => 24,
            };
            r == if 1 <= range <= 720 {
                Ok::<u16, u16>(range)
            } else {
                Err::<u16, u16>(range)
            }
        }),
{
    let blank = match battery_id {
        Some(id) => is_blank(id),
        None => false,
    };
    if blank {
        return Err(24);
    }
    let range = match range_hours {
        Some(h) => h,
        None => 24,
    };
    if 1 <= range && range <= 720 {
        Ok(range)
    } else {
        Err(range)
    }
}

/// Whether the rows of a history come from more than one physical battery;
/// such a history is never reported as one battery's health or anomalies.
pub fn has_several_batteries(battery_ids: &[String]) -> (r: bool)
    ensures
        r == exists|i: int, j: int|
            0 <= i < battery_ids@.len() && 0 <= j < battery_ids@.len() && #[trigger] battery_ids@[i]@
                != #[trigger] battery_ids@[j]@,
{
    if battery_ids.len() == 0 {
        return false;
    }
    let mut k: usize = 1;
    while k < battery_ids.len()
        invariant
            1 <= k <= battery_ids@.len(),
            forall|x: int| 0 <= x < k ==> #[trigger] battery_ids@[x]@ == battery_ids@[0]@,
        decreases battery_ids.len() - k,
    {
        if !battery_ids[k].eq(&battery_ids[0]) {
            assert(battery_ids@[k as int]@ != battery_ids@[0]@);
            return true;
        }
        k = k + 1;
    }
    false
}

/// The frontend spelling of why a session ended.
pub open spec fn boundary_reason_name(reason: SessionInterruptReason) -> Seq<char> {
    match reason {
        SessionInterruptReason::StateChanged => "state-change"@,
        SessionInterruptReason::BootChanged => "rebooted"@,
        SessionInterruptReason::SampleGap => "sampling-gap"@,
        SessionInterruptReason::DataEnded => "end-of-data"@,
    }
}

/// The frontend spelling of why a session ended.
pub fn boundary_reason(reason: SessionInterruptReason) -> (r: &'static str)
    ensures
        r@ == boundary_reason_name(reason),
{
    match reason {
        SessionInterruptReason::StateChanged => "state-change",
        SessionInterruptReason::BootChanged => "rebooted",
        SessionInterruptReason::SampleGap => "sampling-gap",
        SessionInterruptReason::DataEnded => "end-of-data",
    }
}

/// The frontend spelling of a session's completeness.
pub fn completeness(complete: bool) -> (r: &'static str)
    ensures
        complete ==> r@ == "complete"@,
        !complete ==> r@ == "incomplete"@,
{
    if complete {
        "complete"
    } else {
        "incomplete"
    }
}

/// How far a recorded point may lag behind before history counts as stale:
/// three minutes, in nanoseconds.
pub const STALE_AFTER_NANOS: i128 = 180_000_000_000;

/// Whether the newest recorded point of a history is current.
/// `latest_persisted` is `None` when no point was recorded, and holds the
/// newest recorded point's instant, when its timestamp can be read.
pub open spec fn freshness_of(
    latest_persisted: Option<Option<i128>>,
    has_transient: bool,
    now_nanos: i128,
) -> Seq<char> {
    match latest_persisted {
        None => if has_transient {
            "fresh"@
        } else {
            "unknown"@
        },
        Some(Some(instant)) => if now_nanos - instant > STALE_AFTER_NANOS {
            "stale"@
        } else {
            "fresh"@
        },
        Some(None) => "fresh"@,
    }
}

/// Whether the newest recorded point of a history is current: stale when
/// it is more than three minutes old, fresh otherwise; a history with only
/// a live point is fresh, and one with no point at all is of unknown age.
pub fn history_freshness(
    latest_persisted: Option<Option<i128>>,
    has_transient: bool,
    now_nanos: i128,
) -> (r: &'static str)
    ensures
        r@ == freshness_of(latest_persisted, has_transient, now_nanos),
{
    match latest_persisted {
        None => if has_transient {
            "fresh"
        } else {
            "unknown"
        },
        Some(Some(instant)) => {
            let stale = if now_nanos >= i128::MIN + STALE_AFTER_NANOS {
                now_nanos - STALE_AFTER_NANOS > instant
            } else {
                false
            };
            if stale {
                "stale"
            } else {
                "fresh"
            }
        },
        Some(None) => "fresh",
    }
}

} // verus!
