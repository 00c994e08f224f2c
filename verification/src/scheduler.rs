//! Opt-in management of the per-user systemd recorder timer.
//!
//! This module does not install binaries or unit files. A caller must stage
//! those application-owned files in the user's XDG locations before calling
//! [`SystemdUserScheduler::enable`]. The only state changes performed here
//! follow an explicit enable or disable request and use `systemctl --user`.

use vstd::prelude::*;
use crate::text::trim;
use crate::text::chars_of;
use crate::text::trim_bounds;
use crate::text::string_from_range;
use crate::text::range_equals;
use crate::text::push_char;
use crate::text::push_text;
use crate::text::push_decimal;
use crate::text::decimal_text;
use crate::text::replace_all;
use crate::text::replace_text;
use crate::text::has_char;

verus! {

/// Name of the one-shot recorder service managed by the timer.
pub const RECORDER_SERVICE_UNIT: &'static str = "battery-dashboard-recorder.service";

/// Name of the opt-in timer which triggers the recorder service.
pub const RECORDER_TIMER_UNIT: &'static str = "battery-dashboard-recorder.timer";

/// Placeholder in the service template that an explicit installer must replace.
pub const RECORDER_PATH_PLACEHOLDER: &'static str = "{{RECORDER_PATH}}";

/// Packaged one-shot service template, kept separate from a user's unit file.
pub const RECORDER_SERVICE_TEMPLATE: &'static str = "[Unit]\nDescription=Battery Dashboard one-shot battery recorder\nDocumentation=file://battery-dashboard\n\n[Service]\nType=oneshot\nExecStart={{RECORDER_PATH}}\nNoNewPrivileges=true\nPrivateTmp=true\nProtectSystem=strict\nProtectKernelTunables=true\nProtectControlGroups=true\nRestrictRealtime=true\nLockPersonality=true\n";

/// Packaged 60-second timer template, kept separate from a user's unit file.
pub const RECORDER_TIMER_TEMPLATE: &'static str = "[Unit]\nDescription=Record battery history every minute for Battery Dashboard\n\n[Timer]\nOnActiveSec=10s\nOnUnitActiveSec=60s\nAccuracySec=5s\nPersistent=false\nUnit=battery-dashboard-recorder.service\n\n[Install]\nWantedBy=timers.target\n";

/// Error returned when rendering a systemd unit template for explicit staging.
#[derive(Clone, Copy, Debug, PartialEq, Eq, Structural)]
pub enum TemplateError {
    /// A recorder executable path was empty, relative, or contained a line break.
    InvalidRecorderPath,
}

impl TemplateError {
    /// The user-displayable message.
    pub fn message(&self) -> (r: &'static str)
        ensures
            r@ == "recorder path must be an absolute path without line breaks"@,
    {
        "recorder path must be an absolute path without line breaks"
    }
}

/// Whether `path` can stand in an `ExecStart` directive: it is absolute and
/// holds no line break or NUL character.
pub open spec fn is_safe_path(path: Seq<char>) -> bool {
    path.len() > 0 && path[0] == '/' && !has_char(path, '\n') && !has_char(path, '\r')
        && !has_char(path, '\0')
}

/// `path` with backslashes doubled and quotes backslash-escaped, as systemd
/// expects inside a quoted word.
pub open spec fn escape_unit_path(path: Seq<char>) -> Seq<char>
    decreases path.len(),
{
    if path.len() == 0 {
        Seq::empty()
    } else {
        let head = if path[0] == '\\' {
            seq!['\\', '\\']
        } else if path[0] == '"' {
            seq!['\\', '"']
        } else {
            seq![path[0]]
        };
        head + escape_unit_path(path.drop_first())
    }
}

/// The rendered service unit for a recorder at `path`.
pub open spec fn rendered_service(path: Seq<char>) -> Seq<char> {
    replace_all(
        RECORDER_SERVICE_TEMPLATE@,
        RECORDER_PATH_PLACEHOLDER@,
        seq!['"'] + escape_unit_path(path) + seq!['"'],
    )
}

/// Whether a path can safely be used in `ExecStart`.
pub fn is_safe_absolute_path(path: &str) -> (r: bool)
    ensures
        r == is_safe_path(path@),
{
    let cs = chars_of(path);
    if cs.len() == 0 || cs[0] != '/' {
        return false;
    }
    let mut i: usize = 0;
    while i < cs.len()
        invariant
            i <= cs@.len(),
            cs@ == path@,
            forall|k: int| 0 <= k < i ==> cs@[k] != '\n' && cs@[k] != '\r' && cs@[k] != '\0',
        decreases cs.len() - i,
    {
        if cs[i] == '\n' || cs[i] == '\r' || cs[i] == '\0' {
            return false;
        }
        i = i + 1;
    }
    true
}

fn escape_path(path: &str) -> (r: String)
    ensures
        r@ == escape_unit_path(path@),
{
    let cs = chars_of(path);
    let ghost s = cs@;
    let mut out = String::new();
    let mut i: usize = 0;
    assert(s.skip(0) =~= s);
    while i < cs.len()
        invariant
            s == cs@,
            s == path@,
            i <= cs@.len(),
            escape_unit_path(s) == out@ + escape_unit_path(s.skip(i as int)),
        decreases cs.len() - i,
    {
        let c = cs[i];
        let ghost before = out@;
        proof {
            assert(s.skip(i as int).drop_first() =~= s.skip(i + 1));
            assert(s.skip(i as int)[0] == c);
        }
        if c == '\\' {
            push_char(&mut out, '\\');
            push_char(&mut out, '\\');
            assert(out@ =~= before + seq!['\\', '\\']);
        } else if c == '"' {
            push_char(&mut out, '\\');
            push_char(&mut out, '"');
            assert(out@ =~= before + seq!['\\', '"']);
        } else {
            push_char(&mut out, c);
            assert(out@ =~= before + seq![c]);
        }
        i = i + 1;
    }
    assert(s.skip(s.len() as int) =~= Seq::<char>::empty());
    out
}

/// Renders the service unit for a stable, user-owned recorder executable path.
///
/// Rendering is pure: it does not create directories or write a unit file.
/// The path is quoted and escaped into the template's `ExecStart` line.
pub fn render_recorder_service(recorder_path: &str) -> (r: Result<String, TemplateError>)
    ensures
        !is_safe_path(recorder_path@) ==> r == Err::<String, TemplateError>(
            TemplateError::InvalidRecorderPath,
        ),
        is_safe_path(recorder_path@) ==> (r matches Ok(text) && text@ == rendered_service(
            recorder_path@,
        )),
{
    if !is_safe_absolute_path(recorder_path) {
        return Err(TemplateError::InvalidRecorderPath);
    }
    let escaped = escape_path(recorder_path);
    let mut quoted = String::new();
    push_char(&mut quoted, '"');
    push_text(&mut quoted, escaped.as_str());
    push_char(&mut quoted, '"');
    assert(quoted@ =~= seq!['"'] + escape_unit_path(recorder_path@) + seq!['"']);
    proof {
        reveal_strlit("{{RECORDER_PATH}}");
    }
    Ok(replace_text(RECORDER_SERVICE_TEMPLATE, RECORDER_PATH_PLACEHOLDER, quoted.as_str()))
}

/// The observable state of the systemd user scheduler.
#[derive(Clone, Debug)]
pub enum SchedulerStatus {
    /// The timer is installed and enabled for the current user.
    Enabled,
    /// The timer is available but not enabled for the current user.
    Disabled,
    /// `systemctl --user` could not determine the timer state.
    Unavailable {
        /// Safe diagnostic describing why the user manager cannot be reached.
        reason: String,
    },
}

/// The content of a [`SchedulerStatus`].
pub enum StatusModel {
    Enabled,
    Disabled,
    Unavailable(Seq<char>),
}

impl View for SchedulerStatus {
    type V = StatusModel;

    open spec fn view(&self) -> StatusModel {
        match self {
            SchedulerStatus::Enabled => StatusModel::Enabled,
            SchedulerStatus::Disabled => StatusModel::Disabled,
            SchedulerStatus::Unavailable { reason } => StatusModel::Unavailable(reason@),
        }
    }
}

impl PartialEq for SchedulerStatus {
    fn eq(&self, other: &Self) -> (r: bool) {
        match (self, other) {
            (SchedulerStatus::Enabled, SchedulerStatus::Enabled) => true,
            (SchedulerStatus::Disabled, SchedulerStatus::Disabled) => true,
            (
                SchedulerStatus::Unavailable { reason: a },
                SchedulerStatus::Unavailable { reason: b },
            ) => a.eq(b),
            _ => false,
        }
    }
}

impl vstd::std_specs::cmp::PartialEqSpecImpl for SchedulerStatus {
    open spec fn obeys_eq_spec() -> bool {
        true
    }

    open spec fn eq_spec(&self, other: &Self) -> bool {
        self@ == other@
    }
}

impl Eq for SchedulerStatus {

}

/// Captured result of a process invocation.
#[derive(Clone, Debug)]
pub struct CommandOutput {
    /// Exit status code when the process exited normally.
    pub status: Option<i32>,
    /// Standard output, decoded lossily as UTF-8.
    pub stdout: String,
    /// Standard error, decoded lossily as UTF-8.
    pub stderr: String,
}

/// Error raised when a command could not be started.
#[derive(Clone, Debug)]
pub struct CommandError {
    message: String,
}

impl View for CommandError {
    type V = Seq<char>;

    closed spec fn view(&self) -> Seq<char> {
        self.message@
    }
}

impl CommandError {
    /// Creates a command-launch error with a safe, user-displayable message.
    pub fn new(message: &str) -> (r: CommandError)
        ensures
            r@ == message@,
    {
        let cs = chars_of(message);
        assert(cs@.subrange(0, cs@.len() as int) =~= cs@);
        CommandError { message: string_from_range(cs.as_slice(), 0, cs.len()) }
    }

    /// The message describing why the command could not be started.
    pub fn message(&self) -> (r: String)
        ensures
            r@ == self@,
    {
        self.message.clone()
    }
}

impl PartialEq for CommandError {
    fn eq(&self, other: &Self) -> (r: bool) {
        self.message.eq(&other.message)
    }
}

impl vstd::std_specs::cmp::PartialEqSpecImpl for CommandError {
    open spec fn obeys_eq_spec() -> bool {
        true
    }

    open spec fn eq_spec(&self, other: &Self) -> bool {
        self@ == other@
    }
}

impl Eq for CommandError {

}

/// Abstraction for invoking `systemctl`, allowing deterministic tests.
pub trait CommandRunner {
    /// Runs `program` with `args` and captures its result, or reports that
    /// the command could not be started.
    fn run(&self, program: &str, args: &[&str]) -> Result<CommandOutput, CommandError>;
}

/// Error returned by an explicit scheduler state change.
#[derive(Clone, Debug)]
pub enum SchedulerError {
    /// No reachable systemd user manager is available.
    Unavailable(String),
    /// A required `systemctl --user` command did not succeed.
    CommandFailed {
        /// Label of the failed `systemctl --user` command.
        command: String,
        /// Safe standard-output or standard-error detail from the failure.
        detail: String,
    },
    /// The command completed but the requested state could not be confirmed.
    VerificationFailed(SchedulerStatus),
}

/// The content of a [`SchedulerError`].
pub enum SchedulerErrorModel {
    Unavailable(Seq<char>),
    CommandFailed { command: Seq<char>, detail: Seq<char> },
    VerificationFailed(StatusModel),
}

impl View for SchedulerError {
    type V = SchedulerErrorModel;

    open spec fn view(&self) -> SchedulerErrorModel {
        match self {
            SchedulerError::Unavailable(reason) => SchedulerErrorModel::Unavailable(reason@),
            SchedulerError::CommandFailed { command, detail } => SchedulerErrorModel::CommandFailed {
                command: command@,
                detail: detail@,
            },
            SchedulerError::VerificationFailed(status) => SchedulerErrorModel::VerificationFailed(
                status@,
            ),
        }
    }
}

impl PartialEq for SchedulerError {
    fn eq(&self, other: &Self) -> (r: bool) {
        match (self, other) {
            (SchedulerError::Unavailable(a), SchedulerError::Unavailable(b)) => a.eq(b),
            (
                SchedulerError::CommandFailed { command: c1, detail: d1 },
                SchedulerError::CommandFailed { command: c2, detail: d2 },
            ) => c1.eq(c2) && d1.eq(d2),
            (SchedulerError::VerificationFailed(a), SchedulerError::VerificationFailed(b)) => a.eq(
                b,
            ),
            _ => false,
        }
    }
}

impl vstd::std_specs::cmp::PartialEqSpecImpl for SchedulerError {
    open spec fn obeys_eq_spec() -> bool {
        true
    }

    open spec fn eq_spec(&self, other: &Self) -> bool {
        self@ == other@
    }
}

impl Eq for SchedulerError {

}

/// `systemctl is-enabled` results that mean "installed but not enabled".
pub open spec fn is_disabled_state(state: Seq<char>) -> bool {
    ||| state.len() == 0
    ||| state == "disabled"@
    ||| state == "static"@
    ||| state == "indirect"@
    ||| state == "generated"@
    ||| state == "transient"@
}

/// Whether `is-enabled` reported an available but disabled timer: exit status
/// 1, nothing on standard error, and a disabled-like state on standard output.
pub open spec fn spec_is_disabled_unit_result(output: CommandOutput) -> bool {
    output.status == Some(1i32) && trim(output.stderr@).len() == 0 && is_disabled_state(
        trim(output.stdout@),
    )
}

/// The most specific safe detail of a failed command: trimmed standard
/// error, else trimmed standard output, else its exit status.
pub open spec fn spec_command_detail(output: CommandOutput) -> Seq<char> {
    if trim(output.stderr@).len() != 0 {
        trim(output.stderr@)
    } else if trim(output.stdout@).len() != 0 {
        trim(output.stdout@)
    } else {
        match output.status {
            Some(status) => "exit status "@ + decimal_text(status as int),
            None => "terminated without an exit status"@,
        }
    }
}

/// The timer state that one `is-enabled` invocation establishes.
pub open spec fn spec_status_from(result: Result<CommandOutput, CommandError>) -> StatusModel {
    match result {
        Ok(output) => if output.status == Some(0i32) {
            StatusModel::Enabled
        } else if spec_is_disabled_unit_result(output) {
            StatusModel::Disabled
        } else {
            StatusModel::Unavailable(spec_command_detail(output))
        },
        Err(error) => StatusModel::Unavailable(error@),
    }
}

/// Space-separated arguments.
pub open spec fn join_words(args: Seq<Seq<char>>) -> Seq<char>
    decreases args.len(),
{
    if args.len() == 0 {
        Seq::empty()
    } else if args.len() == 1 {
        args[0]
    } else {
        join_words(args.drop_last()) + seq![' '] + args.last()
    }
}

/// The views of a slice of strings.
pub open spec fn words(args: Seq<&str>) -> Seq<Seq<char>> {
    args.map_values(|a: &str| a@)
}

/// The label reported for a failed `systemctl` invocation.
pub open spec fn spec_command_label(args: Seq<Seq<char>>) -> Seq<char> {
    "systemctl "@ + join_words(args)
}

/// What a checked `systemctl` invocation means: success only for exit status 0.
pub open spec fn spec_run_checked(
    args: Seq<Seq<char>>,
    result: Result<CommandOutput, CommandError>,
) -> Result<(), SchedulerErrorModel> {
    match result {
        Err(error) => Err(
            SchedulerErrorModel::CommandFailed { command: spec_command_label(args), detail: error@ },
        ),
        Ok(output) => if output.status == Some(0i32) {
            Ok(())
        } else {
            Err(
                SchedulerErrorModel::CommandFailed {
                    command: spec_command_label(args),
                    detail: spec_command_detail(output),
                },
            )
        },
    }
}

/// Arguments of the read-only state query.
pub open spec fn status_args() -> Seq<Seq<char>> {
    seq!["--user"@, "is-enabled"@, "--quiet"@, RECORDER_TIMER_UNIT@]
}

/// Arguments of the unit reload.
pub open spec fn reload_args() -> Seq<Seq<char>> {
    seq!["--user"@, "daemon-reload"@]
}

/// Arguments that enable and start the timer.
pub open spec fn enable_args() -> Seq<Seq<char>> {
    seq!["--user"@, "enable"@, "--now"@, RECORDER_TIMER_UNIT@]
}

/// Arguments that stop and disable the timer.
pub open spec fn disable_args() -> Seq<Seq<char>> {
    seq!["--user"@, "disable"@, "--now"@, RECORDER_TIMER_UNIT@]
}

/// Result of enabling, given the outcomes of the state query, the reload,
/// the enable command and the verifying state query, in that order. An
/// unavailable user manager stops everything before any state change.
pub open spec fn spec_enable(
    first: Result<CommandOutput, CommandError>,
    reload: Result<CommandOutput, CommandError>,
    enable: Result<CommandOutput, CommandError>,
    verify: Result<CommandOutput, CommandError>,
) -> Result<(), SchedulerErrorModel> {
    match spec_status_from(first) {
        StatusModel::Unavailable(reason) => Err(SchedulerErrorModel::Unavailable(reason)),
        _ => match spec_run_checked(reload_args(), reload) {
            Err(e) => Err(e),
            Ok(()) => match spec_run_checked(enable_args(), enable) {
                Err(e) => Err(e),
                Ok(()) => match spec_status_from(verify) {
                    StatusModel::Enabled => Ok(()),
                    other => Err(SchedulerErrorModel::VerificationFailed(other)),
                },
            },
        },
    }
}

/// Result of disabling, given the outcomes of the state query, the disable
/// command and the verifying state query, in that order.
pub open spec fn spec_disable(
    first: Result<CommandOutput, CommandError>,
    disable: Result<CommandOutput, CommandError>,
    verify: Result<CommandOutput, CommandError>,
) -> Result<(), SchedulerErrorModel> {
    match spec_status_from(first) {
        StatusModel::Unavailable(reason) => Err(SchedulerErrorModel::Unavailable(reason)),
        _ => match spec_run_checked(disable_args(), disable) {
            Err(e) => Err(e),
            Ok(()) => match spec_status_from(verify) {
                StatusModel::Disabled => Ok(()),
                other => Err(SchedulerErrorModel::VerificationFailed(other)),
            },
        },
    }
}

/// Whether `out` is an answer that `runner` may give when asked to run
/// `systemctl` with the arguments `args`: the runner's own postcondition
/// for that call.
pub open spec fn ran_systemctl<R: CommandRunner>(
    runner: R,
    args: Seq<Seq<char>>,
    out: Result<CommandOutput, CommandError>,
) -> bool {
    exists|a: &[&str]| words(a@) == args && #[trigger] call_ensures(R::run, (&runner, "systemctl", a), out)
}

/// One `systemctl` invocation made through a scheduler's runner: its
/// arguments and the runner's answer.
pub struct SystemctlCall {
    pub args: Seq<Seq<char>>,
    pub outcome: Result<CommandOutput, CommandError>,
}

/// Whether every answer in `calls` is one that `runner` may give to the
/// invocation it answers.
pub open spec fn answered_by<R: CommandRunner>(runner: R, calls: Seq<SystemctlCall>) -> bool {
    forall|i: int| 0 <= i < calls.len() ==> ran_systemctl(runner, #[trigger] calls[i].args, calls[i].outcome)
}

/// Whether `calls`, in the order made, are the invocations of enabling: the
/// state query; unless no user manager answered, the reload; if it
/// succeeded, the enable command; if that succeeded, a second state query.
/// Nothing else is run.
pub open spec fn follows_enable_protocol(calls: Seq<SystemctlCall>) -> bool {
    &&& calls.len() >= 1 && calls[0].args == status_args()
    &&& if spec_status_from(calls[0].outcome) is Unavailable {
        calls.len() == 1
    } else {
        &&& calls.len() >= 2 && calls[1].args == reload_args()
        &&& if spec_run_checked(reload_args(), calls[1].outcome) is Err {
            calls.len() == 2
        } else {
            &&& calls.len() >= 3 && calls[2].args == enable_args()
            &&& if spec_run_checked(enable_args(), calls[2].outcome) is Err {
                calls.len() == 3
            } else {
                calls.len() == 4 && calls[3].args == status_args()
            }
        }
    }
}

/// Whether `calls`, in the order made, are the invocations of disabling:
/// the state query; unless no user manager answered, the disable command;
/// if it succeeded, a second state query. Nothing else is run.
pub open spec fn follows_disable_protocol(calls: Seq<SystemctlCall>) -> bool {
    &&& calls.len() >= 1 && calls[0].args == status_args()
    &&& if spec_status_from(calls[0].outcome) is Unavailable {
        calls.len() == 1
    } else {
        &&& calls.len() >= 2 && calls[1].args == disable_args()
        &&& if spec_run_checked(disable_args(), calls[1].outcome) is Err {
            calls.len() == 2
        } else {
            calls.len() == 3 && calls[2].args == status_args()
        }
    }
}

/// The result of enabling, decided from its calls in the order made.
pub open spec fn enable_result(calls: Seq<SystemctlCall>) -> Result<(), SchedulerErrorModel> {
    spec_enable(calls[0].outcome, calls[1].outcome, calls[2].outcome, calls[3].outcome)
}

/// The result of disabling, decided from its calls in the order made.
pub open spec fn disable_result(calls: Seq<SystemctlCall>) -> Result<(), SchedulerErrorModel> {
    spec_disable(calls[0].outcome, calls[1].outcome, calls[2].outcome)
}

/// The view of an optional error result.
pub open spec fn result_view(r: Result<(), SchedulerError>) -> Result<(), SchedulerErrorModel> {
    match r {
        Ok(()) => Ok(()),
        Err(e) => Err(e@),
    }
}

fn is_disabled_state_text(cs: &[char], lo: usize, hi: usize) -> (r: bool)
    requires
        lo <= hi <= cs@.len(),
    ensures
        r == is_disabled_state(cs@.subrange(lo as int, hi as int)),
{
    lo == hi || range_equals(cs, lo, hi, "disabled") || range_equals(cs, lo, hi, "static")
        || range_equals(cs, lo, hi, "indirect") || range_equals(cs, lo, hi, "generated")
        || range_equals(cs, lo, hi, "transient")
}

/// Whether `is-enabled` reported an available but disabled timer.
pub fn is_disabled_unit_result(output: &CommandOutput) -> (r: bool)
    ensures
        r == spec_is_disabled_unit_result(*output),
{
    if output.status != Some(1i32) {
        return false;
    }
    let err = chars_of(output.stderr.as_str());
    let (ea, eb) = trim_bounds(err.as_slice(), 0, err.len());
    assert(err@.subrange(0, err@.len() as int) =~= err@);
    if ea != eb {
        return false;
    }
    let out = chars_of(output.stdout.as_str());
    let (a, b) = trim_bounds(out.as_slice(), 0, out.len());
    assert(out@.subrange(0, out@.len() as int) =~= out@);
    is_disabled_state_text(out.as_slice(), a, b)
}

/// The most specific safe detail of a failed command.
pub fn command_detail(output: &CommandOutput) -> (r: String)
    ensures
        r@ == spec_command_detail(*output),
{
    let err = chars_of(output.stderr.as_str());
    let (ea, eb) = trim_bounds(err.as_slice(), 0, err.len());
    assert(err@.subrange(0, err@.len() as int) =~= err@);
    if ea != eb {
        return string_from_range(err.as_slice(), ea, eb);
    }
    let out = chars_of(output.stdout.as_str());
    let (a, b) = trim_bounds(out.as_slice(), 0, out.len());
    assert(out@.subrange(0, out@.len() as int) =~= out@);
    if a != b {
        return string_from_range(out.as_slice(), a, b);
    }
    match output.status {
        Some(status) => {
            let mut text = String::new();
            push_text(&mut text, "exit status ");
            push_decimal(&mut text, status as i64);
            text
        },
        None => {
            let mut text = String::new();
            push_text(&mut text, "terminated without an exit status");
            text
        },
    }
}

/// The label reported for a failed `systemctl` invocation.
pub fn command_label(args: &[&str]) -> (r: String)
    ensures
        r@ == spec_command_label(words(args@)),
{
    let mut label = String::new();
    push_text(&mut label, "systemctl ");
    let ghost prefix = label@;
    let mut i: usize = 0;
    while i < args.len()
        invariant
            i <= args@.len(),
            prefix == "systemctl "@,
            label@ == prefix + join_words(words(args@.take(i as int))),
        decreases args.len() - i,
    {
        let ghost before = label@;
        if i != 0 {
            push_char(&mut label, ' ');
        }
        push_text(&mut label, args[i]);
        proof {
            let w = words(args@.take(i + 1));
            assert(w.drop_last() =~= words(args@.take(i as int)));
            assert(w.last() == args@[i as int]@);
            if i == 0 {
                assert(w.len() == 1);
                assert(join_words(words(args@.take(0))) =~= Seq::<char>::empty());
                assert(label@ =~= prefix + join_words(w));
            } else {
                assert(label@ =~= prefix + join_words(w));
            }
        }
        i = i + 1;
    }
    assert(args@.take(args@.len() as int) =~= args@);
    label
}

/// The timer state that one `is-enabled` outcome establishes: enabled for
/// exit status 0, disabled for a disabled-like answer, and otherwise
/// unavailable with the most specific diagnostic.
pub fn status_from(result: Result<CommandOutput, CommandError>) -> (r: SchedulerStatus)
    ensures
        r@ == spec_status_from(result),
{
    match result {
        Ok(output) => {
            if output.status == Some(0i32) {
                SchedulerStatus::Enabled
            } else if is_disabled_unit_result(&output) {
                SchedulerStatus::Disabled
            } else {
                SchedulerStatus::Unavailable { reason: command_detail(&output) }
            }
        },
        Err(error) => SchedulerStatus::Unavailable { reason: error.message() },
    }
}

/// What the outcome of a `systemctl` invocation with `args` means: success
/// only for exit status 0, otherwise the failed command's label and its most
/// specific diagnostic.
pub fn checked_result(args: &[&str], result: Result<CommandOutput, CommandError>) -> (r: Result<
    (),
    SchedulerError,
>)
    ensures
        result_view(r) == spec_run_checked(words(args@), result),
{
    match result {
        Err(error) => Err(
            SchedulerError::CommandFailed { command: command_label(args), detail: error.message() },
        ),
        Ok(output) => {
            if output.status == Some(0i32) {
                Ok(())
            } else {
                Err(
                    SchedulerError::CommandFailed {
                        command: command_label(args),
                        detail: command_detail(&output),
                    },
                )
            }
        },
    }
}

/// Systemd user scheduler facade for the Battery Dashboard recorder timer.
///
/// It never invokes `sudo` or `pkexec`, never writes unit files itself, and
/// only changes state from [`Self::enable`] or [`Self::disable`].
#[derive(Clone, Debug)]
pub struct SystemdUserScheduler<R> {
    runner: R,
}

impl<R> SystemdUserScheduler<R> {
    /// Creates a scheduler using an injectable command runner.
    pub fn new(runner: R) -> (r: Self)
        ensures
            r.runner_spec() == runner,
    {
        SystemdUserScheduler { runner }
    }

    /// The runner this scheduler invokes `systemctl` through.
    pub closed spec fn runner_spec(&self) -> R {
        self.runner
    }

    /// The runner this scheduler invokes `systemctl` through.
    pub fn runner(&self) -> (r: &R)
        ensures
            *r == self.runner_spec(),
    {
        &self.runner
    }
}

impl<R: CommandRunner> SystemdUserScheduler<R> {
    /// Runs `systemctl` with `args` through this scheduler's runner, and
    /// records the call at the end of `calls`.
    fn run(&self, args: &[&str], calls: &mut Ghost<Seq<SystemctlCall>>) -> (r: Result<
        CommandOutput,
        CommandError,
    >)
        ensures
            ran_systemctl(self.runner_spec(), words(args@), r),
            final(calls)@ == old(calls)@.push((SystemctlCall { args: words(args@), outcome: r })),
    {
        let run = R::run;
        let result = run(&self.runner, "systemctl", args);
        *calls = Ghost(calls@.push(SystemctlCall { args: words(args@), outcome: result }));
        result
    }

    fn query(&self, calls: &mut Ghost<Seq<SystemctlCall>>) -> (r: SchedulerStatus)
        ensures
            final(calls)@.len() == old(calls)@.len() + 1,
            final(calls)@.drop_last() == old(calls)@,
            final(calls)@.last().args == status_args(),
            r@ == spec_status_from(final(calls)@.last().outcome),
            ran_systemctl(self.runner_spec(), status_args(), final(calls)@.last().outcome),
    {
        let args: [&str; 4] = ["--user", "is-enabled", "--quiet", RECORDER_TIMER_UNIT];
        assert(words(args@) =~= status_args());
        let result = self.run(&args, calls);
        assert(calls@.drop_last() =~= old(calls)@);
        status_from(result)
    }

    /// Reports whether the recorder timer is enabled without changing state:
    /// it runs `systemctl --user is-enabled --quiet` on the timer, once, and
    /// reads its answer as [`status_from`] does.
    pub fn status(&self) -> (r: SchedulerStatus)
        ensures
            exists|result: Result<CommandOutput, CommandError>|
                #[trigger] ran_systemctl(self.runner_spec(), status_args(), result) && r@
                    == spec_status_from(result),
    {
        let mut calls: Ghost<Seq<SystemctlCall>> = Ghost(Seq::empty());
        self.query(&mut calls)
    }

    fn run_checked(&self, args: &[&str], calls: &mut Ghost<Seq<SystemctlCall>>) -> (r: Result<
        (),
        SchedulerError,
    >)
        ensures
            final(calls)@.len() == old(calls)@.len() + 1,
            final(calls)@.drop_last() == old(calls)@,
            final(calls)@.last().args == words(args@),
            result_view(r) == spec_run_checked(words(args@), final(calls)@.last().outcome),
            ran_systemctl(self.runner_spec(), words(args@), final(calls)@.last().outcome),
    {
        let result = self.run(args, calls);
        assert(calls@.drop_last() =~= old(calls)@);
        checked_result(args, result)
    }

    /// Reloads per-user unit definitions, enables the timer, and starts it,
    /// then confirms with a fresh state query that the timer reports
    /// enabled. When no user manager answers, nothing is changed. Also
    /// returns the `systemctl` calls it made, in the order made.
    pub fn enable(&self) -> (r: (Result<(), SchedulerError>, Ghost<Seq<SystemctlCall>>))
        ensures
            follows_enable_protocol(r.1@),
            answered_by(self.runner_spec(), r.1@),
            result_view(r.0) == enable_result(r.1@),
    {
        let mut calls: Ghost<Seq<SystemctlCall>> = Ghost(Seq::empty());
        let status = self.query(&mut calls);
        let ghost c0 = calls@;
        assert(c0.len() == 1);
        if let SchedulerStatus::Unavailable { reason } = status {
            let r = Err(SchedulerError::Unavailable(reason));
            assert(result_view(r) == enable_result(c0));
            return (r, calls);
        }
        let reload_list: [&str; 2] = ["--user", "daemon-reload"];
        assert(words(reload_list@) =~= reload_args());
        let reloaded = self.run_checked(&reload_list, &mut calls);
        let ghost c1 = calls@;
        assert(c1[0] == c0[0]);
        if let Err(e) = reloaded {
            let r = Err(e);
            assert(result_view(r) == enable_result(c1));
            return (r, calls);
        }
        let enable_list: [&str; 4] = ["--user", "enable", "--now", RECORDER_TIMER_UNIT];
        assert(words(enable_list@) =~= enable_args());
        let enabled = self.run_checked(&enable_list, &mut calls);
        let ghost c2 = calls@;
        assert(c2[0] == c1[0] && c2[1] == c1[1]);
        if let Err(e) = enabled {
            let r = Err(e);
            assert(result_view(r) == enable_result(c2));
            return (r, calls);
        }
        let after = self.query(&mut calls);
        let ghost c3 = calls@;
        assert(c3[0] == c2[0] && c3[1] == c2[1] && c3[2] == c2[2]);
        let r = match after {
            SchedulerStatus::Enabled => Ok(()),
            other => Err(SchedulerError::VerificationFailed(other)),
        };
        assert(result_view(r) == enable_result(c3));
        (r, calls)
    }

    /// Stops and disables the timer while preserving recorder data and
    /// files, then confirms with a fresh state query that the timer reports
    /// disabled. When no user manager answers, nothing is changed. Also
    /// returns the `systemctl` calls it made, in the order made.
    pub fn disable(&self) -> (r: (Result<(), SchedulerError>, Ghost<Seq<SystemctlCall>>))
        ensures
            follows_disable_protocol(r.1@),
            answered_by(self.runner_spec(), r.1@),
            result_view(r.0) == disable_result(r.1@),
    {
        let mut calls: Ghost<Seq<SystemctlCall>> = Ghost(Seq::empty());
        let status = self.query(&mut calls);
        let ghost c0 = calls@;
        if let SchedulerStatus::Unavailable { reason } = status {
            let r = Err(SchedulerError::Unavailable(reason));
            assert(result_view(r) == disable_result(c0));
            return (r, calls);
        }
        let disable_list: [&str; 4] = ["--user", "disable", "--now", RECORDER_TIMER_UNIT];
        assert(words(disable_list@) =~= disable_args());
        let disabled = self.run_checked(&disable_list, &mut calls);
        let ghost c1 = calls@;
        assert(c1[0] == c0[0]);
        if let Err(e) = disabled {
            let r = Err(e);
            assert(result_view(r) == disable_result(c1));
            return (r, calls);
        }
        let after = self.query(&mut calls);
        let ghost c2 = calls@;
        assert(c2[0] == c1[0] && c2[1] == c1[1]);
        let r = match after {
            SchedulerStatus::Disabled => Ok(()),
            other => Err(SchedulerError::VerificationFailed(other)),
        };
        assert(result_view(r) == disable_result(c2));
        (r, calls)
    }
}

/// Every command the scheduler runs is `systemctl` scoped to the user's own
/// manager: each argument list starts with `--user`, and the state changes
/// name only the recorder timer.
pub proof fn lemma_commands_are_user_scoped()
    ensures
        status_args()[0] == "--user"@,
        reload_args()[0] == "--user"@,
        enable_args()[0] == "--user"@,
        disable_args()[0] == "--user"@,
        enable_args().last() == RECORDER_TIMER_UNIT@,
        disable_args().last() == RECORDER_TIMER_UNIT@,
        status_args().last() == RECORDER_TIMER_UNIT@,
{
}

/// Enabling succeeds only when its calls were, in this order, the state
/// query, a successful reload, a successful enable command, and a state
/// query made after them that reported the timer enabled.
pub proof fn lemma_enable_success_is_verified(calls: Seq<SystemctlCall>)
    requires
        follows_enable_protocol(calls),
    ensures
        enable_result(calls) is Ok ==> {
            &&& calls.len() == 4
            &&& calls[0].args == status_args() && !(spec_status_from(calls[0].outcome) is Unavailable)
            &&& calls[1].args == reload_args() && spec_run_checked(reload_args(), calls[1].outcome) is Ok
            &&& calls[2].args == enable_args() && spec_run_checked(enable_args(), calls[2].outcome) is Ok
            &&& calls[3].args == status_args() && spec_status_from(calls[3].outcome)
                == StatusModel::Enabled
        },
{
}

/// Disabling succeeds only when its calls were, in this order, the state
/// query, a successful disable command, and a state query made after it that
/// reported the timer disabled.
pub proof fn lemma_disable_success_is_verified(calls: Seq<SystemctlCall>)
    requires
        follows_disable_protocol(calls),
    ensures
        disable_result(calls) is Ok ==> {
            &&& calls.len() == 3
            &&& calls[0].args == status_args() && !(spec_status_from(calls[0].outcome) is Unavailable)
            &&& calls[1].args == disable_args() && spec_run_checked(disable_args(), calls[1].outcome) is Ok
            &&& calls[2].args == status_args() && spec_status_from(calls[2].outcome)
                == StatusModel::Disabled
        },
{
}

/// When no user manager answers the first state query, enabling and
/// disabling run nothing after it, and report the manager unavailable.
pub proof fn lemma_unavailable_manager_changes_nothing(
    enabling: Seq<SystemctlCall>,
    disabling: Seq<SystemctlCall>,
)
    requires
        follows_enable_protocol(enabling),
        follows_disable_protocol(disabling),
    ensures
        spec_status_from(enabling[0].outcome) matches StatusModel::Unavailable(reason) ==> {
            &&& enabling.len() == 1
            &&& enable_result(enabling) == Err::<(), SchedulerErrorModel>(
                SchedulerErrorModel::Unavailable(reason),
            )
        },
        spec_status_from(disabling[0].outcome) matches StatusModel::Unavailable(reason) ==> {
            &&& disabling.len() == 1
            &&& disable_result(disabling) == Err::<(), SchedulerErrorModel>(
                SchedulerErrorModel::Unavailable(reason),
            )
        },
{
}

} // verus!
