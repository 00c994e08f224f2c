use std::cell::RefCell;
use std::collections::VecDeque;

use battery_dashboard::scheduler::checked_result;
use battery_dashboard::scheduler::command_detail;
use battery_dashboard::scheduler::command_label;
use battery_dashboard::scheduler::is_disabled_unit_result;
use battery_dashboard::scheduler::is_safe_absolute_path;
use battery_dashboard::scheduler::render_recorder_service;
use battery_dashboard::scheduler::status_from;
use battery_dashboard::scheduler::CommandError;
use battery_dashboard::scheduler::CommandOutput;
use battery_dashboard::scheduler::CommandRunner;
use battery_dashboard::scheduler::SchedulerError;
use battery_dashboard::scheduler::SchedulerStatus;
use battery_dashboard::scheduler::SystemdUserScheduler;
use battery_dashboard::scheduler::TemplateError;
use battery_dashboard::scheduler::RECORDER_PATH_PLACEHOLDER;
use battery_dashboard::scheduler::RECORDER_SERVICE_TEMPLATE;
use battery_dashboard::scheduler::RECORDER_TIMER_TEMPLATE;
use battery_dashboard::scheduler::RECORDER_TIMER_UNIT;

#[derive(Default)]
struct FakeRunner {
    responses: RefCell<VecDeque<Result<CommandOutput, CommandError>>>,
    calls: RefCell<Vec<(String, Vec<String>)>>,
}

impl FakeRunner {
    fn with_responses(
        responses: impl IntoIterator<Item = Result<CommandOutput, CommandError>>,
    ) -> Self {
        Self {
            responses: RefCell::new(responses.into_iter().collect()),
            calls: RefCell::default(),
        }
    }

    fn calls(&self) -> Vec<(String, Vec<String>)> {
        self.calls.borrow().clone()
    }
}

impl CommandRunner for FakeRunner {
    fn run(&self, program: &str, args: &[&str]) -> Result<CommandOutput, CommandError> {
        self.calls.borrow_mut().push((
            program.to_owned(),
            args.iter().map(|argument| (*argument).to_owned()).collect(),
        ));
        self.responses
            .borrow_mut()
            .pop_front()
            .expect("test must provide one response per command")
    }
}

fn output(status: i32, stdout: &str, stderr: &str) -> CommandOutput {
    CommandOutput {
        status: Some(status),
        stdout: stdout.to_owned(),
        stderr: stderr.to_owned(),
    }
}

fn is_enabled_call() -> (String, Vec<String>) {
    (
        "systemctl".to_owned(),
        vec![
            "--user".to_owned(),
            "is-enabled".to_owned(),
            "--quiet".to_owned(),
            RECORDER_TIMER_UNIT.to_owned(),
        ],
    )
}

#[test]
fn status_reports_enabled_from_systemctl() {
    let scheduler = SystemdUserScheduler::new(FakeRunner::with_responses([Ok(output(0, "", ""))]));

    assert_eq!(scheduler.status(), SchedulerStatus::Enabled);
}

#[test]
fn status_reports_disabled_when_timer_is_not_enabled() {
    let scheduler = SystemdUserScheduler::new(FakeRunner::with_responses([Ok(output(
        1,
        "disabled\n",
        "",
    ))]));

    assert_eq!(scheduler.status(), SchedulerStatus::Disabled);
}

#[test]
fn status_reports_missing_user_manager_as_unavailable() {
    let scheduler = SystemdUserScheduler::new(FakeRunner::with_responses([Ok(output(
        1,
        "",
        "Failed to connect to bus: No medium found",
    ))]));

    assert_eq!(
        scheduler.status(),
        SchedulerStatus::Unavailable {
            reason: "Failed to connect to bus: No medium found".to_owned(),
        }
    );
}

#[test]
fn enable_reloads_then_enables_and_verifies_timer() {
    let runner = FakeRunner::with_responses([
        Ok(output(1, "disabled\n", "")),
        Ok(output(0, "", "")),
        Ok(output(0, "", "")),
        Ok(output(0, "", "")),
    ]);
    let scheduler = SystemdUserScheduler::new(runner);

    assert_eq!(scheduler.enable().0, Ok(()));
    assert_eq!(
        scheduler.runner().calls(),
        vec![
            (
                "systemctl".to_owned(),
                vec![
                    "--user".to_owned(),
                    "is-enabled".to_owned(),
                    "--quiet".to_owned(),
                    RECORDER_TIMER_UNIT.to_owned(),
                ],
            ),
            (
                "systemctl".to_owned(),
                vec!["--user".to_owned(), "daemon-reload".to_owned()],
            ),
            (
                "systemctl".to_owned(),
                vec![
                    "--user".to_owned(),
                    "enable".to_owned(),
                    "--now".to_owned(),
                    RECORDER_TIMER_UNIT.to_owned(),
                ],
            ),
            (
                "systemctl".to_owned(),
                vec![
                    "--user".to_owned(),
                    "is-enabled".to_owned(),
                    "--quiet".to_owned(),
                    RECORDER_TIMER_UNIT.to_owned(),
                ],
            ),
        ]
    );
}

#[test]
fn disable_stops_disables_and_verifies_timer() {
    let runner = FakeRunner::with_responses([
        Ok(output(0, "", "")),
        Ok(output(0, "", "")),
        Ok(output(1, "disabled\n", "")),
    ]);
    let scheduler = SystemdUserScheduler::new(runner);

    assert_eq!(scheduler.disable().0, Ok(()));
    assert_eq!(
        scheduler.runner().calls(),
        vec![
            (
                "systemctl".to_owned(),
                vec![
                    "--user".to_owned(),
                    "is-enabled".to_owned(),
                    "--quiet".to_owned(),
                    RECORDER_TIMER_UNIT.to_owned(),
                ],
            ),
            (
                "systemctl".to_owned(),
                vec![
                    "--user".to_owned(),
                    "disable".to_owned(),
                    "--now".to_owned(),
                    RECORDER_TIMER_UNIT.to_owned(),
                ],
            ),
            (
                "systemctl".to_owned(),
                vec![
                    "--user".to_owned(),
                    "is-enabled".to_owned(),
                    "--quiet".to_owned(),
                    RECORDER_TIMER_UNIT.to_owned(),
                ],
            ),
        ]
    );
}

#[test]
fn enable_does_not_mutate_state_when_systemd_is_unavailable() {
    let runner = FakeRunner::with_responses([Err(CommandError::new("systemctl not found"))]);
    let scheduler = SystemdUserScheduler::new(runner);

    assert_eq!(
        scheduler.enable().0,
        Err(SchedulerError::Unavailable(
            "systemctl not found".to_owned()
        ))
    );
    assert_eq!(scheduler.runner().calls().len(), 1);
}

#[test]
fn service_template_is_rendered_for_a_stable_absolute_recorder_path() {
    let rendered =
        render_recorder_service("/home/example/.local/libexec/battery-dashboard/recorder")
            .expect("absolute paths are valid");

    assert!(!rendered.contains(RECORDER_PATH_PLACEHOLDER));
    assert!(
        rendered.contains("ExecStart=\"/home/example/.local/libexec/battery-dashboard/recorder\"")
    );
    assert!(rendered.contains("Type=oneshot"));
    assert!(RECORDER_SERVICE_TEMPLATE.contains(RECORDER_PATH_PLACEHOLDER));
}

#[test]
fn service_template_rejects_unsafe_recorder_paths() {
    assert_eq!(
        render_recorder_service("recorder"),
        Err(TemplateError::InvalidRecorderPath)
    );
    assert_eq!(
        render_recorder_service("/home/example/recorder\nExecStart=/unexpected"),
        Err(TemplateError::InvalidRecorderPath)
    );
}

#[test]
fn timer_template_is_opt_in_and_runs_the_one_shot_service_every_minute() {
    assert!(RECORDER_TIMER_TEMPLATE.contains("OnUnitActiveSec=60s"));
    assert!(RECORDER_TIMER_TEMPLATE.contains("Persistent=false"));
    assert!(RECORDER_TIMER_TEMPLATE.contains("Unit=battery-dashboard-recorder.service"));
    assert!(RECORDER_TIMER_TEMPLATE.contains("WantedBy=timers.target"));
    assert!(!RECORDER_SERVICE_TEMPLATE.contains("[Install]"));
}

#[test]
fn rendered_service_escapes_quotes_and_backslashes() {
    let rendered = render_recorder_service("/opt/a b/\"x\"\\%y").expect("absolute path");
    assert!(rendered.contains("ExecStart=\"/opt/a b/\\\"x\\\"\\\\%y\"\n"));
}

#[test]
fn disabled_like_answers_are_recognised() {
    assert!(is_disabled_unit_result(&output(1, "disabled\n", "")));
    assert!(is_disabled_unit_result(&output(1, "", "")));
    assert!(is_disabled_unit_result(&output(1, " static ", "")));
    assert!(!is_disabled_unit_result(&output(1, "masked", "")));
    assert!(!is_disabled_unit_result(&output(0, "", "")));
    assert!(!is_disabled_unit_result(&output(1, "", "Failed to connect to bus")));
}

#[test]
fn command_detail_prefers_stderr_then_stdout_then_status() {
    assert_eq!(command_detail(&output(3, " out ", " err ")), "err");
    assert_eq!(command_detail(&output(3, " out ", "  ")), "out");
    assert_eq!(command_detail(&output(3, "", "")), "exit status 3");
    let killed = CommandOutput {
        status: None,
        stdout: String::new(),
        stderr: String::new(),
    };
    assert_eq!(command_detail(&killed), "terminated without an exit status");
}

#[test]
fn command_labels_name_the_systemctl_invocation() {
    assert_eq!(
        command_label(&["--user", "daemon-reload"]),
        "systemctl --user daemon-reload"
    );
    assert_eq!(command_label(&[]), "systemctl ");
}

#[test]
fn unit_paths_must_be_absolute_and_single_line() {
    assert!(is_safe_absolute_path("/usr/libexec/recorder"));
    assert!(!is_safe_absolute_path("relative/recorder"));
    assert!(!is_safe_absolute_path("/a\rb"));
    assert!(!is_safe_absolute_path("/a\0b"));
    assert!(!is_safe_absolute_path(""));
}

#[test]
fn a_failed_reload_stops_the_enable_sequence() {
    let runner = FakeRunner::with_responses([
        Ok(output(1, "disabled\n", "")),
        Ok(output(1, "", "access denied")),
    ]);
    let scheduler = SystemdUserScheduler::new(runner);
    assert_eq!(
        scheduler.enable().0,
        Err(SchedulerError::CommandFailed {
            command: "systemctl --user daemon-reload".to_owned(),
            detail: "access denied".to_owned(),
        })
    );
    assert_eq!(scheduler.runner().calls().len(), 2);
}

#[test]
fn an_unconfirmed_enable_is_a_verification_failure() {
    let runner = FakeRunner::with_responses([
        Ok(output(1, "disabled\n", "")),
        Ok(output(0, "", "")),
        Ok(output(0, "", "")),
        Ok(output(1, "disabled\n", "")),
    ]);
    let scheduler = SystemdUserScheduler::new(runner);
    assert_eq!(
        scheduler.enable().0,
        Err(SchedulerError::VerificationFailed(SchedulerStatus::Disabled))
    );
    assert_eq!(scheduler.runner().calls()[3], is_enabled_call());
}

#[test]
fn disable_reports_an_unavailable_user_manager_without_changes() {
    let runner = FakeRunner::with_responses([Ok(output(1, "", "No medium found"))]);
    let scheduler = SystemdUserScheduler::new(runner);
    assert_eq!(
        scheduler.disable().0,
        Err(SchedulerError::Unavailable("No medium found".to_owned()))
    );
    assert_eq!(scheduler.runner().calls(), vec![is_enabled_call()]);
}

#[test]
fn command_errors_keep_their_message() {
    assert_eq!(CommandError::new("boom").message(), "boom");
    assert_eq!(
        TemplateError::InvalidRecorderPath.message(),
        "recorder path must be an absolute path without line breaks"
    );
}

#[test]
fn command_errors_are_equal_exactly_when_their_messages_are() {
    assert_eq!(CommandError::new("systemctl not found"), CommandError::new("systemctl not found"));
    assert_ne!(CommandError::new("systemctl not found"), CommandError::new("permission denied"));
}

#[test]
fn status_outcomes_read_as_the_timer_state() {
    let output = |status: Option<i32>, stdout: &str, stderr: &str| CommandOutput {
        status,
        stdout: stdout.to_owned(),
        stderr: stderr.to_owned(),
    };
    assert_eq!(status_from(Ok(output(Some(0), "", ""))), SchedulerStatus::Enabled);
    assert_eq!(status_from(Ok(output(Some(1), "disabled\n", ""))), SchedulerStatus::Disabled);
    assert_eq!(
        status_from(Ok(output(Some(1), "", "Failed to connect to bus"))),
        SchedulerStatus::Unavailable { reason: "Failed to connect to bus".to_owned() }
    );
    assert_eq!(
        status_from(Err(CommandError::new("systemctl not found"))),
        SchedulerStatus::Unavailable { reason: "systemctl not found".to_owned() }
    );
}

#[test]
fn checked_outcomes_name_the_failed_command() {
    let args = ["--user", "daemon-reload"];
    let ok = CommandOutput { status: Some(0), stdout: String::new(), stderr: String::new() };
    assert_eq!(checked_result(&args, Ok(ok)), Ok(()));
    let failed = CommandOutput { status: Some(5), stdout: String::new(), stderr: String::new() };
    assert_eq!(
        checked_result(&args, Ok(failed)),
        Err(SchedulerError::CommandFailed {
            command: "systemctl --user daemon-reload".to_owned(),
            detail: "exit status 5".to_owned(),
        })
    );
}
