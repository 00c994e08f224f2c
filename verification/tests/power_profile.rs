use battery_dashboard::power_profile::get_profile;
use battery_dashboard::power_profile::parse_active_profile;
use battery_dashboard::power_profile::parse_list_profiles;
use battery_dashboard::power_profile::profile_order;
use battery_dashboard::power_profile::set_profile;
use battery_dashboard::power_profile::CommandOutcome;
use battery_dashboard::power_profile::PowerProfile;
use battery_dashboard::power_profile::PowerProfileResponse;
use battery_dashboard::power_profile::ProfileCommand;
use battery_dashboard::power_profile::ProfileStep;
use battery_dashboard::power_profile::ProfileTask;

#[test]
fn profile_parser_is_an_exact_allowlist() {
    assert_eq!(
        PowerProfile::parse("power-saver"),
        Some(PowerProfile::PowerSaver)
    );
    assert_eq!(
        PowerProfile::parse("balanced"),
        Some(PowerProfile::Balanced)
    );
    assert_eq!(
        PowerProfile::parse("performance"),
        Some(PowerProfile::Performance)
    );
    assert_eq!(PowerProfile::parse("sudo balanced"), None);
    assert_eq!(PowerProfile::parse(""), None);
}

#[test]
fn parses_standard_powerprofilesctl_listing_and_active_profile() {
    let listing = b"  power-saver:\n* balanced:\n  performance:\n    Driver: test\n";
    assert_eq!(
        parse_list_profiles(listing),
        vec![
            PowerProfile::PowerSaver,
            PowerProfile::Balanced,
            PowerProfile::Performance
        ]
    );
    assert_eq!(
        parse_active_profile(b"balanced\n"),
        Some(PowerProfile::Balanced)
    );
    assert_eq!(parse_active_profile(b"not-a-profile\n"), None);
}

fn exited(stdout: &[u8]) -> CommandOutcome {
    CommandOutcome::Exited {
        success: true,
        stdout: stdout.to_vec(),
        stderr_len: 0,
    }
}

fn failed() -> CommandOutcome {
    CommandOutcome::Exited {
        success: false,
        stdout: Vec::new(),
        stderr_len: 12,
    }
}

fn expect_run(step: &ProfileStep) -> ProfileCommand {
    match step {
        ProfileStep::Run(command) => *command,
        ProfileStep::Done(_) => panic!("expected a command"),
    }
}

fn expect_done(step: ProfileStep) -> PowerProfileResponse {
    match step {
        ProfileStep::Done(response) => response,
        ProfileStep::Run(_) => panic!("expected a response"),
    }
}

const LISTING: &[u8] = b"  power-saver:\n* balanced:\n  performance:\n";

#[test]
fn profile_names_and_arguments_are_stable() {
    for profile in [
        PowerProfile::PowerSaver,
        PowerProfile::Balanced,
        PowerProfile::Performance,
    ] {
        assert_eq!(PowerProfile::parse(profile.as_str()), Some(profile));
        assert_eq!(
            ProfileCommand::Change(profile).arguments(),
            vec!["set", profile.as_str()]
        );
    }
    assert_eq!(ProfileCommand::List.arguments(), vec!["list"]);
    assert_eq!(ProfileCommand::Get.arguments(), vec!["get"]);
    assert_eq!(profile_order(PowerProfile::PowerSaver), 0);
    assert_eq!(profile_order(PowerProfile::Balanced), 1);
    assert_eq!(profile_order(PowerProfile::Performance), 2);
}

#[test]
fn listing_keeps_each_profile_once_in_first_order_and_ignores_details() {
    let listing = b"* performance:\n    Driver: x\n  power-saver:\n  performance:\n";
    assert_eq!(
        parse_list_profiles(listing),
        vec![PowerProfile::Performance, PowerProfile::PowerSaver]
    );
    assert_eq!(parse_list_profiles(b""), Vec::<PowerProfile>::new());
}

#[test]
fn a_query_lists_then_reads_the_active_profile() {
    let (task, step) = get_profile();
    assert_eq!(expect_run(&step), ProfileCommand::List);
    let (task, step) = task.resume(&exited(LISTING));
    assert_eq!(expect_run(&step), ProfileCommand::Get);
    let (task, step) = task.resume(&exited(b"performance\n"));
    assert!(matches!(task, ProfileTask::Finished));
    let response = expect_done(step);
    assert_eq!(response.availability, "available");
    assert!(response.supported);
    assert_eq!(response.active_profile, Some(PowerProfile::Performance));
    assert_eq!(
        response.available_profiles,
        vec![
            PowerProfile::PowerSaver,
            PowerProfile::Balanced,
            PowerProfile::Performance
        ]
    );
    assert!(!response.changed);
    assert_eq!(response.requested_profile, None);
}

#[test]
fn a_missing_backend_is_unsupported() {
    let (task, _) = get_profile();
    let (task, step) = task.resume(&CommandOutcome::NotFound);
    assert!(matches!(task, ProfileTask::Finished));
    let response = expect_done(step);
    assert_eq!(response.availability, "unsupported");
    assert!(!response.supported);
    assert_eq!(
        response.unavailable_reason,
        Some("powerprofilesctl-not-found")
    );
}

#[test]
fn an_invalid_request_runs_no_command() {
    let (task, step) = set_profile("sudo balanced");
    assert!(matches!(task, ProfileTask::Finished));
    let response = expect_done(step);
    assert_eq!(response.availability, "unavailable");
    assert_eq!(response.unavailable_reason, Some("invalid-request"));
    assert!(!response.changed);
    assert_eq!(response.requested_profile, None);
}

#[test]
fn a_change_is_confirmed_by_a_fresh_query() {
    let (task, step) = set_profile("power-saver");
    assert_eq!(expect_run(&step), ProfileCommand::List);
    let (task, step) = task.resume(&exited(LISTING));
    assert_eq!(expect_run(&step), ProfileCommand::Get);
    let (task, step) = task.resume(&exited(b"balanced\n"));
    assert_eq!(
        expect_run(&step),
        ProfileCommand::Change(PowerProfile::PowerSaver)
    );
    let (task, step) = task.resume(&exited(b""));
    assert_eq!(expect_run(&step), ProfileCommand::List);
    let (task, step) = task.resume(&exited(LISTING));
    assert_eq!(expect_run(&step), ProfileCommand::Get);
    let (_, step) = task.resume(&exited(b"power-saver\n"));
    let response = expect_done(step);
    assert_eq!(response.availability, "available");
    assert!(response.changed);
    assert_eq!(response.active_profile, Some(PowerProfile::PowerSaver));
    assert_eq!(response.requested_profile, Some(PowerProfile::PowerSaver));
}

#[test]
fn an_unconfirmed_change_is_not_reported_as_changed() {
    let (task, _) = set_profile("performance");
    let (task, _) = task.resume(&exited(LISTING));
    let (task, _) = task.resume(&exited(b"balanced\n"));
    let (task, _) = task.resume(&exited(b""));
    let (task, _) = task.resume(&exited(LISTING));
    let (_, step) = task.resume(&exited(b"balanced\n"));
    let response = expect_done(step);
    assert!(!response.changed);
    assert_ne!(response.availability, "available");
}

#[test]
fn an_unlisted_profile_is_not_applied() {
    let (task, _) = set_profile("performance");
    let (task, _) = task.resume(&exited(b"  power-saver:\n* balanced:\n"));
    let (task, step) = task.resume(&exited(b"balanced\n"));
    assert!(matches!(task, ProfileTask::Finished));
    let response = expect_done(step);
    assert!(!response.changed);
    assert_eq!(response.requested_profile, Some(PowerProfile::Performance));
}

#[test]
fn a_failed_set_command_is_reported_without_change() {
    let (task, _) = set_profile("balanced");
    let (task, _) = task.resume(&exited(LISTING));
    let (task, step) = task.resume(&exited(b"performance\n"));
    assert_eq!(
        expect_run(&step),
        ProfileCommand::Change(PowerProfile::Balanced)
    );
    let (task, step) = task.resume(&failed());
    assert!(matches!(task, ProfileTask::Finished));
    let response = expect_done(step);
    assert!(!response.changed);
}
