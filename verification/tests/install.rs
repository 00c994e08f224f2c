use battery_dashboard::install::config_home;
use battery_dashboard::install::data_home;
use battery_dashboard::install::database_path_from_data_home;
use battery_dashboard::install::default_database_path;
use battery_dashboard::install::join_path;
use battery_dashboard::install::plan_staging;
use battery_dashboard::install::RecorderInstallError;
use battery_dashboard::scheduler::TemplateError;
use battery_dashboard::scheduler::RECORDER_TIMER_TEMPLATE;

#[test]
fn paths_join_with_one_separator() {
    assert_eq!(join_path("/home/u", "x"), "/home/u/x");
    assert_eq!(join_path("/home/u/", "x"), "/home/u/x");
    assert_eq!(join_path("", "x"), "x");
    assert_eq!(join_path("/", "systemd/user"), "/systemd/user");
}

#[test]
fn xdg_variables_win_over_home() {
    assert_eq!(data_home(Some("/data"), Some("/home/u")), Some("/data".to_owned()));
    assert_eq!(
        data_home(Some(""), Some("/home/u")),
        Some("/home/u/.local/share".to_owned())
    );
    assert_eq!(data_home(None, Some("")), None);
    assert_eq!(data_home(None, None), None);
    assert_eq!(config_home(None, Some("/home/u")), Some("/home/u/.config".to_owned()));
    assert_eq!(config_home(Some("/cfg"), None), Some("/cfg".to_owned()));
}

#[test]
fn database_lives_in_the_application_data_directory() {
    assert_eq!(
        database_path_from_data_home("/data"),
        "/data/battery-dashboard/battery.sqlite3"
    );
    assert_eq!(
        default_database_path(None, Some("/home/u")),
        Some("/home/u/.local/share/battery-dashboard/battery.sqlite3".to_owned())
    );
    assert_eq!(default_database_path(None, None), None);
}

#[test]
fn staging_plans_private_paths_and_rendered_units() {
    let plan = plan_staging("/build/battery-dashboard-recorder", true, Some("/data"), Some("/cfg"))
        .expect("recorder support is planned");
    assert_eq!(
        plan.installation.recorder_path,
        "/data/battery-dashboard/libexec/battery-dashboard-recorder"
    );
    assert_eq!(
        plan.installation.service_path,
        "/cfg/systemd/user/battery-dashboard-recorder.service"
    );
    assert_eq!(
        plan.installation.timer_path,
        "/cfg/systemd/user/battery-dashboard-recorder.timer"
    );
    assert!(plan
        .service_unit
        .contains("ExecStart=\"/data/battery-dashboard/libexec/battery-dashboard-recorder\""));
    assert_eq!(plan.timer_unit, RECORDER_TIMER_TEMPLATE);
}

#[test]
fn staging_is_refused_in_order() {
    assert!(matches!(
        plan_staging("/b/r", true, None, None),
        Err(RecorderInstallError::DataDirectoryUnavailable)
    ));
    assert!(matches!(
        plan_staging("/b/r", true, Some("/data"), None),
        Err(RecorderInstallError::ConfigDirectoryUnavailable)
    ));
    match plan_staging("/b/r", false, Some("/data"), Some("/cfg")) {
        Err(RecorderInstallError::RecorderBinaryUnavailable(path)) => assert_eq!(path, "/b/r"),
        other => panic!("unexpected {other:?}"),
    }
    assert!(matches!(
        plan_staging("/b/r", true, Some("relative"), Some("/cfg")),
        Err(RecorderInstallError::Template(TemplateError::InvalidRecorderPath))
    ));
}
