use battery_dashboard::battery::choose_power_source;
use battery_dashboard::battery::choose_source;
use battery_dashboard::battery::label_for;
use battery_dashboard::battery::map_sysfs_status;
use battery_dashboard::battery::map_upower_state;
use battery_dashboard::battery::normalized_upower_id;
use battery_dashboard::battery::select_state;
use battery_dashboard::battery::time_remaining_minutes;
use battery_dashboard::sysfs::SysfsBatteryStatus;
use battery_dashboard::upower::UpowerState;

#[test]
fn takes_a_native_path_basename_as_the_cross_provider_identifier() {
    assert_eq!(
        normalized_upower_id(Some("/sys/devices/example/power_supply/BAT0")),
        Some("BAT0".to_owned())
    );
}

#[test]
fn native_path_edge_cases() {
    assert_eq!(normalized_upower_id(None), None);
    assert_eq!(normalized_upower_id(Some("BAT1")), Some("BAT1".to_owned()));
    assert_eq!(
        normalized_upower_id(Some("/sys/class/power_supply/BAT2//")),
        Some("BAT2".to_owned())
    );
    assert_eq!(normalized_upower_id(Some("")), None);
    assert_eq!(normalized_upower_id(Some("  ")), Some("  ".to_owned()));
    assert_eq!(normalized_upower_id(Some("///")), Some("///".to_owned()));
}

#[test]
fn upower_state_wins_unless_unknown() {
    assert_eq!(
        select_state(Some(SysfsBatteryStatus::Charging), Some(UpowerState::Discharging)),
        "discharging"
    );
    assert_eq!(
        select_state(Some(SysfsBatteryStatus::Charging), Some(UpowerState::Unknown)),
        "charging"
    );
    assert_eq!(select_state(None, Some(UpowerState::Unknown)), "unknown");
    assert_eq!(select_state(None, None), "unknown");
    assert_eq!(select_state(Some(SysfsBatteryStatus::Full), None), "full");
}

#[test]
fn provider_states_map_to_dashboard_states() {
    assert_eq!(map_upower_state(UpowerState::Empty), "discharging");
    assert_eq!(map_upower_state(UpowerState::FullyCharged), "full");
    assert_eq!(map_upower_state(UpowerState::PendingCharge), "charging");
    assert_eq!(map_upower_state(UpowerState::PendingDischarge), "discharging");
    assert_eq!(map_upower_state(UpowerState::Unknown), "unknown");
    assert_eq!(map_sysfs_status(SysfsBatteryStatus::Idle), "idle");
    assert_eq!(map_sysfs_status(SysfsBatteryStatus::Discharging), "discharging");
}

#[test]
fn remaining_time_is_rounded_up_to_minutes_for_the_current_direction() {
    assert_eq!(time_remaining_minutes("discharging", Some(61), Some(5)), Some(2));
    assert_eq!(time_remaining_minutes("discharging", Some(120), None), Some(2));
    assert_eq!(time_remaining_minutes("charging", Some(61), Some(0)), Some(0));
    assert_eq!(time_remaining_minutes("full", Some(61), Some(61)), None);
    assert_eq!(time_remaining_minutes("discharging", None, Some(61)), None);
    assert_eq!(time_remaining_minutes("discharging", Some(i64::MAX), None), None);
    assert_eq!(time_remaining_minutes("discharging", Some(-120), None), None);
    assert_eq!(time_remaining_minutes("discharging", Some(-59), None), Some(0));
}

#[test]
fn labels_prefer_upower_model_and_vendor() {
    assert_eq!(
        label_for("BAT0", Some("Main"), Some("Other"), Some("Acme"), None),
        "Acme Main (BAT0)"
    );
    assert_eq!(label_for("BAT1", None, Some("Pack"), None, Some("Cells")), "Cells Pack (BAT1)");
    assert_eq!(label_for("BAT2", None, None, None, None), "Battery (BAT2)");
}

#[test]
fn metrics_fall_back_per_provider_and_keep_their_source() {
    assert_eq!(choose_source(Some(1), Some(2)), Some((1, "upower")));
    assert_eq!(choose_source(None, Some(2)), Some((2, "sysfs")));
    assert_eq!(choose_source::<i32>(None, None), None);
    assert_eq!(choose_power_source(None, None, Some(3)), Some((3, "derived")));
    assert_eq!(choose_power_source(None, Some(2), Some(3)), Some((2, "sysfs")));
    assert_eq!(choose_power_source(Some(1), Some(2), Some(3)), Some((1, "upower")));
    assert_eq!(choose_power_source::<i32>(None, None, None), None);
}
