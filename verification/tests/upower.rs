use battery_dashboard::upower::is_display_device;
use battery_dashboard::upower::is_power_supply;
use battery_dashboard::upower::optional_non_empty;
use battery_dashboard::upower::upower_state;
use battery_dashboard::upower::UpowerState;
use battery_dashboard::upower::DEVICE_TYPE_BATTERY;
use battery_dashboard::upower::DISPLAY_DEVICE_PATH;

#[test]
fn maps_known_upower_states() {
    assert_eq!(upower_state(1), UpowerState::Charging);
    assert_eq!(upower_state(2), UpowerState::Discharging);
    assert_eq!(upower_state(3), UpowerState::Empty);
    assert_eq!(upower_state(4), UpowerState::FullyCharged);
    assert_eq!(upower_state(5), UpowerState::PendingCharge);
    assert_eq!(upower_state(6), UpowerState::PendingDischarge);
}

#[test]
fn treats_unknown_and_future_states_as_unknown() {
    assert_eq!(upower_state(0), UpowerState::Unknown);
    assert_eq!(upower_state(99), UpowerState::Unknown);
}

#[test]
fn accepts_only_physical_battery_power_supplies() {
    assert!(is_power_supply(DEVICE_TYPE_BATTERY, Some(true)));
    assert!(!is_power_supply(DEVICE_TYPE_BATTERY, Some(false)));
    assert!(!is_power_supply(DEVICE_TYPE_BATTERY, None));
    assert!(!is_power_supply(3, Some(true)));
    assert!(!is_power_supply(4, Some(true)));
}

#[test]
fn removes_blank_optional_text_values() {
    assert_eq!(
        optional_non_empty(Some("BAT0".to_owned())),
        Some("BAT0".to_owned())
    );
    assert_eq!(optional_non_empty(Some("  ".to_owned())), None);
    assert_eq!(optional_non_empty(None), None);
}

#[test]
fn identifies_only_the_upower_aggregate_display_device() {
    assert!(is_display_device(DISPLAY_DEVICE_PATH));
    assert!(!is_display_device(
        "/org/freedesktop/UPower/devices/battery_BAT0"
    ));
}

#[test]
fn optional_text_is_kept_as_given_when_it_has_content() {
    assert_eq!(
        optional_non_empty(Some(" Main Pack ".to_owned())),
        Some(" Main Pack ".to_owned())
    );
    assert_eq!(optional_non_empty(Some(String::new())), None);
}

#[test]
fn upower_state_seven_and_above_are_unknown() {
    assert_eq!(upower_state(7), UpowerState::Unknown);
    assert_eq!(upower_state(u32::MAX), UpowerState::Unknown);
}
