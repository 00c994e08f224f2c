use battery_dashboard::domain::version;
use battery_dashboard::domain::BatteryId;
use battery_dashboard::domain::BatteryState;

#[test]
fn battery_identifiers_are_trimmed_and_never_blank() {
    let id = BatteryId::new(" BAT0 ").expect("a non-empty identifier is valid");
    assert_eq!(id.as_str(), "BAT0");
    assert!(BatteryId::new(" \t ").is_err());
    assert!(BatteryId::new("").is_err());
    let rebuilt = BatteryId::new(id.as_str()).expect("a trimmed identifier stays valid");
    assert_eq!(rebuilt, id);
}

#[test]
fn only_charging_and_discharging_are_active_states() {
    assert!(BatteryState::Discharging.is_active());
    assert!(BatteryState::Charging.is_active());
    assert!(!BatteryState::Full.is_active());
    assert!(!BatteryState::Idle.is_active());
    assert!(!BatteryState::Unknown.is_active());
    assert_eq!(BatteryState::default(), BatteryState::Unknown);
}

#[test]
fn version_is_the_crate_version() {
    assert_eq!(version(), "0.1.0");
}
