use battery_dashboard::sysfs::parse_status;
use battery_dashboard::sysfs::parse_u64;
use battery_dashboard::sysfs::read_cycle_count;
use battery_dashboard::sysfs::SysfsBatteryStatus;
use battery_dashboard::sysfs::MAX_CYCLE_COUNT;

#[test]
fn status_names_follow_the_kernel_spelling() {
    assert_eq!(parse_status("Charging"), Some(SysfsBatteryStatus::Charging));
    assert_eq!(parse_status("Discharging"), Some(SysfsBatteryStatus::Discharging));
    assert_eq!(parse_status("Full"), Some(SysfsBatteryStatus::Full));
    assert_eq!(parse_status("Not charging"), Some(SysfsBatteryStatus::Idle));
    assert_eq!(parse_status("Idle"), Some(SysfsBatteryStatus::Idle));
    assert_eq!(parse_status("Unknown"), None);
    assert_eq!(parse_status("charging"), None);
}

#[test]
fn unsigned_values_parse_like_the_standard_library() {
    assert_eq!(parse_u64("128"), Some(128));
    assert_eq!(parse_u64("+7"), Some(7));
    assert_eq!(parse_u64("18446744073709551615"), Some(u64::MAX));
    assert_eq!(parse_u64("18446744073709551616"), None);
    assert_eq!(parse_u64(""), None);
    assert_eq!(parse_u64("+"), None);
    assert_eq!(parse_u64("-1"), None);
    assert_eq!(parse_u64(" 5"), None);
    assert_eq!(parse_u64("not-a-number"), None);
}

#[test]
fn cycle_counts_beyond_the_plausible_limit_are_unavailable() {
    assert_eq!(read_cycle_count(Some("128")), Some(128));
    assert_eq!(read_cycle_count(Some("10000000")), Some(MAX_CYCLE_COUNT));
    assert_eq!(read_cycle_count(Some("10000001")), None);
    assert_eq!(read_cycle_count(Some("x")), None);
    assert_eq!(read_cycle_count(None), None);
}
