//! Decisions applied to devices reported by `UPower`.
//!
//! The D-Bus conversation itself happens in the application; this module
//! decides which devices are physical batteries and how their raw values are
//! interpreted.

use vstd::prelude::*;
use crate::text::trim;
use crate::text::is_blank;
use crate::text::text_equals;

verus! {

/// Object path of `UPower`'s aggregate display device.
pub const DISPLAY_DEVICE_PATH: &'static str = "/org/freedesktop/UPower/devices/DisplayDevice";

/// `UPower` device type of a battery.
pub const DEVICE_TYPE_BATTERY: u32 = 2;

/// The charging state reported by `UPower`.
#[derive(Clone, Copy, Debug, PartialEq, Eq, Structural)]
pub enum UpowerState {
    /// `UPower` could not identify the state.
    Unknown,
    /// The device is charging.
    Charging,
    /// The device is discharging.
    Discharging,
    /// The device is empty.
    Empty,
    /// The device is fully charged.
    FullyCharged,
    /// Charging has been requested but has not started yet.
    PendingCharge,
    /// Discharging has been requested but has not started yet.
    PendingDischarge,
}

/// The state `UPower` means by its numeric `State` property.
pub open spec fn spec_upower_state(value: u32) -> UpowerState {
    if value == 1 {
        UpowerState::Charging
    } else if value == 2 {
        UpowerState::Discharging
    } else if value == 3 {
        UpowerState::Empty
    } else if value == 4 {
        UpowerState::FullyCharged
    } else if value == 5 {
        UpowerState::PendingCharge
    } else if value == 6 {
        UpowerState::PendingDischarge
    } else {
        UpowerState::Unknown
    }
}

/// Maps the numeric `State` property; unknown and future values are `Unknown`.
pub fn upower_state(value: u32) -> (r: UpowerState)
    ensures
        r == spec_upower_state(value),
{
    match value {
        1 => UpowerState::Charging,
        2 => UpowerState::Discharging,
        3 => UpowerState::Empty,
        4 => UpowerState::FullyCharged,
        5 => UpowerState::PendingCharge,
        6 => UpowerState::PendingDischarge,
        _ => UpowerState::Unknown,
    }
}

/// Whether `path` is the aggregate display device, which is never a
/// physical battery.
pub fn is_display_device(path: &str) -> (r: bool)
    ensures
        r == (path@ == DISPLAY_DEVICE_PATH@),
{
    text_equals(path, DISPLAY_DEVICE_PATH)
}

/// Whether a device is a physical battery that powers the system; an
/// unknown `PowerSupply` property counts as "no".
pub fn is_power_supply(device_type: u32, power_supply: Option<bool>) -> (r: bool)
    ensures
        r == (device_type == DEVICE_TYPE_BATTERY && power_supply == Some(true)),
{
    device_type == DEVICE_TYPE_BATTERY && match power_supply {
        Some(value) => value,
        None => false,
    }
}

/// Drops a text property that is missing or blank; a non-blank value is kept
/// unchanged.
pub fn optional_non_empty(value: Option<String>) -> (r: Option<String>)
    ensures
        r is Some <==> (value matches Some(v) && trim(v@).len() != 0),
        r matches Some(text) ==> value matches Some(v) && text@ == v@,
{
    match value {
        Some(text) => {
            if is_blank(text.as_str()) {
                None
            } else {
                Some(text)
            }
        },
        None => None,
    }
}

} // verus!
