//! Field-level composition rules for live `UPower` and sysfs readings.
//!
//! Providers stay independent and are combined field by field; a missing or
//! unsuitable value stays unavailable rather than becoming a zero.

use vstd::prelude::*;
use crate::text::trim;
use crate::text::chars_of;
use crate::text::is_blank;
use crate::text::string_from_range;
use crate::text::push_text;
use crate::text::text_equals;
use crate::upower::UpowerState;
use crate::sysfs::SysfsBatteryStatus;

verus! {

/// The normalized state name of a `UpowerState`.
pub open spec fn upower_state_name(state: UpowerState) -> Seq<char> {
    match state {
        UpowerState::Charging | UpowerState::PendingCharge => "charging"@,
        UpowerState::Discharging | UpowerState::PendingDischarge | UpowerState::Empty => "discharging"@,
        UpowerState::FullyCharged => "full"@,
        UpowerState::Unknown => "unknown"@,
    }
}

/// The normalized state name of a sysfs status.
pub open spec fn sysfs_status_name(status: SysfsBatteryStatus) -> Seq<char> {
    match status {
        SysfsBatteryStatus::Charging => "charging"@,
        SysfsBatteryStatus::Discharging => "discharging"@,
        SysfsBatteryStatus::Full => "full"@,
        SysfsBatteryStatus::Idle => "idle"@,
    }
}

/// Normalizes a `UpowerState`: pending states count as the state they lead
/// to, and an empty battery as discharging.
pub fn map_upower_state(state: UpowerState) -> (r: &'static str)
    ensures
        r@ == upower_state_name(state),
{
    match state {
        UpowerState::Charging | UpowerState::PendingCharge => "charging",
        UpowerState::Discharging | UpowerState::PendingDischarge | UpowerState::Empty => "discharging",
        UpowerState::FullyCharged => "full",
        UpowerState::Unknown => "unknown",
    }
}

/// Normalizes a sysfs status.
pub fn map_sysfs_status(status: SysfsBatteryStatus) -> (r: &'static str)
    ensures
        r@ == sysfs_status_name(status),
{
    match status {
        SysfsBatteryStatus::Charging => "charging",
        SysfsBatteryStatus::Discharging => "discharging",
        SysfsBatteryStatus::Full => "full",
        SysfsBatteryStatus::Idle => "idle",
    }
}

/// The state shown for a battery: `UpowerState` when it is known, else the
/// sysfs status, else `unknown`.
pub open spec fn spec_select_state(
    sysfs: Option<SysfsBatteryStatus>,
    upower: Option<UpowerState>,
) -> Seq<char> {
    match upower {
        Some(state) if upower_state_name(state) != "unknown"@ => upower_state_name(state),
        _ => match sysfs {
            Some(status) => sysfs_status_name(status),
            None => "unknown"@,
        },
    }
}

/// Chooses the battery state from the two providers' reports.
pub fn select_state(sysfs: Option<SysfsBatteryStatus>, upower: Option<UpowerState>) -> (r:
    &'static str)
    ensures
        r@ == spec_select_state(sysfs, upower),
{
    match upower {
        Some(state) => {
            let name = map_upower_state(state);
            if !text_equals(name, "unknown") {
                return name;
            }
        },
        None => {},
    }
    match sysfs {
        Some(status) => map_sysfs_status(status),
        None => "unknown",
    }
}

/// `s` without trailing `'/'` characters.
pub open spec fn strip_trailing_slashes(s: Seq<char>) -> Seq<char>
    decreases s.len(),
{
    if s.len() > 0 && s.last() == '/' {
        strip_trailing_slashes(s.drop_last())
    } else {
        s
    }
}

/// The characters of `s` after its last `'/'`.
pub open spec fn final_segment(s: Seq<char>) -> Seq<char>
    decreases s.len(),
{
    if s.len() == 0 || s.last() == '/' {
        Seq::empty()
    } else {
        final_segment(s.drop_last()).push(s.last())
    }
}

/// The identifier shared with sysfs: the last non-empty `/`-separated
/// component of the native path, or the whole path when it has none but is
/// not blank.
pub open spec fn spec_normalized_id(path: Seq<char>) -> Option<Seq<char>> {
    let stripped = strip_trailing_slashes(path);
    if stripped.len() > 0 {
        Some(final_segment(stripped))
    } else if trim(path).len() > 0 {
        Some(path)
    } else {
        None
    }
}

/// Takes the native path's basename as the cross-provider identifier.
pub fn normalized_upower_id(native_path: Option<&str>) -> (r: Option<String>)
    ensures
        native_path is None ==> r is None,
        native_path matches Some(path) ==> match (r, spec_normalized_id(path@)) {
            (Some(id), Some(expected)) => id@ == expected,
            (None, None) => true,
            _ => false,
        },
{
    let path = match native_path {
        Some(path) => path,
        None => return None,
    };
    let cs = chars_of(path);
    let mut end: usize = cs.len();
    assert(cs@.take(cs@.len() as int) =~= cs@);
    while end > 0 && cs[end - 1] == '/'
        invariant
            end <= cs@.len(),
            cs@ == path@,
            strip_trailing_slashes(path@) == strip_trailing_slashes(cs@.take(end as int)),
        decreases end,
    {
        assert(cs@.take(end as int).drop_last() =~= cs@.take(end - 1));
        end = end - 1;
    }
    assert(strip_trailing_slashes(path@) == cs@.take(end as int));
    if end == 0 {
        if is_blank(path) {
            return None;
        }
        return Some(string_from_range(cs.as_slice(), 0, cs.len()));
    }
    let mut start: usize = end;
    while start > 0 && cs[start - 1] != '/'
        invariant
            start <= end <= cs@.len(),
            end > 0,
            cs@[end - 1] != '/',
            final_segment(cs@.take(end as int)) == final_segment(cs@.take(start as int)) + cs@.subrange(
                start as int,
                end as int,
            ),
        decreases start,
    {
        proof {
            let t = cs@.take(start as int);
            assert(t.drop_last() =~= cs@.take(start - 1));
            assert(t.last() == cs@[start - 1]);
            assert(cs@.subrange(start - 1, end as int) =~= seq![cs@[start - 1]] + cs@.subrange(
                start as int,
                end as int,
            ));
            assert(final_segment(t) == final_segment(cs@.take(start - 1)).push(cs@[start - 1]));
            assert(final_segment(cs@.take(start - 1)).push(cs@[start - 1]) + cs@.subrange(
                start as int,
                end as int,
            ) =~= final_segment(cs@.take(start - 1)) + cs@.subrange(start - 1, end as int));
        }
        start = start - 1;
    }
    proof {
        assert(final_segment(cs@.take(start as int)) =~= Seq::<char>::empty());
        assert(cs@.subrange(0, cs@.len() as int) =~= cs@);
    }
    Some(string_from_range(cs.as_slice(), start, end))
}

/// The provider's remaining-time estimate in whole minutes, rounded up:
/// time to empty while discharging, time to full while charging, nothing in
/// any other state or when the value does not fit.
pub open spec fn spec_time_remaining(
    state: Seq<char>,
    time_to_empty_seconds: Option<i64>,
    time_to_full_seconds: Option<i64>,
) -> Option<u32> {
    let seconds = if state == "discharging"@ {
        time_to_empty_seconds
    } else if state == "charging"@ {
        time_to_full_seconds
    } else {
        None
    };
    match seconds {
        None => None,
        Some(s) => if s + 59 > i64::MAX {
            None
        } else {
            let minutes = (s + 59) / 60;
            if 0 <= minutes <= u32::MAX {
                Some(minutes as u32)
            } else {
                None
            }
        },
    }
}

/// Converts the provider's estimate for the current state into minutes.
pub fn time_remaining_minutes(
    state: &str,
    time_to_empty_seconds: Option<i64>,
    time_to_full_seconds: Option<i64>,
) -> (r: Option<u32>)
    ensures
        r == spec_time_remaining(state@, time_to_empty_seconds, time_to_full_seconds),
{
    let seconds = if text_equals(state, "discharging") {
        time_to_empty_seconds
    } else if text_equals(state, "charging") {
        time_to_full_seconds
    } else {
        None
    };
    match seconds {
        None => None,
        Some(s) => {
            if s > i64::MAX - 59 {
                return None;
            }
            let total = s + 59;
            if total < 0 {
                assert((total as int) / 60 < 0) by (nonlinear_arith)
                    requires
                        total < 0,
                ;
                return None;
            }
            let minutes = total / 60;
            if minutes > u32::MAX as i64 {
                None
            } else {
                Some(minutes as u32)
            }
        },
    }
}

/// The label shown for a battery: its vendor (if known), model (or
/// "Battery") and identifier, preferring `UPower`'s values over sysfs'.
pub open spec fn spec_label(
    id: Seq<char>,
    upower_model: Option<Seq<char>>,
    sysfs_model: Option<Seq<char>>,
    upower_vendor: Option<Seq<char>>,
    sysfs_vendor: Option<Seq<char>>,
) -> Seq<char> {
    let name = match upower_model {
        Some(m) => m,
        None => match sysfs_model {
            Some(m) => m,
            None => "Battery"@,
        },
    };
    let vendor = match upower_vendor {
        Some(v) => Some(v),
        None => sysfs_vendor,
    };
    match vendor {
        Some(v) => v + " "@ + name + " ("@ + id + ")"@,
        None => name + " ("@ + id + ")"@,
    }
}

/// The text of an optional string slice.
pub open spec fn opt_view(value: Option<&str>) -> Option<Seq<char>> {
    match value {
        Some(s) => Some(s@),
        None => None,
    }
}

/// Builds the user-readable label of a battery.
pub fn label_for(
    id: &str,
    upower_model: Option<&str>,
    sysfs_model: Option<&str>,
    upower_vendor: Option<&str>,
    sysfs_vendor: Option<&str>,
) -> (r: String)
    ensures
        r@ == spec_label(
            id@,
            opt_view(upower_model),
            opt_view(sysfs_model),
            opt_view(upower_vendor),
            opt_view(sysfs_vendor),
        ),
{
    let name = match upower_model {
        Some(m) => m,
        None => match sysfs_model {
            Some(m) => m,
            None => "Battery",
        },
    };
    let vendor = match upower_vendor {
        Some(v) => Some(v),
        None => sysfs_vendor,
    };
    let mut label = String::new();
    match vendor {
        Some(v) => {
            push_text(&mut label, v);
            push_text(&mut label, " ");
        },
        None => {},
    }
    push_text(&mut label, name);
    push_text(&mut label, " (");
    push_text(&mut label, id);
    push_text(&mut label, ")");
    proof {
        match vendor {
            Some(v) => {
                assert(label@ =~= v@ + " "@ + name@ + " ("@ + id@ + ")"@);
            },
            None => {
                assert(label@ =~= name@ + " ("@ + id@ + ")"@);
            },
        }
    }
    label
}

/// A metric value from `UPower` when it supplied one, else from sysfs,
/// with the name of the provider that supplied it; nothing when neither did.
pub fn choose_source<T>(upower: Option<T>, sysfs: Option<T>) -> (r: Option<(T, &'static str)>)
    ensures
        match upower {
            Some(v) => r matches Some((w, source)) && w == v && source@ == "upower"@,
            None => match sysfs {
                Some(v) => r matches Some((w, source)) && w == v && source@ == "sysfs"@,
                None => r is None,
            },
        },
{
    match upower {
        Some(v) => Some((v, "upower")),
        None => match sysfs {
            Some(v) => Some((v, "sysfs")),
            None => None,
        },
    }
}

/// The power reading shown for a battery: `UPower`'s rate, else sysfs'
/// `power_now`, else the power derived from current and voltage, each
/// labelled with its origin.
pub fn choose_power_source<T>(upower: Option<T>, sysfs: Option<T>, derived: Option<T>) -> (r: Option<
    (T, &'static str),
>)
    ensures
        match upower {
            Some(v) => r matches Some((w, source)) && w == v && source@ == "upower"@,
            None => match sysfs {
                Some(v) => r matches Some((w, source)) && w == v && source@ == "sysfs"@,
                None => match derived {
                    Some(v) => r matches Some((w, source)) && w == v && source@ == "derived"@,
                    None => r is None,
                },
            },
        },
{
    match choose_source(upower, sysfs) {
        Some(chosen) => Some(chosen),
        None => match derived {
            Some(v) => Some((v, "derived")),
            None => None,
        },
    }
}

} // verus!
