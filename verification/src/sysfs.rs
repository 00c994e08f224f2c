//! Interpretation of values read from Linux's `/sys/class/power_supply`.
//!
//! The application reads the files; this module decides what their trimmed
//! contents mean. Anything unrecognized stays unavailable rather than
//! becoming a zero.

use vstd::prelude::*;
use crate::text::chars_of;
use crate::text::text_equals;

verus! {

/// Largest accepted hardware cycle count.
pub const MAX_CYCLE_COUNT: u64 = 10_000_000;

/// The charging state as reported by a sysfs battery's `status` file.
#[derive(Clone, Copy, Debug, PartialEq, Eq, Structural)]
pub enum SysfsBatteryStatus {
    /// The battery is receiving charge.
    Charging,
    /// The battery is supplying power.
    Discharging,
    /// The battery reports a full charge.
    Full,
    /// The battery is neither charging nor discharging.
    Idle,
}

/// The state a sysfs `status` text names.
pub open spec fn spec_parse_status(value: Seq<char>) -> Option<SysfsBatteryStatus> {
    if value == "Charging"@ {
        Some(SysfsBatteryStatus::Charging)
    } else if value == "Discharging"@ {
        Some(SysfsBatteryStatus::Discharging)
    } else if value == "Full"@ {
        Some(SysfsBatteryStatus::Full)
    } else if value == "Not charging"@ || value == "Idle"@ {
        Some(SysfsBatteryStatus::Idle)
    } else {
        None
    }
}

/// Parses a trimmed sysfs `status` value; unknown values are `None`.
pub fn parse_status(value: &str) -> (r: Option<SysfsBatteryStatus>)
    ensures
        r == spec_parse_status(value@),
{
    if text_equals(value, "Charging") {
        Some(SysfsBatteryStatus::Charging)
    } else if text_equals(value, "Discharging") {
        Some(SysfsBatteryStatus::Discharging)
    } else if text_equals(value, "Full") {
        Some(SysfsBatteryStatus::Full)
    } else if text_equals(value, "Not charging") || text_equals(value, "Idle") {
        Some(SysfsBatteryStatus::Idle)
    } else {
        None
    }
}

/// Whether `c` is an ASCII decimal digit.
pub open spec fn is_digit(c: char) -> bool {
    '0' <= c && c <= '9'
}

/// The value of a run of decimal digits.
pub open spec fn digits_value(s: Seq<char>) -> nat
    decreases s.len(),
{
    if s.len() == 0 {
        0
    } else {
        digits_value(s.drop_last()) * 10 + ((s.last() as u32) - 48) as nat
    }
}

/// The digits of an unsigned integer text: an optional leading `+` is dropped.
pub open spec fn unsigned_digits(s: Seq<char>) -> Seq<char> {
    if s.len() > 0 && s[0] == '+' {
        s.drop_first()
    } else {
        s
    }
}

/// What `str::parse::<u64>` yields: a value for one or more decimal digits,
/// optionally preceded by `+`, that fits in 64 bits.
pub open spec fn spec_parse_u64(s: Seq<char>) -> Option<u64> {
    let digits = unsigned_digits(s);
    if digits.len() == 0 || exists|i: int| 0 <= i < digits.len() && !is_digit(#[trigger] digits[i]) {
        None
    } else if digits_value(digits) > u64::MAX {
        None
    } else {
        Some(digits_value(digits) as u64)
    }
}

/// Parses an unsigned decimal integer exactly as `str::parse::<u64>` does.
pub fn parse_u64(value: &str) -> (r: Option<u64>)
    ensures
        r == spec_parse_u64(value@),
{
    let cs = chars_of(value);
    let start: usize = if cs.len() > 0 && cs[0] == '+' {
        1
    } else {
        0
    };
    let ghost digits = unsigned_digits(value@);
    assert(digits =~= cs@.skip(start as int));
    if start == cs.len() {
        assert(digits.len() == 0);
        return None;
    }
    let mut total: u64 = 0;
    let mut i: usize = start;
    let mut overflow = false;
    while i < cs.len()
        invariant
            start <= i <= cs@.len(),
            cs@ == value@,
            digits == unsigned_digits(value@),
            digits =~= cs@.skip(start as int),
            forall|k: int| start <= k < i ==> is_digit(#[trigger] cs@[k]),
            !overflow ==> total == digits_value(digits.take(i - start)),
            overflow ==> digits_value(digits.take(i - start)) > u64::MAX,
        decreases cs.len() - i,
    {
        let c = cs[i];
        if !('0' <= c && c <= '9') {
            proof {
                assert(digits[i - start] == cs@[i as int]);
                assert(!is_digit(digits[i - start]));
                assert(digits.len() > 0);
            }
            return None;
        }
        let d = (c as u32 - 48) as u64;
        proof {
            assert(digits.take(i - start + 1).drop_last() =~= digits.take(i - start));
            assert(digits.take(i - start + 1).last() == c);
        }
        if !overflow {
            if total > (u64::MAX - d) / 10 {
                overflow = true;
                proof {
                    assert(total * 10 + d > u64::MAX) by (nonlinear_arith)
                        requires
                            total > (u64::MAX - d) / 10,
                            d <= 9,
                    ;
                }
            } else {
                proof {
                    assert(total * 10 + d <= u64::MAX) by (nonlinear_arith)
                        requires
                            total <= (u64::MAX - d) / 10,
                            d <= 9,
                    ;
                }
                total = total * 10 + d;
            }
        } else {
            proof {
                let prev = digits_value(digits.take(i - start));
                assert(prev * 10 + d > u64::MAX) by (nonlinear_arith)
                    requires
                        prev > u64::MAX,
                ;
            }
        }
        i = i + 1;
    }
    proof {
        assert(digits.take(i - start) =~= digits);
        assert forall|k: int| 0 <= k < digits.len() implies is_digit(#[trigger] digits[k]) by {
            assert(digits[k] == cs@[start + k]);
        }
    }
    if overflow {
        None
    } else {
        Some(total)
    }
}

/// A hardware cycle count from a trimmed `cycle_count` value: a `u64` no
/// larger than [`MAX_CYCLE_COUNT`]; anything else is unavailable.
pub fn read_cycle_count(value: Option<&str>) -> (r: Option<u64>)
    ensures
        value is None ==> r is None,
        value matches Some(text) ==> r == match spec_parse_u64(text@) {
            Some(n) => if n <= MAX_CYCLE_COUNT {
                Some(n)
            } else {
                None
            },
            None => None,
        },
{
    match value {
        None => None,
        Some(text) => match parse_u64(text) {
            Some(n) => if n <= MAX_CYCLE_COUNT {
                Some(n)
            } else {
                None
            },
            None => None,
        },
    }
}

} // verus!
