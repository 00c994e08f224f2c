//! Calendar bucket keys of session aggregation.
//!
//! A session is counted in the local day, ISO week or month of its first
//! observation. The calendar date of an instant comes from `time`; the key
//! written for it is decided here.

use vstd::prelude::*;
use crate::text::chars_of;
use crate::text::decimal_digits;
use crate::text::push_char;
use crate::text::push_decimal;
use crate::text::push_text;
use crate::storage::SessionAggregationPeriod;
use crate::recorder::parse_rfc3339;
use crate::recorder::rfc3339_instant;
use crate::commands::known_timezone;
use chrono::Datelike;
use chrono::TimeZone;

verus! {

/// `digits` preceded by zeros up to `width` characters.
pub open spec fn zero_padded(digits: Seq<char>, width: nat) -> Seq<char> {
    if digits.len() >= width {
        digits
    } else {
        Seq::new((width - digits.len()) as nat, |_i: int| '0') + digits
    }
}

/// An integer as `format!("{:0w}")` writes it: a minus sign counts toward
/// the width, and zeros fill the rest after it.
pub open spec fn signed_zero_padded(value: int, width: nat) -> Seq<char> {
    if value < 0 {
        seq!['-'] + zero_padded(decimal_digits((-value) as nat), (width - 1) as nat)
    } else {
        zero_padded(decimal_digits(value as nat), width)
    }
}

/// A year as `time`'s `Date` displays it: a minus sign before a negative
/// year, then at least four digits.
pub open spec fn date_year_text(year: int) -> Seq<char> {
    if year < 0 {
        seq!['-'] + zero_padded(decimal_digits((-year) as nat), 4)
    } else {
        zero_padded(decimal_digits(year as nat), 4)
    }
}

/// The key of the bucket holding a calendar date, given as its year, month,
/// day, ISO week-based year and ISO week: `YYYY-MM-DD`, `YYYY-Www` or
/// `YYYY-MM`.
pub open spec fn bucket_text(date: (i32, u8, u8, i32, u8), period: SessionAggregationPeriod) -> Seq<
    char,
> {
    match period {
        SessionAggregationPeriod::Daily => date_year_text(date.0 as int) + seq!['-'] + zero_padded(
            decimal_digits(date.1 as nat),
            2,
        ) + seq!['-'] + zero_padded(decimal_digits(date.2 as nat), 2),
        SessionAggregationPeriod::Weekly => signed_zero_padded(date.3 as int, 4) + seq!['-', 'W']
            + zero_padded(decimal_digits(date.4 as nat), 2),
        SessionAggregationPeriod::Monthly => signed_zero_padded(date.0 as int, 4) + seq!['-']
            + zero_padded(decimal_digits(date.1 as nat), 2),
    }
}

fn push_zero_padded(out: &mut String, value: u32, width: usize)
    ensures
        final(out)@ == old(out)@ + zero_padded(decimal_digits(value as nat), width as nat),
{
    let mut digits = String::new();
    assert(digits@ =~= Seq::<char>::empty());
    push_decimal(&mut digits, value as i64);
    assert(digits@ =~= decimal_digits(value as nat));
    let count = chars_of(digits.as_str()).len();
    let ghost start = out@;
    let mut k: usize = count;
    while k < width
        invariant
            count == decimal_digits(value as nat).len(),
            count <= k,
            k <= width || k == count,
            out@ == start + Seq::new((k - count) as nat, |_i: int| '0'),
        decreases width - k,
    {
        push_char(out, '0');
        assert(out@ =~= start + Seq::new((k + 1 - count) as nat, |_i: int| '0'));
        k = k + 1;
    }
    push_text(out, digits.as_str());
    proof {
        if count >= width {
            assert(out@ =~= start + decimal_digits(value as nat));
        } else {
            assert(k == width);
            assert(out@ =~= start + zero_padded(decimal_digits(value as nat), width as nat));
        }
    }
}

fn push_signed_zero_padded(out: &mut String, value: i32, width: usize)
    requires
        width >= 1,
    ensures
        final(out)@ == old(out)@ + signed_zero_padded(value as int, width as nat),
{
    if value < 0 {
        push_char(out, '-');
        let magnitude: u32 = if value == i32::MIN {
            2147483648u32
        } else {
            (-value) as u32
        };
        let ghost mid = out@;
        push_zero_padded(out, magnitude, width - 1);
        assert(out@ =~= old(out)@ + signed_zero_padded(value as int, width as nat));
    } else {
        push_zero_padded(out, value as u32, width);
    }
}

fn push_date_year(out: &mut String, year: i32)
    ensures
        final(out)@ == old(out)@ + date_year_text(year as int),
{
    if year < 0 {
        push_char(out, '-');
        let magnitude: u32 = if year == i32::MIN {
            2147483648u32
        } else {
            (-year) as u32
        };
        push_zero_padded(out, magnitude, 4);
        assert(out@ =~= old(out)@ + date_year_text(year as int));
    } else {
        push_zero_padded(out, year as u32, 4);
    }
}

/// The key of the bucket holding a calendar date, given as its year, month,
/// day, ISO week-based year and ISO week.
pub fn calendar_bucket(date: (i32, u8, u8, i32, u8), period: SessionAggregationPeriod) -> (r:
    String)
    ensures
        r@ == bucket_text(date, period),
{
    let (year, month, day, iso_year, iso_week) = date;
    let mut out = String::new();
    assert(out@ =~= Seq::<char>::empty());
    match period {
        SessionAggregationPeriod::Daily => {
            push_date_year(&mut out, year);
            push_char(&mut out, '-');
            push_zero_padded(&mut out, month as u32, 2);
            push_char(&mut out, '-');
            push_zero_padded(&mut out, day as u32, 2);
        },
        SessionAggregationPeriod::Weekly => {
            push_signed_zero_padded(&mut out, iso_year, 4);
            push_char(&mut out, '-');
            push_char(&mut out, 'W');
            push_zero_padded(&mut out, iso_week as u32, 2);
        },
        SessionAggregationPeriod::Monthly => {
            push_signed_zero_padded(&mut out, year, 4);
            push_char(&mut out, '-');
            push_zero_padded(&mut out, month as u32, 2);
        },
    }
    proof {
        assert(out@ =~= bucket_text(date, period));
    }
    out
}

/// A month's key names the calendar year and month of the date, never its
/// ISO week-year: it depends on those two fields alone, and for a year from
/// 0 on it is the day's key without its day. A week's key depends on the
/// ISO week-year and week alone.
pub proof fn lemma_bucket_keys_name_their_period(
    date: (i32, u8, u8, i32, u8),
    other: (i32, u8, u8, i32, u8),
)
    ensures
        date.0 == other.0 && date.1 == other.1 ==> bucket_text(date, SessionAggregationPeriod::Monthly)
            == bucket_text(other, SessionAggregationPeriod::Monthly),
        date.3 == other.3 && date.4 == other.4 ==> bucket_text(date, SessionAggregationPeriod::Weekly)
            == bucket_text(other, SessionAggregationPeriod::Weekly),
        date.0 >= 0 ==> bucket_text(date, SessionAggregationPeriod::Monthly) + seq!['-']
            + zero_padded(decimal_digits(date.2 as nat), 2) == bucket_text(
            date,
            SessionAggregationPeriod::Daily,
        ),
{
    if date.0 >= 0 {
        assert(date_year_text(date.0 as int) == signed_zero_padded(date.0 as int, 4));
        assert(bucket_text(date, SessionAggregationPeriod::Monthly) + seq!['-'] + zero_padded(
            decimal_digits(date.2 as nat),
            2,
        ) =~= bucket_text(date, SessionAggregationPeriod::Daily));
    }
}

/// The calendar date, at a fixed UTC offset, of an instant given in
/// nanoseconds since the Unix epoch, as `time` computes it: year, month,
/// day, ISO week-based year and ISO week.
pub uninterp spec fn local_calendar_date(instant_nanos: i128, offset_seconds: i32) -> Option<
    (i32, u8, u8, i32, u8),
>;

/// `time`: the `OffsetDateTime` of `instant_nanos`
/// (`from_unix_timestamp_nanos`) moved to the offset of `offset_seconds`
/// (`UtcOffset::from_whole_seconds`, `checked_to_offset`), and the calendar
/// and ISO-week fields of its date. Claimed: the outcome depends on the two
/// arguments alone; `None` where `time` rejects either value.
#[verifier::external_body]
fn calendar_date_at(instant_nanos: i128, offset_seconds: i32) -> (r: Option<(i32, u8, u8, i32, u8)>)
    ensures
        r == local_calendar_date(instant_nanos, offset_seconds),
{
    let offset = time::UtcOffset::from_whole_seconds(offset_seconds).ok()?;
    let instant = time::OffsetDateTime::from_unix_timestamp_nanos(instant_nanos).ok()?;
    let date = instant.checked_to_offset(offset)?.date();
    let (iso_year, iso_week, _) = date.to_iso_week_date();
    Some((date.year(), u8::from(date.month()), date.day(), iso_year, iso_week))
}

/// The key of the bucket holding an instant, in the calendar of a fixed UTC
/// offset; `None` where `time` cannot place the instant at that offset.
pub fn session_bucket(instant_nanos: i128, offset_seconds: i32, period: SessionAggregationPeriod) -> (r:
    Option<String>)
    ensures
        match local_calendar_date(instant_nanos, offset_seconds) {
            Some(date) => r matches Some(key) && key@ == bucket_text(date, period),
            None => r is None,
        },
{
    match calendar_date_at(instant_nanos, offset_seconds) {
        Some(date) => Some(calendar_bucket(date, period)),
        None => None,
    }
}

/// A year as `chrono` writes `%Y`: four zero-padded digits for the years 0
/// to 9999, otherwise a sign and at least four digits.
pub open spec fn chrono_year_text(year: int) -> Seq<char> {
    if 0 <= year && year <= 9999 {
        zero_padded(decimal_digits(year as nat), 4)
    } else if year < 0 {
        seq!['-'] + zero_padded(decimal_digits((-year) as nat), 4)
    } else {
        seq!['+'] + zero_padded(decimal_digits(year as nat), 4)
    }
}

/// The key of the bucket holding a stored RFC 3339 timestamp, in the
/// calendar of a fixed UTC offset. The error describes text that `time`
/// cannot read; `Ok(None)` is an instant that has no date at that offset.
pub fn stored_timestamp_bucket(timestamp: &str, offset_seconds: i32, period: SessionAggregationPeriod) -> (r:
    Result<Option<String>, String>)
    ensures
        match rfc3339_instant(timestamp@) {
            None => r is Err,
            Some(nanos) => match local_calendar_date(nanos, offset_seconds) {
                Some(date) => r matches Ok(Some(key)) && key@ == bucket_text(date, period),
                None => r == Ok::<Option<String>, String>(None),
            },
        },
{
    match parse_rfc3339(timestamp) {
        Ok(nanos) => Ok(session_bucket(nanos, offset_seconds, period)),
        Err(message) => Err(message),
    }
}

/// The key of the bucket holding a local calendar date of an IANA zone,
/// given as its year, month, day, ISO week-based year and ISO week: `%F`
/// and `%Y-%m` as `chrono` writes them, and the ISO week as
/// `format!("{:04}-W{:02}")` writes it.
pub open spec fn zoned_bucket_text(date: (i32, u8, u8, i32, u8), period: SessionAggregationPeriod) -> Seq<
    char,
> {
    match period {
        SessionAggregationPeriod::Daily => chrono_year_text(date.0 as int) + seq!['-'] + zero_padded(
            decimal_digits(date.1 as nat),
            2,
        ) + seq!['-'] + zero_padded(decimal_digits(date.2 as nat), 2),
        SessionAggregationPeriod::Weekly => signed_zero_padded(date.3 as int, 4) + seq!['-', 'W']
            + zero_padded(decimal_digits(date.4 as nat), 2),
        SessionAggregationPeriod::Monthly => chrono_year_text(date.0 as int) + seq!['-']
            + zero_padded(decimal_digits(date.1 as nat), 2),
    }
}

/// In the calendar of an IANA zone, a month's key names the calendar year
/// and month of the date, never its ISO week-year: it depends on those two
/// fields alone and is the day's key without its day. A week's key depends
/// on the ISO week-year and week alone.
pub proof fn lemma_zoned_keys_name_their_period(
    date: (i32, u8, u8, i32, u8),
    other: (i32, u8, u8, i32, u8),
)
    ensures
        date.0 == other.0 && date.1 == other.1 ==> zoned_bucket_text(
            date,
            SessionAggregationPeriod::Monthly,
        ) == zoned_bucket_text(other, SessionAggregationPeriod::Monthly),
        date.3 == other.3 && date.4 == other.4 ==> zoned_bucket_text(
            date,
            SessionAggregationPeriod::Weekly,
        ) == zoned_bucket_text(other, SessionAggregationPeriod::Weekly),
        zoned_bucket_text(date, SessionAggregationPeriod::Monthly) + seq!['-'] + zero_padded(
            decimal_digits(date.2 as nat),
            2,
        ) == zoned_bucket_text(date, SessionAggregationPeriod::Daily),
{
    assert(zoned_bucket_text(date, SessionAggregationPeriod::Monthly) + seq!['-'] + zero_padded(
        decimal_digits(date.2 as nat),
        2,
    ) =~= zoned_bucket_text(date, SessionAggregationPeriod::Daily));
}

fn push_chrono_year(out: &mut String, year: i32)
    ensures
        final(out)@ == old(out)@ + chrono_year_text(year as int),
{
    if 0 <= year && year <= 9999 {
        push_zero_padded(out, year as u32, 4);
    } else if year < 0 {
        push_char(out, '-');
        let magnitude: u32 = if year == i32::MIN {
            2147483648u32
        } else {
            (-year) as u32
        };
        push_zero_padded(out, magnitude, 4);
        assert(out@ =~= old(out)@ + chrono_year_text(year as int));
    } else {
        push_char(out, '+');
        push_zero_padded(out, year as u32, 4);
        assert(out@ =~= old(out)@ + chrono_year_text(year as int));
    }
}

/// The key of the bucket holding a local calendar date of an IANA zone.
pub fn zoned_bucket(date: (i32, u8, u8, i32, u8), period: SessionAggregationPeriod) -> (r: String)
    ensures
        r@ == zoned_bucket_text(date, period),
{
    let (year, month, day, iso_year, iso_week) = date;
    let mut out = String::new();
    assert(out@ =~= Seq::<char>::empty());
    match period {
        SessionAggregationPeriod::Daily => {
            push_chrono_year(&mut out, year);
            push_char(&mut out, '-');
            push_zero_padded(&mut out, month as u32, 2);
            push_char(&mut out, '-');
            push_zero_padded(&mut out, day as u32, 2);
        },
        SessionAggregationPeriod::Weekly => {
            push_signed_zero_padded(&mut out, iso_year, 4);
            push_char(&mut out, '-');
            push_char(&mut out, 'W');
            push_zero_padded(&mut out, iso_week as u32, 2);
        },
        SessionAggregationPeriod::Monthly => {
            push_chrono_year(&mut out, year);
            push_char(&mut out, '-');
            push_zero_padded(&mut out, month as u32, 2);
        },
    }
    proof {
        assert(out@ =~= zoned_bucket_text(date, period));
    }
    out
}

/// The local calendar date, in the IANA zone `timezone`, of the instant
/// that the RFC 3339 text `timestamp` names, as `chrono` and `chrono-tz`
/// compute it: year, month, day, ISO week-based year and ISO week; `None`
/// for text that is not RFC 3339 or a zone that is not known.
pub uninterp spec fn zoned_calendar_date(timestamp: Seq<char>, timezone: Seq<char>) -> Option<
    (i32, u8, u8, i32, u8),
>;

/// `chrono::DateTime::parse_from_rfc3339`, then `with_timezone` to the
/// `chrono_tz::Tz` parsed from `timezone`, then the calendar and ISO-week
/// fields of the local date. Claimed: the outcome depends on the two
/// arguments alone (the zone database is fixed in the crate), and is `None`
/// for a zone that `chrono-tz` does not know.
#[verifier::external_body]
fn calendar_date_in_zone(timestamp: &str, timezone: &str) -> (r: Option<(i32, u8, u8, i32, u8)>)
    ensures
        r == zoned_calendar_date(timestamp@, timezone@),
        !known_timezone(timezone@) ==> r is None,
{
    let zone = timezone.parse::<chrono_tz::Tz>().ok()?;
    let local = chrono::DateTime::parse_from_rfc3339(timestamp).ok()?.with_timezone(&zone);
    let week = local.iso_week();
    Some((local.year(), local.month() as u8, local.day() as u8, week.year(), week.week() as u8))
}

/// The key of the bucket holding the instant an RFC 3339 timestamp names,
/// in the calendar of the IANA zone `timezone`; `None` where the timestamp
/// cannot be read or the zone is not known.
pub fn zoned_session_bucket(timestamp: &str, timezone: &str, period: SessionAggregationPeriod) -> (r:
    Option<String>)
    ensures
        match zoned_calendar_date(timestamp@, timezone@) {
            Some(date) => r matches Some(key) && key@ == zoned_bucket_text(date, period),
            None => r is None,
        },
        !known_timezone(timezone@) ==> r is None,
{
    match calendar_date_in_zone(timestamp, timezone) {
        Some(date) => Some(zoned_bucket(date, period)),
        None => None,
    }
}

/// The calendar date (year, month, day) that a `YYYY-MM-DD` text names, as
/// `chrono` reads it; `None` for any other text.
pub uninterp spec fn iso_date_named(text: Seq<char>) -> Option<(i32, u32, u32)>;

/// `chrono::NaiveDate::parse_from_str` with the format `%Y-%m-%d`, read as
/// year, month and day. Claimed: the outcome depends on `text` alone.
#[verifier::external_body]
fn parse_iso_date(text: &str) -> (r: Option<(i32, u32, u32)>)
    ensures
        r == iso_date_named(text@),
{
    match chrono::NaiveDate::parse_from_str(text, "%Y-%m-%d") {
        Ok(date) => Some((date.year(), date.month(), date.day())),
        Err(_) => None,
    }
}

/// The first year that `chrono`'s `NaiveDate` represents.
pub const FIRST_CALENDAR_YEAR: i32 = -262143;

/// The last year that `chrono`'s `NaiveDate` represents.
pub const LAST_CALENDAR_YEAR: i32 = 262142;

/// Whether a year of the proleptic Gregorian calendar is a leap year.
pub open spec fn is_leap_year(year: int) -> bool {
    year % 4 == 0 && (year % 100 != 0 || year % 400 == 0)
}

/// The number of days of a month of a year.
pub open spec fn days_in_month(year: int, month: int) -> int {
    if month == 2 {
        if is_leap_year(year) {
            29
        } else {
            28
        }
    } else if month == 4 || month == 6 || month == 9 || month == 11 {
        30
    } else {
        31
    }
}

/// Whether (year, month, day) is a date that `chrono`'s `NaiveDate`
/// represents.
pub open spec fn is_calendar_date(date: (i32, u32, u32)) -> bool {
    &&& FIRST_CALENDAR_YEAR <= date.0 <= LAST_CALENDAR_YEAR
    &&& 1 <= date.1 <= 12
    &&& 1 <= date.2 <= days_in_month(date.0 as int, date.1 as int)
}

/// The calendar day after a date, as `NaiveDate::from_ymd_opt` followed by
/// `succ_opt` gives it; `None` for a date that `chrono` does not represent
/// and for its last representable day.
pub open spec fn day_after(date: (i32, u32, u32)) -> Option<(i32, u32, u32)> {
    if !is_calendar_date(date) {
        None
    } else if date.2 < days_in_month(date.0 as int, date.1 as int) {
        Some((date.0, date.1, (date.2 + 1) as u32))
    } else if date.1 < 12 {
        Some((date.0, (date.1 + 1) as u32, 1u32))
    } else if date.0 < LAST_CALENDAR_YEAR {
        Some(((date.0 + 1) as i32, 1u32, 1u32))
    } else {
        None
    }
}

fn leap_year(year: i32) -> (r: bool)
    requires
        FIRST_CALENDAR_YEAR <= year <= LAST_CALENDAR_YEAR,
    ensures
        r == is_leap_year(year as int),
{
    let shifted: u32 = (year + 400000) as u32;
    assert(shifted % 4 == year % 4 && shifted % 100 == year % 100 && shifted % 400 == year % 400);
    shifted % 4 == 0 && (shifted % 100 != 0 || shifted % 400 == 0)
}

fn month_length(year: i32, month: u32) -> (r: u32)
    requires
        FIRST_CALENDAR_YEAR <= year <= LAST_CALENDAR_YEAR,
    ensures
        r == days_in_month(year as int, month as int),
{
    if month == 2 {
        if leap_year(year) {
            29
        } else {
            28
        }
    } else if month == 4 || month == 6 || month == 9 || month == 11 {
        30
    } else {
        31
    }
}

/// The calendar day after a date.
pub fn next_day(date: (i32, u32, u32)) -> (r: Option<(i32, u32, u32)>)
    ensures
        r == day_after(date),
{
    let (year, month, day) = date;
    if year < FIRST_CALENDAR_YEAR || year > LAST_CALENDAR_YEAR || month < 1 || month > 12 || day < 1 {
        return None;
    }
    let length = month_length(year, month);
    if day > length {
        None
    } else if day < length {
        Some((year, month, day + 1))
    } else if month < 12 {
        Some((year, month + 1, 1))
    } else if year < LAST_CALENDAR_YEAR {
        Some((year + 1, 1, 1))
    } else {
        None
    }
}

/// The earliest instant, in seconds since the Unix epoch, at which the wall
/// clock of the IANA zone `timezone` reads `hour`:00:00 on `date`, as
/// `chrono-tz` resolves it; `None` for an unknown zone, an invalid date, or
/// a time that the zone skips.
pub uninterp spec fn earliest_local_instant(timezone: Seq<char>, date: (i32, u32, u32), hour: u32) -> Option<i64>;

/// `chrono_tz::Tz` parsed from `timezone`, then `TimeZone::with_ymd_and_hms`
/// and `LocalResult::earliest`, read as a Unix timestamp. Claimed: the
/// outcome depends on the three arguments alone (the zone database is fixed
/// in the crate), and is `None` for a zone that `chrono-tz` does not know.
#[verifier::external_body]
fn local_instant(timezone: &str, date: (i32, u32, u32), hour: u32) -> (r: Option<i64>)
    ensures
        r == earliest_local_instant(timezone@, date, hour),
        !known_timezone(timezone@) ==> r is None,
{
    let zone = timezone.parse::<chrono_tz::Tz>().ok()?;
    zone.with_ymd_and_hms(date.0, date.1, date.2, hour, 0, 0).earliest().map(|t| t.timestamp())
}

/// The start of a local calendar day: the first of its hours 0 to 4 that
/// the zone's clock shows, so that a day whose midnight is skipped by a
/// daylight-saving change still starts.
pub open spec fn local_day_start_of(timezone: Seq<char>, date: (i32, u32, u32)) -> Option<i64> {
    if earliest_local_instant(timezone, date, 0) is Some {
        earliest_local_instant(timezone, date, 0)
    } else if earliest_local_instant(timezone, date, 1) is Some {
        earliest_local_instant(timezone, date, 1)
    } else if earliest_local_instant(timezone, date, 2) is Some {
        earliest_local_instant(timezone, date, 2)
    } else if earliest_local_instant(timezone, date, 3) is Some {
        earliest_local_instant(timezone, date, 3)
    } else {
        earliest_local_instant(timezone, date, 4)
    }
}

/// The start of a local calendar day.
pub fn local_day_start(timezone: &str, date: (i32, u32, u32)) -> (r: Option<i64>)
    ensures
        r == local_day_start_of(timezone@, date),
        !known_timezone(timezone@) ==> r is None,
{
    let mut hour: u32 = 0;
    while hour < 4
        invariant
            hour <= 4,
            forall|h: u32| h < hour ==> (#[trigger] earliest_local_instant(timezone@, date, h)) is None,
        decreases 4 - hour,
    {
        match local_instant(timezone, date, hour) {
            Some(instant) => return Some(instant),
            None => {},
        }
        hour = hour + 1;
    }
    local_instant(timezone, date, 4)
}

/// Whether date `a` comes before date `b`.
pub open spec fn date_before(a: (i32, u32, u32), b: (i32, u32, u32)) -> bool {
    a.0 < b.0 || (a.0 == b.0 && (a.1 < b.1 || (a.1 == b.1 && a.2 < b.2)))
}

/// The instants bounding a range of local calendar days: the start of the
/// first day and the start of the day after the last. The first day is
/// 1970-01-01 and the last is `today` when not named; `None` for a day that
/// is not a `YYYY-MM-DD` date, a range that ends before it starts, or a day
/// that the zone cannot place.
pub open spec fn date_range_of(
    timezone: Seq<char>,
    start: Option<Seq<char>>,
    end: Option<Seq<char>>,
    today: (i32, u32, u32),
) -> Option<(i64, i64)> {
    let first = match start {
        Some(text) => iso_date_named(text),
        None => Some((1970i32, 1u32, 1u32)),
    };
    let last = match end {
        Some(text) => iso_date_named(text),
        None => Some(today),
    };
    match (first, last) {
        (Some(first), Some(last)) => if date_before(last, first) {
            None
        } else {
            match (local_day_start_of(timezone, first), day_after(last)) {
                (Some(from), Some(next)) => match local_day_start_of(timezone, next) {
                    Some(to) => Some((from, to)),
                    None => None,
                },
                _ => None,
            }
        },
        _ => None,
    }
}

/// The instants, in seconds since the Unix epoch, bounding a range of local
/// calendar days in the IANA zone `timezone`.
pub fn session_date_range(
    timezone: &str,
    start: Option<&str>,
    end: Option<&str>,
    today: (i32, u32, u32),
) -> (r: Option<(i64, i64)>)
    ensures
        r == date_range_of(timezone@, crate::install::opt_str(start), crate::install::opt_str(end), today),
        !known_timezone(timezone@) ==> r is None,
{
    let first = match start {
        Some(text) => parse_iso_date(text),
        None => Some((1970i32, 1u32, 1u32)),
    };
    let last = match end {
        Some(text) => parse_iso_date(text),
        None => Some(today),
    };
    let (first, last) = match (first, last) {
        (Some(first), Some(last)) => (first, last),
        _ => return None,
    };
    if last.0 < first.0 || (last.0 == first.0 && (last.1 < first.1 || (last.1 == first.1 && last.2
        < first.2))) {
        return None;
    }
    let from = match local_day_start(timezone, first) {
        Some(from) => from,
        None => return None,
    };
    let next = match next_day(last) {
        Some(next) => next,
        None => return None,
    };
    match local_day_start(timezone, next) {
        Some(to) => Some((from, to)),
        None => None,
    }
}

} // verus!
