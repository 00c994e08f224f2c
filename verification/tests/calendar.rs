use chrono::Datelike;
use battery_dashboard::calendar::calendar_bucket;
use battery_dashboard::calendar::local_day_start;
use battery_dashboard::calendar::next_day;
use battery_dashboard::calendar::session_bucket;
use battery_dashboard::calendar::session_date_range;
use battery_dashboard::calendar::stored_timestamp_bucket;
use battery_dashboard::calendar::zoned_bucket;
use battery_dashboard::calendar::zoned_session_bucket;
use battery_dashboard::storage::SessionAggregationPeriod;

fn instant(text: &str) -> i128 {
    time::OffsetDateTime::parse(text, &time::format_description::well_known::Rfc3339)
        .expect("valid timestamp")
        .unix_timestamp_nanos()
}

#[test]
fn aggregation_buckets_honor_the_explicit_fixed_offset() {
    let utc = instant("2026-08-01T00:30:00Z");
    let west = -3600;
    let cases = [
        (SessionAggregationPeriod::Daily, "2026-07-31"),
        (SessionAggregationPeriod::Weekly, "2026-W31"),
        (SessionAggregationPeriod::Monthly, "2026-07"),
    ];
    for (period, expected) in cases {
        assert_eq!(session_bucket(utc, west, period).as_deref(), Some(expected));
    }
}

#[test]
fn bucket_keys_are_zero_padded() {
    assert_eq!(
        calendar_bucket((987, 3, 4, 987, 9), SessionAggregationPeriod::Daily),
        "0987-03-04"
    );
    assert_eq!(
        calendar_bucket((987, 3, 4, 987, 9), SessionAggregationPeriod::Weekly),
        "0987-W09"
    );
    assert_eq!(
        calendar_bucket((987, 3, 4, 987, 9), SessionAggregationPeriod::Monthly),
        "0987-03"
    );
    assert_eq!(
        calendar_bucket((-5, 12, 31, -4, 1), SessionAggregationPeriod::Daily),
        "-0005-12-31"
    );
    assert_eq!(
        calendar_bucket((-5, 12, 31, -4, 1), SessionAggregationPeriod::Weekly),
        "-004-W01"
    );
    assert_eq!(
        calendar_bucket((2026, 1, 1, 2025, 53), SessionAggregationPeriod::Weekly),
        "2025-W53"
    );
}

#[test]
fn offsets_that_time_rejects_have_no_bucket() {
    assert_eq!(
        session_bucket(0, 200_000, SessionAggregationPeriod::Daily),
        None
    );
    assert_eq!(
        session_bucket(0, 0, SessionAggregationPeriod::Daily).as_deref(),
        Some("1970-01-01")
    );
}

#[test]
fn date_range_covers_whole_local_days() {
    let range = session_date_range("UTC", Some("2026-08-01"), Some("2026-08-02"), (2030, 1, 1));
    assert_eq!(range, Some((1_785_542_400, 1_785_715_200)));
}

#[test]
fn date_range_follows_the_named_zone() {
    let range = session_date_range(
        "America/New_York",
        Some("2026-03-08"),
        Some("2026-03-08"),
        (2030, 1, 1),
    );
    assert_eq!(range, Some((1_772_946_000, 1_773_028_800)));
}

#[test]
fn date_range_defaults_to_the_epoch_and_today() {
    let range = session_date_range("UTC", None, None, (1970, 1, 2));
    assert_eq!(range, Some((0, 2 * 86_400)));
}

#[test]
fn date_range_rejects_reversed_or_malformed_days() {
    assert_eq!(
        session_date_range("UTC", Some("2026-08-02"), Some("2026-08-01"), (2030, 1, 1)),
        None
    );
    assert_eq!(session_date_range("UTC", Some("2026/08/01"), None, (2030, 1, 1)), None);
    assert_eq!(session_date_range("UTC", None, Some("2026-02-30"), (2030, 1, 1)), None);
    assert_eq!(session_date_range("Mars/Olympus", None, None, (2030, 1, 1)), None);
}

#[test]
fn day_start_skips_a_missing_local_midnight() {
    // Santiago moved its clocks from 00:00 to 01:00 on 2022-09-11.
    let start = local_day_start("America/Santiago", (2022, 9, 11));
    assert_eq!(start, Some(1_662_868_800));
}

#[test]
fn zoned_buckets_follow_the_local_calendar_of_the_zone() {
    let cases = [
        (SessionAggregationPeriod::Daily, "2025-12-31"),
        (SessionAggregationPeriod::Weekly, "2026-W01"),
        (SessionAggregationPeriod::Monthly, "2025-12"),
    ];
    for (period, expected) in cases {
        let key = zoned_session_bucket("2026-01-01T03:00:00Z", "America/Los_Angeles", period);
        assert_eq!(key.as_deref(), Some(expected));
    }
    let utc = zoned_session_bucket("2026-01-01T03:00:00Z", "UTC", SessionAggregationPeriod::Daily);
    assert_eq!(utc.as_deref(), Some("2026-01-01"));
    let dst = zoned_session_bucket(
        "2026-03-08T06:30:00Z",
        "America/New_York",
        SessionAggregationPeriod::Weekly,
    );
    assert_eq!(dst.as_deref(), Some("2026-W10"));
}

#[test]
fn zoned_buckets_need_a_timestamp_and_a_known_zone() {
    let period = SessionAggregationPeriod::Daily;
    assert_eq!(zoned_session_bucket("yesterday", "UTC", period), None);
    assert_eq!(zoned_session_bucket("2026-01-01T03:00:00Z", "Mars/Olympus", period), None);
}

#[test]
fn zoned_bucket_years_are_written_as_chrono_writes_them() {
    assert_eq!(zoned_bucket((987, 1, 2, 987, 1), SessionAggregationPeriod::Daily), "0987-01-02");
    assert_eq!(zoned_bucket((-3, 5, 1, -3, 18), SessionAggregationPeriod::Monthly), "-0003-05");
    assert_eq!(zoned_bucket((12345, 5, 1, 12345, 18), SessionAggregationPeriod::Daily), "+12345-05-01");
    assert_eq!(zoned_bucket((-3, 5, 1, -3, 18), SessionAggregationPeriod::Weekly), "-003-W18");
}

fn chrono_next_day(date: (i32, u32, u32)) -> Option<(i32, u32, u32)> {
    let next = chrono::NaiveDate::from_ymd_opt(date.0, date.1, date.2)?.succ_opt()?;
    Some((next.year(), next.month(), next.day()))
}

#[test]
fn next_day_counts_days_as_chrono_does() {
    let years = [-262143, -401, -400, -100, -4, -1, 0, 1, 1900, 1999, 2000, 2023, 2024, 2100, 262141, 262142];
    for year in years {
        for month in 0..=13 {
            for day in 0..=32 {
                let date = (year, month, day);
                assert_eq!(next_day(date), chrono_next_day(date), "{date:?}");
            }
        }
    }
    for date in [(-262144, 1, 1), (262143, 1, 1), (i32::MIN, 1, 1), (i32::MAX, 12, 31)] {
        assert_eq!(next_day(date), chrono_next_day(date), "{date:?}");
    }
    assert_eq!(next_day((2024, 2, 28)), Some((2024, 2, 29)));
    assert_eq!(next_day((2023, 12, 31)), Some((2024, 1, 1)));
    assert_eq!(next_day((262142, 12, 31)), None);
}

#[test]
fn stored_timestamps_are_bucketed_at_the_requested_offset() {
    let daily = SessionAggregationPeriod::Daily;
    assert_eq!(
        stored_timestamp_bucket("2026-08-01T00:30:00Z", -3600, daily),
        Ok(Some("2026-07-31".to_owned()))
    );
    assert_eq!(
        stored_timestamp_bucket("2026-08-01T00:30:00Z", 0, SessionAggregationPeriod::Monthly),
        Ok(Some("2026-08".to_owned()))
    );
    assert!(stored_timestamp_bucket("not a timestamp", 0, daily).is_err());
    assert_eq!(stored_timestamp_bucket("2026-08-01T00:30:00Z", 200_000, daily), Ok(None));
}
