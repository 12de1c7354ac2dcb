use chrono::Datelike;
use tidemark::domain::time::{
    parse_fixed_offset, TimezonePolicy, MAX_TIMESTAMP, MIN_TIMESTAMP,
};
use tidemark::error::TideError;

#[test]
fn parses_timezone_variants() {
    assert!(matches!(
        TimezonePolicy::parse("UTC").unwrap(),
        TimezonePolicy::Utc
    ));
    assert!(matches!(
        TimezonePolicy::parse("+08:00").unwrap(),
        TimezonePolicy::Fixed(_)
    ));
    assert!(TimezonePolicy::parse("+8").is_err());
}

#[test]
fn computes_day_delta() {
    let tz = TimezonePolicy::parse("UTC").unwrap();
    let anchor = 1_704_067_200; // 2024-01-01T00:00:00Z
    let target = 1_704_153_600; // 2024-01-02T00:00:00Z
    assert_eq!(tz.day_delta(anchor, target).unwrap(), 1);
}

#[test]
fn utc_is_spelled_in_either_case() {
    for spelling in ["UTC", "utc", "Utc", "Z", "z", "  UTC \n"] {
        assert!(matches!(TimezonePolicy::parse(spelling), Ok(TimezonePolicy::Utc)), "{spelling}");
    }
}

#[test]
fn offsets_are_read_exactly() {
    let cases = [
        ("+00:00", 0),
        ("-00:00", 0),
        ("+08:00", 8 * 3600),
        ("-05:30", -(5 * 3600 + 30 * 60)),
        ("+23:59", 23 * 3600 + 59 * 60),
        ("-23:59", -(23 * 3600 + 59 * 60)),
        (" +01:00 ", 3600),
    ];
    for (spelling, seconds) in cases {
        match TimezonePolicy::parse(spelling) {
            Ok(TimezonePolicy::Fixed(offset)) => assert_eq!(offset.seconds(), seconds, "{spelling}"),
            other => panic!("{spelling}: {other:?}"),
        }
    }
    assert_eq!(parse_fixed_offset("+08:00").map(|o| o.seconds()), Some(28800));
    assert!(parse_fixed_offset(" +08:00").is_none());
}

#[test]
fn other_spellings_are_invalid_timezones() {
    for spelling in [
        "", "+8", "Asia/Shanghai", "+24:00", "+08:60", "08:00", "+0800", "+08-00", "+8:000",
        "+-5:30", "++5:30", "+08:+5", "UT", "GMT", "+08:00:00", "＋08:00",
    ] {
        match TimezonePolicy::parse(spelling) {
            Err(TideError::InvalidTimezone { value }) => assert_eq!(value, spelling),
            other => panic!("{spelling:?}: {other:?}"),
        }
    }
}

#[test]
fn canonical_names() {
    assert_eq!(TimezonePolicy::parse("utc").unwrap().canonical_name(), "UTC");
    assert_eq!(TimezonePolicy::parse("z").unwrap().canonical_name(), "UTC");
    assert_eq!(TimezonePolicy::parse("+08:00").unwrap().canonical_name(), "+08:00");
    assert_eq!(TimezonePolicy::parse("-05:30").unwrap().canonical_name(), "-05:30");
    assert_eq!(TimezonePolicy::parse("-00:00").unwrap().canonical_name(), "+00:00");
    assert_eq!(TimezonePolicy::parse("+23:59").unwrap().canonical_name(), "+23:59");
}

fn chrono_day(timestamp: i64, offset: i32) -> i32 {
    let zone = chrono::FixedOffset::east_opt(offset).unwrap();
    chrono::DateTime::<chrono::Utc>::from_timestamp(timestamp, 0)
        .unwrap()
        .with_timezone(&zone)
        .date_naive()
        .num_days_from_ce()
}

#[test]
fn dates_are_chronos() {
    let zones = ["UTC", "+08:00", "-05:30", "+23:59", "-23:59"];
    let stamps = [
        0, 1, -1, 86_399, 86_400, -86_400, -86_401, 1_704_067_200, 1_704_153_599, 951_782_400,
        -2_208_988_800, 4_102_444_800, -62_135_596_800, -62_135_596_801,
    ];
    for zone in zones {
        let policy = TimezonePolicy::parse(zone).unwrap();
        let offset = match policy {
            TimezonePolicy::Utc => 0,
            TimezonePolicy::Fixed(o) => o.seconds(),
        };
        for ts in stamps {
            let date = policy.date_for_timestamp(ts).unwrap();
            assert_eq!(date.days_from_ce, chrono_day(ts, offset), "{zone} {ts}");
            let expected = (ts + offset as i64).div_euclid(86_400) + 719_163;
            assert_eq!(date.days_from_ce as i64, expected, "{zone} {ts}");
        }
    }
}

#[test]
fn epoch_is_day_719163() {
    let utc = TimezonePolicy::Utc;
    assert_eq!(utc.date_for_timestamp(0).unwrap().days_from_ce, 719_163);
    assert_eq!(utc.date_for_timestamp(-1).unwrap().days_from_ce, 719_162);
}

#[test]
fn calendar_range_is_chronos() {
    assert!(chrono::DateTime::<chrono::Utc>::from_timestamp(MAX_TIMESTAMP, 0).is_some());
    assert!(chrono::DateTime::<chrono::Utc>::from_timestamp(MAX_TIMESTAMP + 1, 0).is_none());
    assert!(chrono::DateTime::<chrono::Utc>::from_timestamp(MIN_TIMESTAMP, 0).is_some());
    assert!(chrono::DateTime::<chrono::Utc>::from_timestamp(MIN_TIMESTAMP - 1, 0).is_none());
    let utc = TimezonePolicy::Utc;
    assert_eq!(utc.date_for_timestamp(MAX_TIMESTAMP).unwrap().days_from_ce, 95_745_399);
    assert_eq!(utc.date_for_timestamp(MIN_TIMESTAMP).unwrap().days_from_ce, -95_746_129);
    assert_eq!(chrono_day(MAX_TIMESTAMP, 0), 95_745_399);
    assert_eq!(chrono_day(MIN_TIMESTAMP, 0), -95_746_129);
}

#[test]
fn timestamps_outside_the_calendar_are_internal_failures() {
    let utc = TimezonePolicy::Utc;
    for ts in [MAX_TIMESTAMP + 1, MIN_TIMESTAMP - 1, i64::MAX, i64::MIN] {
        match utc.date_for_timestamp(ts) {
            Err(TideError::Internal { message }) => {
                assert_eq!(message, format!("invalid unix timestamp: {ts}"))
            }
            other => panic!("{ts}: {other:?}"),
        }
    }
}

#[test]
fn local_dates_outside_the_calendar_are_internal_failures() {
    let east = TimezonePolicy::parse("+08:00").unwrap();
    let west = TimezonePolicy::parse("-08:00").unwrap();
    assert!(east.date_for_timestamp(MAX_TIMESTAMP - 8 * 3600).is_ok());
    assert!(matches!(
        east.date_for_timestamp(MAX_TIMESTAMP - 8 * 3600 + 1),
        Err(TideError::Internal { .. })
    ));
    assert!(matches!(east.date_for_timestamp(MAX_TIMESTAMP), Err(TideError::Internal { .. })));
    assert!(west.date_for_timestamp(MIN_TIMESTAMP + 8 * 3600).is_ok());
    assert!(matches!(
        west.date_for_timestamp(MIN_TIMESTAMP + 8 * 3600 - 1),
        Err(TideError::Internal { .. })
    ));
    assert!(matches!(east.date_for_timestamp(MIN_TIMESTAMP - 1), Err(TideError::Internal { .. })));
}

#[test]
fn day_delta_follows_the_zone() {
    let late = 1_704_065_400; // 2023-12-31T23:30:00Z
    let early = 1_704_069_000; // 2024-01-01T00:30:00Z
    assert_eq!(TimezonePolicy::Utc.day_delta(late, early).unwrap(), 1);
    assert_eq!(TimezonePolicy::parse("-01:00").unwrap().day_delta(late, early).unwrap(), 0);
    assert_eq!(TimezonePolicy::parse("+01:00").unwrap().day_delta(late, early).unwrap(), 0);
    assert_eq!(TimezonePolicy::Utc.day_delta(early, late).unwrap(), -1);
    assert_eq!(TimezonePolicy::Utc.day_delta(late, late).unwrap(), 0);
}

#[test]
fn day_delta_names_the_first_timestamp_it_cannot_date() {
    let utc = TimezonePolicy::Utc;
    match utc.day_delta(i64::MAX, i64::MIN) {
        Err(TideError::Internal { message }) => {
            assert_eq!(message, format!("invalid unix timestamp: {}", i64::MAX))
        }
        other => panic!("{other:?}"),
    }
    match utc.day_delta(0, i64::MIN) {
        Err(TideError::Internal { message }) => {
            assert_eq!(message, format!("invalid unix timestamp: {}", i64::MIN))
        }
        other => panic!("{other:?}"),
    }
}
