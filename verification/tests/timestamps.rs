use moderation::dispatch::{timeout_expiry, to_iso8601};
use moderation::timestamp::{Timestamp, MAX_MICROS, MAX_SECONDS, MIN_MICROS, MIN_SECONDS};

#[test]
fn the_calendar_ends_where_the_date_library_ends() {
    assert!(chrono::DateTime::from_timestamp_micros(MAX_MICROS).is_some());
    assert!(chrono::DateTime::from_timestamp_micros(MAX_MICROS + 1).is_none());
    assert!(chrono::DateTime::from_timestamp_micros(MIN_MICROS).is_some());
    assert!(chrono::DateTime::from_timestamp_micros(MIN_MICROS - 1).is_none());
    assert_eq!(chrono::DateTime::<chrono::Utc>::MAX_UTC.timestamp(), MAX_SECONDS);
    assert_eq!(chrono::DateTime::<chrono::Utc>::MIN_UTC.timestamp(), MIN_SECONDS);
}

#[test]
fn timestamps_exist_exactly_inside_the_calendar() {
    assert!(Timestamp::from_micros(MAX_MICROS).is_some());
    assert!(Timestamp::from_micros(MAX_MICROS + 1).is_none());
    assert!(Timestamp::from_micros(MIN_MICROS).is_some());
    assert!(Timestamp::from_micros(MIN_MICROS - 1).is_none());
    assert!(Timestamp::from_micros(i64::MAX).is_none());
    assert!(Timestamp::from_micros(i64::MIN).is_none());
    assert!(Timestamp::from_unix_seconds(MAX_SECONDS).is_some());
    assert!(Timestamp::from_unix_seconds(MAX_SECONDS + 1).is_none());
    assert!(Timestamp::from_unix_seconds(MIN_SECONDS).is_some());
    assert!(Timestamp::from_unix_seconds(MIN_SECONDS - 1).is_none());
}

#[test]
fn timestamps_keep_their_instant() {
    assert_eq!(Timestamp::from_micros(-5).unwrap().micros(), -5);
    assert_eq!(Timestamp::from_unix_seconds(12).unwrap().micros(), 12_000_000);
    assert_eq!(Timestamp::from_unix_seconds(-12).unwrap().micros(), -12_000_000);
    assert_eq!(Timestamp::from_unix_seconds(MAX_SECONDS).unwrap().micros(), MAX_MICROS - 999_999);
}

#[test]
fn writes_rfc3339_at_the_epoch_and_around_it() {
    assert_eq!(Timestamp::from_micros(0).unwrap().to_rfc3339(), "1970-01-01T00:00:00+00:00");
    assert_eq!(
        Timestamp::from_unix_seconds(-1).unwrap().to_rfc3339(),
        "1969-12-31T23:59:59+00:00"
    );
    assert_eq!(
        Timestamp::from_micros(1_431_648_000_500_000).unwrap().to_rfc3339(),
        "2015-05-15T00:00:00.500+00:00"
    );
}

#[test]
fn writes_the_ends_of_the_calendar() {
    assert_eq!(
        Timestamp::from_micros(MAX_MICROS).unwrap().to_rfc3339(),
        "+262142-12-31T23:59:59.999999+00:00"
    );
    assert_eq!(
        Timestamp::from_micros(MIN_MICROS).unwrap().to_rfc3339(),
        "-262143-01-01T00:00:00+00:00"
    );
    assert_eq!(
        Timestamp::from_micros(MAX_MICROS).unwrap().to_debug_text(),
        "+262142-12-31T23:59:59.999999"
    );
    assert_eq!(
        Timestamp::from_micros(MIN_MICROS).unwrap().to_debug_text(),
        "-262143-01-01T00:00:00"
    );
}

#[test]
fn writes_the_date_and_time_without_zone() {
    assert_eq!(Timestamp::from_micros(0).unwrap().to_debug_text(), "1970-01-01T00:00:00");
    assert_eq!(
        Timestamp::from_micros(1_662_921_288_120_000).unwrap().to_debug_text(),
        "2022-09-11T18:34:48.120"
    );
}

#[test]
fn written_forms_are_those_of_the_date_library() {
    let instants =
        [0i64, 1, -1, 1_700_000_000_000_000, -62_167_219_200_000_000, 253_402_300_800_000_000];
    for micros in instants {
        let at = chrono::DateTime::from_timestamp_micros(micros).unwrap();
        let timestamp = Timestamp::from_micros(micros).unwrap();
        assert_eq!(timestamp.to_rfc3339(), at.to_rfc3339());
        assert_eq!(timestamp.to_debug_text(), format!("{:?}", at.naive_utc()));
    }
}

#[test]
fn a_timeout_ends_duration_seconds_after_now() {
    assert_eq!(
        timeout_expiry(1_700_000_000, 3600).unwrap().micros(),
        1_700_003_600_000_000
    );
    assert_eq!(to_iso8601(1_700_000_000, 3600).unwrap(), "2023-11-14T23:13:20+00:00");
    assert_eq!(to_iso8601(1_700_000_000, 0).unwrap(), "2023-11-14T22:13:20+00:00");
    assert_eq!(to_iso8601(1_700_000_000, -1_700_000_000).unwrap(), "1970-01-01T00:00:00+00:00");
}

#[test]
fn a_timeout_beyond_the_calendar_has_no_end() {
    assert!(to_iso8601(i64::MAX, 1).is_none());
    assert!(to_iso8601(i64::MIN, -1).is_none());
    assert!(to_iso8601(MAX_SECONDS, 1).is_none());
    assert!(to_iso8601(MAX_SECONDS, 0).is_some());
    assert!(to_iso8601(MIN_SECONDS, -1).is_none());
    assert!(timeout_expiry(0, i64::MAX).is_none());
    assert!(timeout_expiry(i64::MAX, i64::MIN).is_some());
}
