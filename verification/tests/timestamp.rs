//! Instants, against the crate that reads and writes them.

use bot_polymarket_rust::timestamp::{Timestamp, MAX_SECONDS, MIN_SECONDS};
use chrono::{DateTime, Duration, Utc};

fn at(text: &str) -> Timestamp {
    Timestamp::parse_rfc3339(text).unwrap()
}

#[test]
fn the_range_is_that_of_the_crate() {
    assert_eq!(MIN_SECONDS, DateTime::<Utc>::MIN_UTC.timestamp());
    assert_eq!(MAX_SECONDS, DateTime::<Utc>::MAX_UTC.timestamp());
    assert!(Timestamp::from_unix(MIN_SECONDS, 0).is_some());
    assert!(Timestamp::from_unix(MIN_SECONDS - 1, 999_999_999).is_none());
    assert!(Timestamp::from_unix(MAX_SECONDS, 999_999_999).is_some());
    assert!(Timestamp::from_unix(MAX_SECONDS, 1_999_999_999).is_some());
    assert!(Timestamp::from_unix(MAX_SECONDS, 2_000_000_000).is_none());
    assert!(Timestamp::from_unix(MAX_SECONDS + 1, 0).is_none());
    assert!(Timestamp::from_unix(MAX_SECONDS, 999_999_999).unwrap().to_rfc3339().len() > 20);
    assert!(Timestamp::from_unix(MIN_SECONDS, 0).unwrap().to_rfc3339().len() > 20);
}

#[test]
fn texts_are_read_and_written() {
    let t = at("2026-05-12T00:00:30.250Z");
    assert_eq!(t.unix_seconds(), 1778544030);
    assert_eq!(t.subsec_nanos(), 250_000_000);
    assert_eq!(t.unix_millis(), 1778544030250);
    assert_eq!(t.to_rfc3339(), "2026-05-12T00:00:30.250+00:00");
    assert_eq!(at("2026-05-12T02:00:30+02:00"), at("2026-05-12T00:00:30Z"));
    assert!(Timestamp::parse_rfc3339("2026-05-12").is_none());
    assert!(Timestamp::parse_rfc3339("").is_none());
}

#[test]
fn the_first_and_the_last_year_can_be_read() {
    let first = at("0000-01-01T00:00:00+23:59");
    let last = at("9999-12-31T23:59:60.999999999-23:59");
    assert!(first.unix_seconds() >= -62167305600);
    assert!(last.unix_seconds() <= 253402387199);
    assert_eq!(last.subsec_nanos(), 1_999_999_999);
}

#[test]
fn a_leap_second_stands_between_two_minutes() {
    let leap = at("2016-12-31T23:59:60.5Z");
    assert!(at("2016-12-31T23:59:59.999999999Z") < leap);
    assert!(leap < at("2017-01-01T00:00:00Z"));
    assert_ne!(leap, at("2017-01-01T00:00:00.5Z"));
    assert_eq!(leap, at("2017-01-01T01:59:60.5+02:00"));
    assert_eq!(leap.unix_seconds(), 1483228799);
    assert_eq!(leap.subsec_nanos(), 1_500_000_000);
    assert_eq!(leap.unix_millis(), 1483228800500);
    assert_eq!(leap.to_rfc3339(), "2016-12-31T23:59:60.500+00:00");
    assert_eq!(Timestamp::from_unix(1483228799, 1_500_000_000), Some(leap));
    assert_eq!(Timestamp::from_unix(1483228798, 1_500_000_000), None);
    assert_eq!(leap.plus_seconds(1), Some(at("2017-01-01T00:00:00.5Z")));
    assert_eq!(leap.plus_seconds(0), Some(leap));
    assert_eq!(leap.plus_seconds(-1), Some(at("2016-12-31T23:59:59.5Z")));
}

#[test]
fn leap_seconds_count_as_the_crate_counts_them() {
    let texts = [
        "2016-12-31T23:59:58.25Z",
        "2016-12-31T23:59:59Z",
        "2016-12-31T23:59:59.75Z",
        "2016-12-31T23:59:60Z",
        "2016-12-31T23:59:60.5Z",
        "2017-01-01T00:00:00Z",
        "2017-01-01T00:00:00.5Z",
        "2017-01-01T13:30:60.125+01:30",
        "2017-01-02T00:00:07Z",
        "1969-12-31T23:59:60.999999999Z",
        "1965-02-03T04:05:60.1Z",
        "1965-02-03T04:06:00Z",
    ];
    for a in texts {
        let x = at(a);
        let u = DateTime::parse_from_rfc3339(a).unwrap().with_timezone(&Utc);
        assert_eq!(x.unix_seconds(), u.timestamp());
        assert_eq!(x.subsec_nanos(), u.timestamp_subsec_nanos());
        assert_eq!(x.unix_millis(), u.timestamp_millis());
        assert_eq!(x.to_rfc3339(), u.to_rfc3339());
        for k in [-86_400i64, -3600, -300, -60, -1, 0, 1, 59, 300, 86_400] {
            let moved = u + Duration::seconds(k);
            let shifted = x.plus_seconds(k).unwrap();
            assert_eq!(shifted.unix_seconds(), moved.timestamp());
            assert_eq!(shifted.subsec_nanos(), moved.timestamp_subsec_nanos());
        }
        for b in texts {
            let y = at(b);
            let v = DateTime::parse_from_rfc3339(b).unwrap().with_timezone(&Utc);
            assert_eq!(x < y, u < v);
            assert_eq!(x == y, u == v);
            assert_eq!(x.is_before(&y), u < v);
            assert_eq!(x.seconds_since(&y), (u - v).num_seconds());
            assert_eq!(x.millis_since(&y), (u - v).num_milliseconds());
            for ahead in [0u32, 1, 300] {
                let start = v - Duration::seconds(i64::from(ahead));
                assert_eq!(x.seconds_since_before(&y, ahead), (u - start).num_seconds());
            }
        }
    }
}

#[test]
fn differences_are_rounded_towards_zero() {
    let a = Timestamp::from_unix(100, 0).unwrap();
    let b = Timestamp::from_unix(101, 999_999_999).unwrap();
    assert_eq!(b.seconds_since(&a), 1);
    assert_eq!(a.seconds_since(&b), -1);
    assert_eq!(b.millis_since(&a), 1999);
    assert_eq!(a.millis_since(&b), -1999);
    assert_eq!(b.seconds_since_before(&a, 300), 301);
    assert_eq!(a.seconds_since_before(&b, 1), 0);
    assert!(a.is_before(&b) && a < b && a != b);
    assert_eq!(a.plus_seconds(-100), Some(Timestamp::epoch()));
    assert_eq!(a.plus_seconds(i64::MAX), None);
}

#[test]
fn instants_before_the_epoch_fall_into_the_second_below() {
    let t = Timestamp::from_unix(-1, 500_000_000).unwrap();
    assert_eq!(t.unix_seconds(), -1);
    assert_eq!(t.subsec_nanos(), 500_000_000);
    assert_eq!(t.unix_millis(), -500);
    let u = Timestamp::from_unix(-1, 999_999_999).unwrap();
    assert_eq!(u.unix_millis(), -1);
    assert_eq!(u.to_rfc3339(), "1969-12-31T23:59:59.999999999+00:00");
}

#[test]
fn the_clock_shows_the_present() {
    let before = Utc::now();
    let now = Timestamp::now();
    let after = Utc::now();
    assert!(before.timestamp() <= now.unix_seconds() && now.unix_seconds() <= after.timestamp());
    assert!(now.unix_seconds() > 1_700_000_000);
}
