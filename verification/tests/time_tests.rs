use lastrun::time::{Duration, Timestamp};

#[test]
fn timestamp_parts_and_rfc3339() {
    let t = Timestamp::from_parts(1684152000, 500_000_000).unwrap();
    assert_eq!(t.secs(), 1684152000);
    assert_eq!(t.subsec_nanos(), 500_000_000);
    assert_eq!(t.to_rfc3339(), "2023-05-15T12:00:00.500+00:00");
    assert!(Timestamp::from_parts(0, 1_000_000_000).is_none());
    assert!(Timestamp::from_parts(i64::MAX, 0).is_none());
    assert_eq!(Timestamp::from_parts(0, 0).unwrap().to_rfc3339(), "1970-01-01T00:00:00+00:00");
}

#[test]
fn rfc3339_round_trip() {
    let t = Timestamp::from_parts(1684152000, 123_456_789).unwrap();
    let back = Timestamp::parse_rfc3339(&t.to_rfc3339()).unwrap();
    assert_eq!(back, t);
    let early = Timestamp::from_parts(-86400, 0).unwrap();
    assert_eq!(Timestamp::parse_rfc3339(&early.to_rfc3339()).unwrap(), early);
}

#[test]
fn rfc3339_offsets_and_refusals() {
    let utc = Timestamp::parse_rfc3339("2023-05-15T12:00:00Z").unwrap();
    let east = Timestamp::parse_rfc3339("2023-05-15T17:30:00+05:30").unwrap();
    assert_eq!(utc, east);
    assert_eq!(utc.secs(), 1684152000);
    assert!(Timestamp::parse_rfc3339("2023-05-15 12:00").is_none());
    assert!(Timestamp::parse_rfc3339("").is_none());
    assert!(Timestamp::parse_rfc3339("2023-13-01T00:00:00Z").is_none());
}

#[test]
fn leap_second_reads_as_next_second() {
    let leap = Timestamp::parse_rfc3339("2016-12-31T23:59:60.250Z").unwrap();
    let next = Timestamp::parse_rfc3339("2017-01-01T00:00:00.250Z").unwrap();
    assert_eq!(leap, next);
    assert_eq!(leap.subsec_nanos(), 250_000_000);
}

#[test]
fn spans_between_instants() {
    let a = Timestamp::from_parts(1000, 250_000_000).unwrap();
    let b = Timestamp::from_parts(1003, 0).unwrap();
    let d = b.signed_duration_since(&a);
    assert_eq!(d.num_milliseconds(), 2750);
    assert_eq!(d.num_seconds(), 2);
    let back = a.signed_duration_since(&b);
    assert_eq!(back.num_milliseconds(), -2750);
    assert_eq!(back.num_seconds(), -2);
    assert!(a.is_before(&b));
    assert!(!b.is_before(&a));
    assert!(!a.is_before(&a));
}

#[test]
fn shifting_instants() {
    let a = Timestamp::from_parts(1000, 250_000_000).unwrap();
    let later = a.checked_add(&Duration::milliseconds(1750)).unwrap();
    assert_eq!(later.secs(), 1002);
    assert_eq!(later.subsec_nanos(), 0);
    let earlier = a.checked_sub(&Duration::milliseconds(1500)).unwrap();
    assert_eq!(earlier.secs(), 998);
    assert_eq!(earlier.subsec_nanos(), 750_000_000);
    assert_eq!(earlier.checked_add(&Duration::milliseconds(1500)).unwrap(), a);
    let huge = Duration::days(200_000_000);
    assert!(a.checked_add(&huge).is_none());
    assert!(a.checked_sub(&huge).is_none());
}

#[test]
fn duration_units_and_sums() {
    assert_eq!(Duration::minutes(1), Duration::seconds(60));
    assert_eq!(Duration::hours(1), Duration::minutes(60));
    assert_eq!(Duration::days(1), Duration::hours(24));
    assert_eq!(Duration::weeks(1), Duration::days(7));
    assert_eq!(Duration::seconds(1), Duration::milliseconds(1000));
    assert_eq!(Duration::hours(1).plus(&Duration::minutes(30)).num_seconds(), 5400);
    assert_eq!(Duration::milliseconds(-1500).num_seconds(), -1);
    assert_eq!(Duration::milliseconds(1999).num_seconds(), 1);
    assert!(Duration::hours(2).exceeds(&Duration::hours(1)));
    assert!(!Duration::hours(1).exceeds(&Duration::hours(1)));
    assert!(Duration::hours(1).at_least(&Duration::hours(1)));
    assert!(!Duration::minutes(59).at_least(&Duration::hours(1)));
}

#[test]
fn rfc3339_round_trip_at_the_year_bounds() {
    let first = Timestamp::from_parts(-62_167_219_200, 0).unwrap();
    assert_eq!(first.to_rfc3339(), "0000-01-01T00:00:00+00:00");
    assert_eq!(Timestamp::parse_rfc3339(&first.to_rfc3339()).unwrap(), first);
    let last = Timestamp::from_parts(253_402_300_799, 999_999_999).unwrap();
    assert_eq!(last.to_rfc3339(), "9999-12-31T23:59:59.999999999+00:00");
    assert_eq!(Timestamp::parse_rfc3339(&last.to_rfc3339()).unwrap(), last);
    // Past the year 9999 chrono writes a signed year, which it does not read back
    let beyond = Timestamp::from_parts(253_402_300_800, 0).unwrap();
    assert_eq!(beyond.to_rfc3339(), "+10000-01-01T00:00:00+00:00");
    assert!(Timestamp::parse_rfc3339(&beyond.to_rfc3339()).is_none());
}

#[test]
fn parsed_parts_to_instants() {
    let t = Timestamp::from_parsed(Some((1483228799, 1_250_000_000))).unwrap();
    assert_eq!(t.secs(), 1483228800);
    assert_eq!(t.subsec_nanos(), 250_000_000);
    let plain = Timestamp::from_parsed(Some((5, 7))).unwrap();
    assert_eq!((plain.secs(), plain.subsec_nanos()), (5, 7));
    assert!(Timestamp::from_parsed(None).is_none());
    assert!(Timestamp::from_parsed(Some((i64::MAX, 1_500_000_000))).is_none());
    assert!(Timestamp::from_parsed(Some((0, 2_000_000_000))).is_none());
    assert!(Timestamp::from_parsed(Some((i64::MAX, 0))).is_none());
}

#[test]
fn chrono_date_range_bounds() {
    assert!(Timestamp::from_parts(-8_334_601_228_800, 0).is_some());
    assert!(Timestamp::from_parts(-8_334_601_228_801, 999_999_999).is_none());
    assert!(Timestamp::from_parts(8_210_266_876_799, 999_999_999).is_some());
    assert!(Timestamp::from_parts(8_210_266_876_800, 0).is_none());
}

#[test]
fn rfc3339_fraction_digits() {
    let t = Timestamp::from_parts(1684152000, 1_234_000).unwrap();
    assert_eq!(t.to_rfc3339(), "2023-05-15T12:00:00.001234+00:00");
    let t = Timestamp::from_parts(1684152000, 7).unwrap();
    assert_eq!(t.to_rfc3339(), "2023-05-15T12:00:00.000000007+00:00");
    let t = Timestamp::from_parts(-62_167_219_201, 0).unwrap();
    assert_eq!(t.to_rfc3339(), "-0001-12-31T23:59:59+00:00");
}

#[test]
fn noon_keeps_its_date_within_twelve_hours() {
    let noon = Timestamp::from_parts(1684152000, 0).unwrap();
    for off in [-43_199, -36_000, 0, 19_800, 43_199] {
        assert!(noon.format_with_offset(off).starts_with("2023-05-15"));
    }
    assert_eq!(noon.format_with_offset(0), "2023-05-15 12:00:00");
    assert_eq!(noon.format_with_offset(43_200), "2023-05-16 00:00:00");
    assert!(noon.local_offset().abs() < 86_400);
}
