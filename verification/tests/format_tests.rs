use lastrun::format::{format_ago, format_datetime, format_duration, parse_duration, parse_rfc3339_opt};
use lastrun::time::{Duration, Timestamp};

#[test]
fn test_parse_duration() {
    // Test hours
    assert_eq!(parse_duration("5h").unwrap(), Duration::hours(5));
    assert_eq!(parse_duration("24h").unwrap(), Duration::hours(24));
    assert_eq!(parse_duration("0h").unwrap(), Duration::hours(0));

    // Test days
    assert_eq!(parse_duration("1d").unwrap(), Duration::days(1));
    assert_eq!(parse_duration("7d").unwrap(), Duration::days(7));
    assert_eq!(parse_duration("30d").unwrap(), Duration::days(30));

    // Test invalid inputs
    assert_eq!(parse_duration("5m").unwrap(), Duration::days(150)); // Months of 30 days
    assert!(parse_duration("5").is_err()); // No unit
    assert!(parse_duration("ab").is_err()); // Not a number
    assert!(parse_duration("").is_err()); // Empty string
}

#[test]
fn test_format_duration() {
    // Test various duration formats
    assert_eq!(format_duration(&Duration::minutes(5)), "5m0s");
    assert_eq!(format_duration(&Duration::minutes(65)), "1h5m");
    assert_eq!(format_duration(&Duration::hours(5)), "5h0m");
    assert_eq!(format_duration(&Duration::hours(25)), "1d1h");
    assert_eq!(format_duration(&Duration::days(1)), "1d0h");
    assert_eq!(
        format_duration(&Duration::days(2).plus(&Duration::hours(12)).plus(&Duration::minutes(30))),
        "2d12h"
    );

    // New: test seconds to hundredths
    assert_eq!(format_duration(&Duration::milliseconds(1500)), "1.50s");
    assert_eq!(format_duration(&Duration::milliseconds(500)), "0.50s");
    assert_eq!(format_duration(&Duration::milliseconds(10)), "0.01s");
    assert_eq!(format_duration(&Duration::milliseconds(1)), "0.00s");
    assert_eq!(format_duration(&Duration::seconds(5).plus(&Duration::milliseconds(250))), "5.25s");
    assert_eq!(format_duration(&Duration::seconds(60).plus(&Duration::milliseconds(750))), "1m0s");
}

#[test]
fn test_format_datetime() {
    // 2023-05-15 12:00:00 UTC
    let test_dt = Timestamp::from_parts(1684152000, 0).unwrap();

    // The result depends on the local time zone of the running machine;
    // check that it has the expected shape.
    let formatted = format_datetime(&test_dt);

    // The string should be in format: YYYY-MM-DD HH:MM:SS
    assert!(formatted.len() >= 19);

    // The date part is the same in every time zone at noon UTC
    assert!(formatted.starts_with("2023-05-15"));

    // Check that it contains the time separators
    assert!(formatted.contains(":"));
}

#[test]
fn parse_duration_weeks_signs_and_message() {
    assert_eq!(parse_duration("2w").unwrap(), Duration::weeks(2));
    assert_eq!(parse_duration("2w").unwrap(), Duration::days(14));
    assert_eq!(parse_duration("+3h").unwrap(), Duration::hours(3));
    assert_eq!(parse_duration("-1d").unwrap(), Duration::days(-1));
    assert!(parse_duration("h").is_err());
    assert!(parse_duration("1.5h").is_err());
    assert!(parse_duration(" 5h").is_err());
    assert_eq!(
        parse_duration("3x").unwrap_err(),
        "Invalid duration format: '3x'. Use a number followed by h (hours), d (days), w (weeks), or m (months). Examples: 24h, 7d, 2w, 3m"
    );
}

#[test]
fn parse_duration_in_seconds() {
    assert_eq!(parse_duration("24h").unwrap().num_seconds(), 86400);
    assert_eq!(parse_duration("30d").unwrap().num_seconds(), 30 * 24 * 3600);
    assert_eq!(parse_duration("1w").unwrap().num_milliseconds(), 604_800_000);
}

#[test]
fn format_duration_negative_and_edges() {
    assert_eq!(format_duration(&Duration::seconds(0)), "0.00s");
    assert_eq!(format_duration(&Duration::seconds(59)), "59.00s");
    assert_eq!(format_duration(&Duration::seconds(3599)), "59m59s");
    assert_eq!(format_duration(&Duration::seconds(3600)), "1h0m");
    assert_eq!(format_duration(&Duration::hours(-2)), "-2h0m");
    assert_eq!(format_duration(&Duration::minutes(-5)), "-5m0s");
    assert_eq!(format_duration(&Duration::milliseconds(-1500)), "-1.50s");
    assert_eq!(format_duration(&Duration::days(400)), "400d0h");
}

#[test]
fn format_ago_forms() {
    assert_eq!(format_ago(&Duration::seconds(45)), "45s ago");
    assert_eq!(format_ago(&Duration::minutes(5)), "5m ago");
    assert_eq!(format_ago(&Duration::seconds(330)), "5m30s ago");
    assert_eq!(format_ago(&Duration::hours(2)), "2h ago");
    assert_eq!(format_ago(&Duration::minutes(135)), "2h15m ago");
    assert_eq!(format_ago(&Duration::days(3)), "3d ago");
    assert_eq!(format_ago(&Duration::hours(76)), "3d4h ago");
    assert_eq!(format_ago(&Duration::seconds(-90)), "1m30s ago");
}

#[test]
fn parse_rfc3339_opt_reads_or_drops() {
    let t = parse_rfc3339_opt(Some("2023-05-15T12:00:00+00:00".to_string())).unwrap();
    assert_eq!(t.secs(), 1684152000);
    assert_eq!(t.subsec_nanos(), 0);
    let shifted = parse_rfc3339_opt(Some("2023-05-15T14:00:00+02:00".to_string())).unwrap();
    assert_eq!(shifted, t);
    assert!(parse_rfc3339_opt(Some("yesterday".to_string())).is_none());
    assert!(parse_rfc3339_opt(None).is_none());
}

#[test]
fn local_datetime_layout() {
    let text = format_datetime(&Timestamp::from_parts(0, 0).unwrap());
    let b = text.as_bytes();
    let n = b.len();
    assert!(n >= 19);
    assert_eq!(b[n - 15], b'-');
    assert_eq!(b[n - 12], b'-');
    assert_eq!(b[n - 9], b' ');
    assert_eq!(b[n - 6], b':');
    assert_eq!(b[n - 3], b':');
    assert!(Timestamp::now().secs() >= 0);
}

#[test]
fn parse_duration_months() {
    assert_eq!(parse_duration("3m").unwrap(), Duration::days(90));
    assert_eq!(parse_duration("1m").unwrap().num_seconds(), 30 * 86400);
    assert_eq!(parse_duration("-2m").unwrap(), Duration::days(-60));
    assert!(parse_duration("m").is_err());
    assert!(parse_duration("1.5m").is_err());
}

fn chrono_text(secs: i64, offset: i32) -> String {
    let dt = chrono::DateTime::<chrono::Utc>::from_timestamp(secs, 0).unwrap();
    dt.with_timezone(&chrono::FixedOffset::east_opt(offset).unwrap()).format("%Y-%m-%d %H:%M:%S").to_string()
}

#[test]
fn civil_text_matches_chrono() {
    let instants: Vec<i64> = vec![
        0,
        -1,
        1684152000,
        951_782_400,
        -62_167_219_200,
        -62_167_219_201,
        253_402_300_799,
        253_402_300_800,
        -8_334_601_228_800,
        8_210_266_876_799,
        -2_208_988_800,
        4_102_444_800,
        1_709_164_800,
        -86_400 * 36_524,
    ];
    let offsets: Vec<i32> = vec![0, 3600, -3600, 19_800, -34_200, 86_399, -86_399, 1_172];
    for &s in &instants {
        let t = Timestamp::from_parts(s, 0).unwrap();
        for &off in &offsets {
            let boundary = (s == -8_334_601_228_800 && off < 0) || (s == 8_210_266_876_799 && off > 0);
            if boundary {
                continue;
            }
            assert_eq!(t.format_with_offset(off), chrono_text(s, off), "at {} {}", s, off);
        }
        let local = chrono::DateTime::<chrono::Utc>::from_timestamp(s, 0)
            .unwrap()
            .with_timezone(&chrono::Local)
            .format("%Y-%m-%d %H:%M:%S")
            .to_string();
        if s > -8_000_000_000_000 && s < 8_000_000_000_000 {
            assert_eq!(format_datetime(&t), local);
        }
    }
    let mut s: i64 = -70_000_000_000;
    while s < 300_000_000_000 {
        let t = Timestamp::from_parts(s, 0).unwrap();
        assert_eq!(t.format_with_offset(-7200), chrono_text(s, -7200));
        s += 987_654_321;
    }
}
