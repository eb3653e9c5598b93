use lastrun::db::{
    archive_default_seconds, auto_archive_seconds, cutoff_before, decode_timed_rows, log_retention_seconds,
    logs_query, retention_value_to_store, tasks_query, DEFAULT_RETENTION_SECS,
};
use lastrun::error::AppError;
use lastrun::time::{Duration, Timestamp};

#[test]
fn queries() {
    assert_eq!(
        logs_query(false, 0),
        "SELECT id, end_time, elapsed_time FROM task_log ORDER BY end_time DESC"
    );
    assert_eq!(
        logs_query(true, 10),
        "SELECT id, end_time, elapsed_time FROM task_log WHERE id = ? ORDER BY end_time DESC LIMIT 10"
    );
    assert_eq!(tasks_query(false), "SELECT id, last_run, start_time, duration FROM tasks ORDER BY id");
    assert_eq!(
        tasks_query(true),
        "SELECT id, last_run, start_time, duration FROM tasks WHERE id = ? ORDER BY id"
    );
}

#[test]
fn decoding_rows() {
    let rows = vec![
        ("a".to_string(), "2023-05-15T12:00:00+00:00".to_string(), 1500),
        ("b".to_string(), "2023-05-14T12:00:00Z".to_string(), -3),
    ];
    let out = decode_timed_rows(rows).unwrap();
    assert_eq!(out.len(), 2);
    assert_eq!(out[0].0, "a");
    assert_eq!(out[0].1.secs(), 1684152000);
    assert_eq!(out[0].2, 1500);
    assert_eq!(out[1].1.secs(), 1684152000 - 86400);
    assert_eq!(out[1].2, -3);

    let bad = vec![
        ("a".to_string(), "2023-05-15T12:00:00+00:00".to_string(), 1),
        ("b".to_string(), "not a time".to_string(), 2),
        ("c".to_string(), "also not".to_string(), 3),
    ];
    assert_eq!(decode_timed_rows(bad).unwrap_err(), 1);
    assert_eq!(decode_timed_rows(Vec::new()).unwrap().len(), 0);
}

#[test]
fn retention_read_back() {
    // Unset, switched off and unreadable values give no retention
    assert!(log_retention_seconds(None).is_none());
    assert_eq!(log_retention_seconds(Some("30d".to_string())), Some(30 * 24 * 3600));
    assert!(log_retention_seconds(Some("off".to_string())).is_none());
    assert!(log_retention_seconds(Some("OFF".to_string())).is_none());
    assert!(log_retention_seconds(Some("0".to_string())).is_none());
    assert!(log_retention_seconds(Some("not_a_duration".to_string())).is_none());
    assert_eq!(log_retention_seconds(Some("2w".to_string())), Some(14 * 24 * 3600));
    assert_eq!(log_retention_seconds(Some("0h".to_string())), Some(0));
}

#[test]
fn retention_values_to_store() {
    assert_eq!(retention_value_to_store("off").unwrap(), "off");
    assert_eq!(retention_value_to_store("Off").unwrap(), "off");
    assert_eq!(retention_value_to_store("0").unwrap(), "off");
    assert_eq!(retention_value_to_store("30d").unwrap(), "30d");
    assert_eq!(retention_value_to_store("24h").unwrap(), "24h");
    match retention_value_to_store("3x") {
        Err(AppError::DurationParse(m)) => assert_eq!(m, "Invalid duration, use e.g. 30d, 2w, 3m, 24h"),
        _ => panic!("expected a duration error"),
    }
    // What is stored reads back as what was asked for
    let stored = retention_value_to_store("1h").unwrap();
    assert_eq!(log_retention_seconds(Some(stored)), Some(3600));
    let stored = retention_value_to_store("OFF").unwrap();
    assert!(log_retention_seconds(Some(stored)).is_none());
}

#[test]
fn archive_windows() {
    assert_eq!(DEFAULT_RETENTION_SECS, 30 * 24 * 3600);
    assert_eq!(archive_default_seconds(None), 30 * 24 * 3600);
    assert_eq!(archive_default_seconds(Some("off".to_string())), 30 * 24 * 3600);
    assert_eq!(archive_default_seconds(Some("1h".to_string())), 3600);
    assert_eq!(auto_archive_seconds(None), Some(30 * 24 * 3600));
    assert_eq!(auto_archive_seconds(Some("off".to_string())), None);
    assert_eq!(auto_archive_seconds(Some("junk".to_string())), None);
    assert_eq!(auto_archive_seconds(Some("1h".to_string())), Some(3600));
}

#[test]
fn cutoff_is_now_less_the_window() {
    let now = Timestamp::from_parts(1684152000, 0).unwrap();
    let cut = cutoff_before(&now, &Duration::hours(24)).unwrap();
    assert_eq!(cut.secs(), 1684152000 - 86400);
    assert_eq!(cut.subsec_nanos(), 0);
    let old = now.checked_sub(&Duration::hours(48)).unwrap();
    let recent = now.checked_sub(&Duration::minutes(5)).unwrap();
    assert!(old.is_before(&cut));
    assert!(!recent.is_before(&cut));
}

#[test]
fn cutoff_beyond_the_calendar_is_none() {
    let now = Timestamp::from_parts(1684152000, 0).unwrap();
    assert!(cutoff_before(&now, &Duration::days(200_000_000)).is_none());
    assert!(cutoff_before(&now, &Duration::days(-200_000_000)).is_none());
}
