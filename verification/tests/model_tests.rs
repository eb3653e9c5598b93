use lastrun::model::Task;
use lastrun::time::{Duration, Timestamp};

fn at(secs: i64) -> Timestamp {
    Timestamp::from_parts(secs, 0).unwrap()
}

#[test]
fn start_then_done_logs_one_run() {
    let mut t = Task::new("backup".to_string());
    assert!(t.log_record().is_none());
    t.mark_started(at(1684152000));
    assert!(t.last_run.is_none());
    assert!(t.log_record().is_none());
    let elapsed = t.mark_done(at(1684152000 + 330));
    assert_eq!(elapsed, Some("5m30s".to_string()));
    let rec = t.log_record().unwrap();
    assert_eq!(rec.id, "backup");
    assert_eq!(rec.end_time, "2023-05-15T12:05:30+00:00");
    assert_eq!(rec.elapsed_ms, 330_000);
}

#[test]
fn done_without_start_logs_nothing() {
    let mut t = Task::new("backup".to_string());
    let elapsed = t.mark_done(at(1684152000));
    assert!(elapsed.is_none());
    assert!(t.log_record().is_none());
    assert_eq!(t.last_run, Some(at(1684152000)));
}

#[test]
fn second_done_measures_from_same_start() {
    let mut t = Task::new("x".to_string());
    t.mark_started(at(1000));
    t.mark_done(at(1060));
    let elapsed = t.mark_done(at(1120));
    assert_eq!(elapsed, Some("2m0s".to_string()));
    assert_eq!(t.log_record().unwrap().elapsed_ms, 120_000);
    t.mark_started(at(2000));
    assert!(t.last_run.is_none());
}

#[test]
fn clearing_and_stored_times() {
    let mut t = Task::new("x".to_string());
    t.mark_started(at(0));
    t.mark_done(at(90));
    let (lr, st) = t.stored_times();
    assert_eq!(lr, Some("1970-01-01T00:01:30+00:00".to_string()));
    assert_eq!(st, Some("1970-01-01T00:00:00+00:00".to_string()));
    t.clear_times();
    assert!(t.last_run.is_none() && t.start_time.is_none());
    assert_eq!(t.stored_times(), (None, None));
    assert!(t.log_record().is_none());
}

#[test]
fn read_back_from_row() {
    let t = Task::from_row(
        "x".to_string(),
        Some("1970-01-01T00:01:30+00:00".to_string()),
        Some("garbage".to_string()),
    );
    assert_eq!(t.id, "x");
    assert_eq!(t.last_run, Some(at(90)));
    assert!(t.start_time.is_none());
    let d = t.last_run.unwrap().signed_duration_since(&at(0));
    assert_eq!(d, Duration::seconds(90));
}

#[test]
fn stored_task_reads_back_as_itself() {
    let mut t = Task::new("x".to_string());
    t.mark_started(Timestamp::from_parts(1684152000, 123_000_000).unwrap());
    t.mark_done(Timestamp::from_parts(1684152090, 456_789_000).unwrap());
    let (lr, st) = t.stored_times();
    let back = Task::from_row(t.id.clone(), lr, st);
    assert_eq!(back.id, t.id);
    assert_eq!(back.last_run, t.last_run);
    assert_eq!(back.start_time, t.start_time);
    let rec = t.log_record().unwrap();
    assert_eq!(Timestamp::parse_rfc3339(&rec.end_time), t.last_run);
    assert_eq!(rec.elapsed_ms, 90_333);
}
