use lastrun::status::{
    header_label, history_row_cells, history_title, json_task_status, plain_status_cells, task_table_cells, title_pad,
};
use lastrun::time::{Duration, Timestamp};
use lastrun::tui::{SortCol, TaskRow};

fn now() -> Timestamp {
    Timestamp::from_parts(1684152000, 0).unwrap()
}

fn ago(h: i64) -> Timestamp {
    now().checked_sub(&Duration::hours(h)).unwrap()
}

#[test]
fn json_snapshot_of_a_finished_task() {
    let t = TaskRow { id: "backup".to_string(), last_run: Some(ago(30)), start_time: Some(ago(31)), duration: Some(86400) };
    let j = json_task_status(&t, &now());
    assert_eq!(j.id, "backup");
    assert_eq!(j.last_run, Some("2023-05-14T06:00:00+00:00".to_string()));
    assert_eq!(j.time_since_last_run, Some(30 * 3_600_000));
    assert_eq!(j.time_since_last_run_formatted, Some("1d6h".to_string()));
    assert_eq!(j.start_time, Some("2023-05-14T05:00:00+00:00".to_string()));
    assert_eq!(j.elapsed_time, Some(3_600_000));
    assert_eq!(j.elapsed_time_formatted, Some("1h0m".to_string()));
    assert_eq!(j.duration, Some(86400));
    assert_eq!(j.duration_formatted, Some("1d0h".to_string()));
    assert_eq!(j.status, "due");
}

#[test]
fn json_snapshot_of_running_and_new_tasks() {
    let running = TaskRow { id: "r".to_string(), last_run: None, start_time: Some(ago(2)), duration: None };
    let j = json_task_status(&running, &now());
    assert_eq!(j.last_run, None);
    assert_eq!(j.time_since_last_run, None);
    assert_eq!(j.elapsed_time, Some(7_200_000));
    assert_eq!(j.elapsed_time_formatted, Some("2h0m".to_string()));
    assert_eq!(j.duration_formatted, None);
    assert_eq!(j.status, "running");
    let fresh = TaskRow { id: "n".to_string(), last_run: None, start_time: None, duration: None };
    let j = json_task_status(&fresh, &now());
    assert_eq!(j.elapsed_time, None);
    assert_eq!(j.status, "unknown");
}

#[test]
fn table_cells() {
    let t = TaskRow { id: "backup".to_string(), last_run: Some(ago(30)), start_time: Some(ago(31)), duration: Some(86400) };
    assert_eq!(
        task_table_cells(&t, &now()),
        ("backup".to_string(), "due", "1d0h".to_string(), "1h0m".to_string(), "1d6h".to_string())
    );
    let fresh = TaskRow { id: "n".to_string(), last_run: None, start_time: None, duration: None };
    assert_eq!(
        task_table_cells(&fresh, &now()),
        ("n".to_string(), "unknown", "-".to_string(), "-".to_string(), "-".to_string())
    );
    assert_eq!(
        plain_status_cells(&t, &now()),
        ("Fr", "backup".to_string(), "1d6h".to_string(), "1h0m".to_string(), "1d0h".to_string())
    );
    let recent = TaskRow { id: "x".to_string(), last_run: Some(ago(3)), start_time: None, duration: None };
    assert_eq!(plain_status_cells(&recent, &now()).0, "FW");
    let running = TaskRow { id: "r".to_string(), last_run: None, start_time: Some(ago(2)), duration: None };
    assert_eq!(plain_status_cells(&running, &now()).0, "Fy");
    assert_eq!(plain_status_cells(&fresh, &now()).0, "Fb");
}

#[test]
fn headings_and_titles() {
    assert_eq!(header_label("Task", SortCol::Task, SortCol::Task, true), "Task ▲");
    assert_eq!(header_label("Task", SortCol::Task, SortCol::Task, false), "Task ▼");
    assert_eq!(header_label("Status", SortCol::Status, SortCol::Task, true), "Status");
    assert_eq!(title_pad(40), "───");
    assert_eq!(title_pad(80), "──");
    assert_eq!(title_pad(120), "─");
    assert_eq!(history_title(1, 120), " 1 run ─");
    assert_eq!(history_title(12, 40), " 12 runs ───");
}

#[test]
fn history_rows() {
    let entry = ("t".to_string(), ago(3), 90_500);
    assert_eq!(
        history_row_cells(0, &entry, &now()),
        ("  1".to_string(), "1m30s".to_string(), "3h ago".to_string())
    );
    assert_eq!(history_row_cells(1233, &entry, &now()).0, "1234");
}

#[test]
fn json_status_is_due_only_past_the_threshold() {
    let exactly = TaskRow { id: "x".to_string(), last_run: Some(ago(24)), start_time: None, duration: Some(86400) };
    assert_eq!(json_task_status(&exactly, &now()).status, "ok");
    assert_eq!(task_table_cells(&exactly, &now()).1, "due");
    let past = TaskRow {
        id: "y".to_string(),
        last_run: Some(now().checked_sub(&Duration::milliseconds(86_400_001)).unwrap()),
        start_time: None,
        duration: Some(86400),
    };
    assert_eq!(json_task_status(&past, &now()).status, "due");
    let no_threshold = TaskRow { id: "z".to_string(), last_run: Some(ago(1000)), start_time: None, duration: None };
    assert_eq!(json_task_status(&no_threshold, &now()).status, "ok");
}

#[test]
fn local_time_columns() {
    let fresh = TaskRow { id: "n".to_string(), last_run: None, start_time: None, duration: None };
    assert_eq!(lastrun::status::local_time_cells(&fresh), ("never".to_string(), "-".to_string()));
    let t = TaskRow { id: "x".to_string(), last_run: Some(ago(3)), start_time: Some(ago(4)), duration: None };
    let (last, start) = lastrun::status::local_time_cells(&t);
    assert_eq!(last, lastrun::format::format_datetime(&ago(3)));
    assert_eq!(start, lastrun::format::format_datetime(&ago(4)));
}
