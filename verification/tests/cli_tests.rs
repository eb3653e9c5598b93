use lastrun::cli::{
    archive_done_message, archive_heading, archive_prompt, check_task, clear_message, delete_message, done_message,
    is_confirmation, nothing_to_archive_message, require_id, should_run_task, should_run_task_at, sort_col_of,
    start_message, SortColumn,
};
use lastrun::error::AppError;
use lastrun::model::Task;
use lastrun::time::{Duration, Timestamp};
use lastrun::tui::SortCol;

#[test]
fn test_should_run_task() {
    // Create a fixed reference time in the past
    let now = Timestamp::now();

    // Test case: Task ran recently (10 hours ago), threshold is 24 hours
    let recent_run = now.checked_sub(&Duration::hours(10)).unwrap();
    let threshold = Duration::hours(24);
    let (should_run, message) = should_run_task(&recent_run, &threshold);

    assert_eq!(should_run, false);
    assert!(message.contains("not due yet"));
    assert!(message.contains("10h"));

    // Test case: Task ran long ago (30 hours ago), threshold is 24 hours
    let old_run = now.checked_sub(&Duration::hours(30)).unwrap();
    let (should_run, message) = should_run_task(&old_run, &threshold);

    assert_eq!(should_run, true);
    assert!(message.contains("Task is due"));
    assert!(message.contains("1d6h"));

    // Test case: Task ran exactly at threshold
    let threshold_run = now.checked_sub(&Duration::hours(24)).unwrap();
    let (should_run, message) = should_run_task(&threshold_run, &threshold);

    assert_eq!(should_run, true);
    assert!(message.contains("Task is due"));

    // Test case: Task ran 6 days ago, threshold is 7 days
    let week_almost_run = now.checked_sub(&Duration::days(6)).unwrap();
    let week_threshold = Duration::days(7);
    let (should_run, message) = should_run_task(&week_almost_run, &week_threshold);

    assert_eq!(should_run, false);
    assert!(message.contains("not due yet"));
    assert!(message.contains("6d"));

    // Test case: Task ran 8 days ago, threshold is 7 days
    let week_over_run = now.checked_sub(&Duration::days(8)).unwrap();
    let (should_run, message) = should_run_task(&week_over_run, &week_threshold);

    assert_eq!(should_run, true);
    assert!(message.contains("Task is due"));
    assert!(message.contains("8d"));
}

fn noon() -> Timestamp {
    // 2023-05-15T12:00:00Z
    Timestamp::from_parts(1684152000, 0).unwrap()
}

#[test]
fn should_run_task_at_exact_messages() {
    let now = noon();
    let last = now.checked_sub(&Duration::hours(10)).unwrap();
    let (due, msg) = should_run_task_at(&now, &last, &Duration::hours(24));
    assert!(!due);
    assert_eq!(
        msg,
        "Task is not due yet (last run: 2023-05-15T02:00:00+00:00, 10h0m ago, threshold: 1d0h)"
    );
    let last = now.checked_sub(&Duration::hours(30)).unwrap();
    let (due, msg) = should_run_task_at(&now, &last, &Duration::hours(24));
    assert!(due);
    assert_eq!(msg, "Task is due (last run: 2023-05-14T06:00:00+00:00, 1d6h ago)");
}

#[test]
fn due_exactly_at_threshold_and_at_zero() {
    let now = noon();
    let last = now.checked_sub(&Duration::hours(24)).unwrap();
    assert!(should_run_task_at(&now, &last, &Duration::hours(24)).0);
    let just_before = now.checked_sub(&Duration::milliseconds(86_399_999)).unwrap();
    assert!(!should_run_task_at(&now, &just_before, &Duration::hours(24)).0);
    assert!(should_run_task_at(&now, &now, &Duration::hours(0)).0);
}

#[test]
fn check_task_verdicts() {
    let now = noon();
    let missing = check_task(None, "backup", &Duration::hours(24), &now);
    assert!(missing.due);
    assert_eq!(
        missing.message,
        "\x1b[1m\x1b[31mTask \x1b[97mbackup\x1b[31m does not exist yet. It is considered due.\x1b[0m"
    );
    assert!(missing.record_threshold.is_none());

    let never = Task::new("backup".to_string());
    let v = check_task(Some(&never), "backup", &Duration::hours(24), &now);
    assert!(v.due);
    assert_eq!(
        v.message,
        "\x1b[1m\x1b[31mTask \x1b[97mbackup\x1b[31m has no recorded last run. It is considered due.\x1b[0m"
    );
    assert!(v.record_threshold.is_none());

    let mut ran = Task::new("backup".to_string());
    ran.last_run = Some(now.checked_sub(&Duration::hours(2)).unwrap());
    let v = check_task(Some(&ran), "backup", &Duration::days(1), &now);
    assert!(!v.due);
    assert_eq!(v.record_threshold, Some(86400));
    assert!(v.message.starts_with("\x1b[1m\x1b[32mTask is not due yet"));
    assert!(v.message.ends_with("threshold: 1d0h)\x1b[0m"));

    let v = check_task(Some(&ran), "backup", &Duration::hours(1), &now);
    assert!(v.due);
    assert_eq!(v.record_threshold, Some(3600));
    assert!(v.message.starts_with("\x1b[1m\x1b[31mTask is due"));
}

#[test]
fn archive_messages() {
    assert_eq!(archive_prompt(1), "Permanently delete 1 log entry? [y/N]: ");
    assert_eq!(archive_prompt(3), "Permanently delete 3 log entries? [y/N]: ");
    assert_eq!(archive_prompt(0), "Permanently delete 0 log entries? [y/N]: ");
    assert_eq!(archive_done_message(1), "\x1b[1m\x1b[32mDeleted 1 log entry.\x1b[0m");
    assert_eq!(archive_done_message(12), "\x1b[1m\x1b[32mDeleted 12 log entries.\x1b[0m");
}

#[test]
fn confirmation_answers() {
    assert!(is_confirmation("y"));
    assert!(is_confirmation("Y\n"));
    assert!(is_confirmation("  yes  "));
    assert!(is_confirmation("YeS"));
    assert!(!is_confirmation(""));
    assert!(!is_confirmation("n"));
    assert!(!is_confirmation("yess"));
    assert!(!is_confirmation("y e s"));
}

#[test]
fn delete_done_start_messages() {
    assert_eq!(
        delete_message("backup", 1, 3),
        "\x1b[1m\x1b[32mTask \x1b[97mbackup\x1b[32m deleted. 3 log entries removed.\x1b[0m"
    );
    assert_eq!(
        delete_message("ghost", 0, 0),
        "\x1b[1m\x1b[31mNo task found with ID: \x1b[97mghost\x1b[31m. 0 log entries removed.\x1b[0m"
    );
    assert_eq!(
        done_message("backup", "2023-05-15 12:00:00", &None),
        "\x1b[1m\x1b[32mTask \x1b[97mbackup\x1b[32m finished at \x1b[97m2023-05-15 12:00:00\x1b[0m"
    );
    assert_eq!(
        done_message("backup", "2023-05-15 12:00:00", &Some("5m0s".to_string())),
        "\x1b[1m\x1b[32mTask \x1b[97mbackup\x1b[32m finished at \x1b[97m2023-05-15 12:00:00\x1b[32m. Elapsed time: \x1b[97m5m0s\x1b[32m\x1b[0m"
    );
    assert_eq!(
        start_message("backup", "2023-05-15 11:55:00"),
        "\x1b[1m\x1b[32mTask \x1b[97mbackup\x1b[32m started at \x1b[97m2023-05-15 11:55:00\x1b[0m"
    );
}

#[test]
fn ids_and_sort_columns() {
    assert!(require_id("backup").is_ok());
    assert!(matches!(require_id(""), Err(AppError::MissingTaskId)));
    assert_eq!(sort_col_of(SortColumn::Task), SortCol::Task);
    assert_eq!(sort_col_of(SortColumn::Status), SortCol::Status);
    assert_eq!(sort_col_of(SortColumn::Duration), SortCol::Duration);
    assert_eq!(sort_col_of(SortColumn::Elapsed), SortCol::Elapsed);
    assert_eq!(sort_col_of(SortColumn::LastRun), SortCol::LastRun);
}

#[test]
fn clear_and_archive_lines() {
    assert_eq!(
        clear_message("backup", true),
        "\x1b[1m\x1b[32mTask \x1b[97mbackup\x1b[32m cleared (start and done values reset).\x1b[0m"
    );
    assert_eq!(clear_message("ghost", false), "\x1b[1m\x1b[31mTask \x1b[97mghost\x1b[31m does not exist.\x1b[0m");
    assert_eq!(archive_heading(None), "\x1b[1m\x1b[32mArchive logs across all tasks\x1b[0m");
    assert_eq!(
        archive_heading(Some("backup")),
        "\x1b[1m\x1b[32mArchive logs for task \x1b[97mbackup\x1b[32m\x1b[0m"
    );
    assert_eq!(
        nothing_to_archive_message("7d"),
        "\x1b[1m\x1b[32mNo log entries found older than 7d.\x1b[0m"
    );
}
