use lastrun::time::{Duration, Timestamp};
use lastrun::tui::{
    elapsed_millis, log_entry_color, rows_within_bounds, sort_rows, task_color, task_status_order, task_status_str,
    App, AppState, HistoryView, Key, LogEntry, SortCol, TaskRow, TuiAction, TuiColor,
};

fn now() -> Timestamp {
    Timestamp::from_parts(1684152000, 0).unwrap()
}

fn ago(h: i64) -> Timestamp {
    now().checked_sub(&Duration::hours(h)).unwrap()
}

fn row(id: &str, last_run: Option<Timestamp>, start_time: Option<Timestamp>, duration: Option<i64>) -> TaskRow {
    TaskRow { id: id.to_string(), last_run, start_time, duration }
}

fn sample() -> Vec<TaskRow> {
    vec![
        row("charlie", Some(ago(30)), Some(ago(31)), Some(86400)),
        row("alpha", Some(ago(1)), None, Some(86400)),
        row("bravo", None, Some(ago(2)), None),
        row("delta", None, None, None),
    ]
}

fn ids(app: &App) -> Vec<String> {
    app.tasks.iter().map(|t| t.id.clone()).collect()
}

#[test]
fn statuses_colors_and_ranks() {
    let rows = sample();
    let n = now();
    assert_eq!(task_status_str(&rows[0], &n), "due");
    assert_eq!(task_status_str(&rows[1], &n), "ok");
    assert_eq!(task_status_str(&rows[2], &n), "running");
    assert_eq!(task_status_str(&rows[3], &n), "unknown");
    assert_eq!(task_status_order(&rows[0], &n), 2);
    assert_eq!(task_status_order(&rows[1], &n), 0);
    assert_eq!(task_status_order(&rows[2], &n), 1);
    assert_eq!(task_status_order(&rows[3], &n), 3);
    assert_eq!(task_color(&rows[0], &n), TuiColor::Red);
    assert_eq!(task_color(&rows[1], &n), TuiColor::Green);
    assert_eq!(task_color(&rows[2], &n), TuiColor::Yellow);
    assert_eq!(task_color(&rows[3], &n), TuiColor::Blue);
    let no_threshold = row("e", Some(ago(100)), None, None);
    assert_eq!(task_color(&no_threshold, &n), TuiColor::White);
    assert_eq!(task_status_str(&no_threshold, &n), "ok");
}

#[test]
fn elapsed_and_age_colors() {
    let rows = sample();
    let n = now();
    assert_eq!(elapsed_millis(&rows[0], &n), 3_600_000);
    assert_eq!(elapsed_millis(&rows[1], &n), 0);
    assert_eq!(elapsed_millis(&rows[2], &n), 7_200_000);
    assert_eq!(elapsed_millis(&rows[3], &n), 0);
    let backwards = row("f", Some(ago(5)), Some(ago(1)), None);
    assert_eq!(elapsed_millis(&backwards, &n), 0);
    assert_eq!(log_entry_color(&Duration::minutes(59)), TuiColor::LightGreen);
    assert_eq!(log_entry_color(&Duration::hours(1)), TuiColor::Green);
    assert_eq!(log_entry_color(&Duration::days(1)), TuiColor::Yellow);
    assert_eq!(log_entry_color(&Duration::weeks(1)), TuiColor::Gray);
}

#[test]
fn sorting_by_each_column() {
    let n = now();
    let by = |col: SortCol, asc: bool| -> Vec<String> {
        sort_rows(sample(), col, asc, &n).iter().map(|t| t.id.clone()).collect()
    };
    assert_eq!(by(SortCol::Task, true), vec!["alpha", "bravo", "charlie", "delta"]);
    assert_eq!(by(SortCol::Task, false), vec!["delta", "charlie", "bravo", "alpha"]);
    assert_eq!(by(SortCol::Status, true), vec!["alpha", "bravo", "charlie", "delta"]);
    assert_eq!(by(SortCol::Duration, true), vec!["charlie", "alpha", "bravo", "delta"]);
    assert_eq!(by(SortCol::Elapsed, true), vec!["alpha", "delta", "charlie", "bravo"]);
    assert_eq!(by(SortCol::LastRun, true), vec!["charlie", "alpha", "bravo", "delta"]);
    assert_eq!(by(SortCol::LastRun, false), vec!["delta", "bravo", "alpha", "charlie"]);
}

#[test]
fn app_starts_sorted_with_first_selected() {
    let app = App::new(sample(), SortCol::Task, now());
    assert_eq!(ids(&app), vec!["alpha", "bravo", "charlie", "delta"]);
    assert_eq!(app.selected, Some(0));
    assert!(app.sort_asc);
    assert!(matches!(app.app_state, AppState::Normal));
    assert_eq!(app.page_size, 10);
    let empty = App::new(Vec::new(), SortCol::Task, now());
    assert_eq!(empty.selected, None);
    assert_eq!(empty.selected_id(), None);
}

#[test]
fn navigation_wraps_and_pages_stop() {
    let mut app = App::new(sample(), SortCol::Task, now());
    app.nav_up();
    assert_eq!(app.selected, Some(3));
    app.nav_down();
    assert_eq!(app.selected, Some(0));
    app.nav_down();
    app.nav_down();
    assert_eq!(app.selected_id(), Some("charlie".to_string()));
    app.set_page_size(6);
    assert_eq!(app.page_size, 2);
    app.page_down();
    assert_eq!(app.selected, Some(3));
    app.page_up();
    assert_eq!(app.selected, Some(1));
    app.page_up();
    assert_eq!(app.selected, Some(0));
    app.set_page_size(3);
    assert_eq!(app.page_size, 1);
}

#[test]
fn keys_on_the_table() {
    let n = now();
    let mut app = App::new(sample(), SortCol::Task, n);
    assert!(matches!(app.handle_key(Key::Char('j'), &n), TuiAction::Continue));
    assert_eq!(app.selected, Some(1));
    assert!(matches!(app.handle_key(Key::Up, &n), TuiAction::Continue));
    assert_eq!(app.selected, Some(0));
    assert!(matches!(app.handle_key(Key::Char('r'), &n), TuiAction::RefreshTasks));
    app.handle_key(Key::Tab, &n);
    assert_eq!(app.sort_col, SortCol::Status);
    app.handle_key(Key::BackTab, &n);
    assert_eq!(app.sort_col, SortCol::Task);
    app.handle_key(Key::Left, &n);
    assert_eq!(app.sort_col, SortCol::LastRun);
    app.handle_key(Key::Right, &n);
    assert_eq!(app.sort_col, SortCol::Task);
    app.handle_key(Key::Char('s'), &n);
    assert!(!app.sort_asc);
    assert_eq!(ids(&app), vec!["delta", "charlie", "bravo", "alpha"]);
    match app.handle_key(Key::Enter, &n) {
        TuiAction::OpenHistory(id) => assert_eq!(id, "delta"),
        _ => panic!("expected history"),
    }
    assert!(matches!(app.handle_key(Key::Char('q'), &n), TuiAction::Quit));
    assert!(matches!(app.handle_key(Key::Esc, &n), TuiAction::Quit));
    assert!(matches!(app.tick_action(), TuiAction::RefreshTasks));
}

#[test]
fn help_overlay_swallows_keys() {
    let n = now();
    let mut app = App::new(sample(), SortCol::Task, n);
    app.handle_key(Key::Char('?'), &n);
    assert!(app.show_help);
    assert!(matches!(app.handle_key(Key::Char('j'), &n), TuiAction::Continue));
    assert_eq!(app.selected, Some(0));
    assert!(matches!(app.handle_key(Key::Char('r'), &n), TuiAction::Continue));
    assert!(app.show_help);
    app.handle_key(Key::Esc, &n);
    assert!(!app.show_help);
}

#[test]
fn deleting_a_task_asks_first() {
    let n = now();
    let mut app = App::new(sample(), SortCol::Task, n);
    app.handle_key(Key::Char('j'), &n);
    app.handle_key(Key::Char('d'), &n);
    match &app.app_state {
        AppState::ConfirmDelete(id) => assert_eq!(id, "bravo"),
        _ => panic!("expected confirmation"),
    }
    assert!(matches!(app.handle_key(Key::Char('x'), &n), TuiAction::Continue));
    assert!(matches!(app.app_state, AppState::ConfirmDelete(_)));
    assert!(matches!(app.handle_key(Key::Char('n'), &n), TuiAction::Continue));
    assert!(matches!(app.app_state, AppState::Normal));
    app.handle_key(Key::Char('d'), &n);
    match app.handle_key(Key::Char('y'), &n) {
        TuiAction::DeleteTask(id) => assert_eq!(id, "bravo"),
        _ => panic!("expected delete"),
    }
    assert!(matches!(app.app_state, AppState::Normal));
}

#[test]
fn refresh_keeps_the_selected_task() {
    let n = now();
    let mut app = App::new(sample(), SortCol::Task, n);
    app.handle_key(Key::Char('j'), &n);
    app.handle_key(Key::Char('j'), &n);
    assert_eq!(app.selected_id(), Some("charlie".to_string()));
    let mut fresh = sample();
    fresh.push(row("aardvark", None, None, None));
    let later = n.checked_add(&Duration::seconds(5)).unwrap();
    app.refresh(fresh, later);
    assert_eq!(app.selected_id(), Some("charlie".to_string()));
    assert_eq!(app.selected, Some(3));
    assert_eq!(app.last_updated, later);
    let gone: Vec<TaskRow> = sample().into_iter().filter(|t| t.id != "charlie").collect();
    app.refresh(gone, later);
    assert_eq!(app.selected, Some(0));
    app.refresh(Vec::new(), later);
    assert_eq!(app.selected, None);
}

fn entry(raw: &str, end: Timestamp, ms: i64) -> LogEntry {
    (raw.to_string(), end, ms)
}

fn logs() -> Vec<LogEntry> {
    vec![
        entry("t3", ago(1), 3000),
        entry("t2", ago(13), 1000),
        entry("t1", ago(25), 2000),
    ]
}

#[test]
fn history_panel_keys() {
    let n = now();
    let mut app = App::new(sample(), SortCol::Task, n);
    app.open_history("alpha".to_string(), logs());
    assert!(matches!(app.app_state, AppState::History));
    assert!(matches!(app.tick_action(), TuiAction::RefreshHistory));
    app.handle_key(Key::Down, &n);
    assert_eq!(app.history_view.as_ref().unwrap().selected, Some(1));
    app.handle_key(Key::Char('d'), &n);
    assert_eq!(app.history_view.as_ref().unwrap().confirm_delete, Some("t2".to_string()));
    app.handle_key(Key::Char('n'), &n);
    assert_eq!(app.history_view.as_ref().unwrap().confirm_delete, None);
    app.handle_key(Key::Char('d'), &n);
    match app.handle_key(Key::Enter, &n) {
        TuiAction::DeleteLogEntry { task_id, raw_end_time } => {
            assert_eq!(task_id, "alpha");
            assert_eq!(raw_end_time, "t2");
        }
        _ => panic!("expected a log deletion"),
    }
    assert!(matches!(app.handle_key(Key::Char('r'), &n), TuiAction::RefreshHistory));
    app.handle_key(Key::Char('q'), &n);
    assert!(matches!(app.app_state, AppState::Normal));
    assert_eq!(app.selected, Some(0));
}

#[test]
fn history_refresh_and_stats() {
    let mut hv = HistoryView::load("alpha".to_string(), logs());
    assert_eq!(hv.selected, Some(0));
    hv.nav_down();
    assert_eq!(hv.selected_raw_end_time(), Some("t2"));
    let fewer = vec![entry("t2", ago(13), 1000), entry("t1", ago(25), 2000)];
    hv.refresh(fewer);
    assert_eq!(hv.selected, Some(0));
    assert_eq!(hv.selected_raw_end_time(), Some("t2"));
    hv.refresh(vec![entry("t9", ago(2), 1)]);
    assert_eq!(hv.selected, Some(0));

    let hv = HistoryView::load("alpha".to_string(), logs());
    assert!(HistoryView::sums_fit(&hv.logs));
    // average 2000 ms, shortest 1000, longest 3000, one run every 12 hours
    assert_eq!(hv.stats(), Some((2000, 1000, 3000, Some(12 * 3_600_000))));
    let one = HistoryView::load("x".to_string(), vec![entry("t", ago(1), -7)]);
    assert_eq!(one.stats(), Some((-7, -7, -7, None)));
    let none = HistoryView::load("x".to_string(), Vec::new());
    assert_eq!(none.stats(), None);
    assert_eq!(none.selected, None);
    let big = vec![entry("a", ago(1), i64::MAX), entry("b", ago(2), 1)];
    assert!(!HistoryView::sums_fit(&big));
}

#[test]
fn history_page_size_and_bounds() {
    let mut hv = HistoryView::load("x".to_string(), logs());
    hv.set_page_size(3);
    assert_eq!(hv.page_size, 2);
    hv.page_down();
    assert_eq!(hv.selected, Some(2));
    hv.page_up();
    assert_eq!(hv.selected, Some(0));
    hv.set_page_size(0);
    assert_eq!(hv.page_size, 1);
    assert!(rows_within_bounds(&sample()));
    assert!(!rows_within_bounds(&vec![row("x", None, None, Some(i64::MAX))]));
}

#[test]
fn stored_rows_read_back() {
    let t = TaskRow::from_stored(
        "x".to_string(),
        Some("2023-05-15T12:00:00+00:00".to_string()),
        Some("junk".to_string()),
        Some(60),
    );
    assert_eq!(t.last_run, Some(now()));
    assert!(t.start_time.is_none());
    assert_eq!(t.duration, Some(60));
}

#[test]
fn status_view_agrees_with_check_at_the_threshold() {
    let n = now();
    let exactly = row("x", Some(ago(24)), None, Some(86400));
    assert_eq!(task_status_str(&exactly, &n), "due");
    assert_eq!(task_color(&exactly, &n), TuiColor::Red);
    assert!(lastrun::cli::should_run_task_at(&n, &ago(24), &Duration::hours(24)).0);
    let just_within = row("y", Some(n.checked_sub(&Duration::milliseconds(86_399_999)).unwrap()), None, Some(86400));
    assert_eq!(task_status_str(&just_within, &n), "ok");
}

#[test]
fn toggling_the_order_twice_restores_it() {
    let n = now();
    let mut app = App::new(sample(), SortCol::Task, n);
    let before = ids(&app);
    app.toggle_sort_order(&n);
    let mut reversed = before.clone();
    reversed.reverse();
    assert_eq!(ids(&app), reversed);
    app.toggle_sort_order(&n);
    assert_eq!(ids(&app), before);
    assert!(app.sort_asc);
}
