//! The command line: its commands, and the decisions and messages of the
//! commands that are more than a storage call.
use crate::error::AppError;
use crate::format::{duration_text, format_duration};
use crate::model::Task;
use crate::text::{decimal, eq_ignore_ascii_case, eq_ignore_ascii_case_spec, push_nat, push_text, trim, trim_spec};
use crate::time::{rfc3339_text, Duration, Timestamp};
use crate::tui::{is_overdue, status_word, SortCol, TaskRow};
use vstd::prelude::*;

verus! {

pub const BOLD: &'static str = "\x1b[1m";

pub const RESET: &'static str = "\x1b[0m";

pub const GREEN: &'static str = "\x1b[32m";

pub const RED: &'static str = "\x1b[31m";

pub const WHITE: &'static str = "\x1b[97m";

/// The command line as parsed.
pub struct Cli {
    /// Suppress output messages.
    pub quiet: bool,
    /// Where the database lives, instead of the default location.
    pub db_path: Option<String>,
    pub command: Commands,
}

/// Shells that completions can be written for.
#[derive(Clone, Copy, PartialEq, Eq, Debug, Structural)]
pub enum Shell {
    Bash,
    Zsh,
    Fish,
    PowerShell,
}

/// Columns the status view can be ordered by.
#[derive(Clone, Copy, PartialEq, Eq, Debug, Structural)]
pub enum SortColumn {
    Task,
    Status,
    Duration,
    Elapsed,
    LastRun,
}

/// The subcommands.
#[allow(inconsistent_fields)]
pub enum Commands {
    /// Record that a task finished now.
    Update { id: String },
    /// Synonym for update.
    Done { id: String },
    /// Record that a task started now.
    Start { id: String },
    /// Check whether a task is due to run (threshold such as `24h`, `7d`).
    Check { id: String, duration: String },
    /// Show the completion log (a limit of 0 shows all).
    Logs { limit: usize, id: Option<String> },
    /// Show the status of all tasks.
    Status { id: Option<String>, sort: SortColumn, json: bool },
    /// Rebuild the tasks table.
    Reset {},
    /// Delete a task and its log entries.
    Delete { id: String },
    /// Clear a task's start and finish times.
    Clear { id: String },
    /// Delete log entries older than a period (by default the stored retention).
    Archive { older_than: Option<String>, id: Option<String>, yes: bool },
    /// Set how long log entries are kept (`off` or `0` disables cleanup).
    SetRetention { value: String },
    /// Edit the stored settings.
    Settings {},
    /// Print shell completions.
    Completion { shell: Shell },
}

/// The status view column for a command-line sort column.
pub fn sort_col_of(c: SortColumn) -> (r: SortCol)
    ensures
        c == SortColumn::Task ==> r == SortCol::Task,
        c == SortColumn::Status ==> r == SortCol::Status,
        c == SortColumn::Duration ==> r == SortCol::Duration,
        c == SortColumn::Elapsed ==> r == SortCol::Elapsed,
        c == SortColumn::LastRun ==> r == SortCol::LastRun,
{
    match c {
        SortColumn::Task => SortCol::Task,
        SortColumn::Status => SortCol::Status,
        SortColumn::Duration => SortCol::Duration,
        SortColumn::Elapsed => SortCol::Elapsed,
        SortColumn::LastRun => SortCol::LastRun,
    }
}

/// Every command that names a task needs a non-empty id.
pub fn require_id(id: &str) -> (r: Result<(), AppError>)
    ensures
        r is Ok <==> id@.len() > 0,
        r is Err ==> r matches Err(AppError::MissingTaskId),
{
    if id.unicode_len() == 0 {
        Err(AppError::MissingTaskId)
    } else {
        Ok(())
    }
}

/// Whether a task that last ran at `last` is due at `now` under `threshold`:
/// at least the threshold has passed.
pub open spec fn is_due(now: Timestamp, last: Timestamp, threshold_nanos: int) -> bool {
    now.instant() - last.instant() >= threshold_nanos
}

/// The message `check` prints about a task that has run.
pub open spec fn due_message(now: Timestamp, last: Timestamp, threshold_nanos: int) -> Seq<char> {
    let since = duration_text(now.instant() - last.instant());
    let stamp = rfc3339_text(last.spec_secs(), last.spec_nanos());
    if is_due(now, last, threshold_nanos) {
        "Task is due (last run: "@ + stamp + ", "@ + since + " ago)"@
    } else {
        "Task is not due yet (last run: "@ + stamp + ", "@ + since + " ago, threshold: "@ + duration_text(
            threshold_nanos,
        ) + ")"@
    }
}

/// Whether the task is due at `now`, and the message saying so.
pub fn should_run_task_at(now: &Timestamp, last_run: &Timestamp, duration: &Duration) -> (r: (bool, String))
    ensures
        r.0 == is_due(*now, *last_run, duration.total_nanos()),
        r.0 == (now.instant() - last_run.instant() >= duration.total_nanos()),
        r.1@ == due_message(*now, *last_run, duration.total_nanos()),
{
    let since = now.signed_duration_since(last_run);
    let mut m = String::new();
    if since.at_least(duration) {
        push_text(&mut m, "Task is due (last run: ");
        push_text(&mut m, last_run.to_rfc3339().as_str());
        push_text(&mut m, ", ");
        push_text(&mut m, format_duration(&since).as_str());
        push_text(&mut m, " ago)");
        (true, m)
    } else {
        push_text(&mut m, "Task is not due yet (last run: ");
        push_text(&mut m, last_run.to_rfc3339().as_str());
        push_text(&mut m, ", ");
        push_text(&mut m, format_duration(&since).as_str());
        push_text(&mut m, " ago, threshold: ");
        push_text(&mut m, format_duration(duration).as_str());
        push_text(&mut m, ")");
        (false, m)
    }
}

/// Whether the task is due now, by the system clock (which reads no earlier
/// than 1970), and the message saying so.
pub fn should_run_task(last_run: &Timestamp, duration: &Duration) -> (r: (bool, String))
    ensures
        exists|now: Timestamp|
            now.spec_secs() >= 0 && r.0 == is_due(now, *last_run, duration.total_nanos()) && r.1@ == due_message(
                now,
                *last_run,
                duration.total_nanos(),
            ),
{
    let now = Timestamp::now();
    should_run_task_at(&now, last_run, duration)
}

/// A task due under some threshold is due under any shorter one, and stays
/// due as time goes on.
pub proof fn lemma_due_is_monotone(now: Timestamp, later: Timestamp, last: Timestamp, threshold: int, shorter: int)
    requires
        is_due(now, last, threshold),
        shorter <= threshold,
        now.instant() <= later.instant(),
    ensures
        is_due(now, last, shorter),
        is_due(later, last, threshold),
{
}

/// A task is always due under a threshold of zero or less when it last ran
/// no later than now.
pub proof fn lemma_due_at_zero(now: Timestamp, last: Timestamp)
    requires
        last.instant() <= now.instant(),
    ensures
        is_due(now, last, 0),
{
}

/// `check`'s test, in full precision: a task is due once at least the
/// threshold has passed since its last run, and not a nanosecond earlier
/// (an hour after the last run, a twelve-hour threshold is not met).
pub proof fn lemma_due_exactly_after_threshold(now: Timestamp, last: Timestamp, threshold_nanos: int)
    ensures
        now.instant() - last.instant() >= threshold_nanos ==> is_due(now, last, threshold_nanos),
        now.instant() - last.instant() < threshold_nanos ==> !is_due(now, last, threshold_nanos),
        now.instant() - last.instant() == 3_600_000_000_000 ==> !is_due(now, last, 43_200_000_000_000int),
{
}

/// The status view's overdue test is `check`'s inequality, in full
/// precision: a finished task with a threshold of `d` seconds is overdue
/// exactly when at least `d` seconds have passed since its last run.
pub proof fn lemma_overdue_exactly_after_threshold(t: TaskRow, now: Timestamp)
    requires
        t.last_run is Some,
        t.duration is Some,
    ensures
        is_overdue(t, now) <==> now.instant() - t.last_run->0.instant() >= t.duration->0 * 1_000_000_000,
{
}

/// The status view and `check` agree: a finished task with a threshold is
/// shown as due exactly when `check` finds it due under that threshold.
pub proof fn lemma_status_agrees_with_check(t: TaskRow, now: Timestamp)
    requires
        t.last_run is Some,
        t.duration is Some,
    ensures
        is_overdue(t, now) == is_due(now, t.last_run->0, t.duration->0 * 1_000_000_000),
        status_word(t, now) == (if is_due(now, t.last_run->0, t.duration->0 * 1_000_000_000) {
            "due"@
        } else {
            "ok"@
        }),
{
}

/// What `check` decided: whether the task is due (the command then exits
/// with 1), the line it prints, and the threshold in seconds to store on the
/// task, if any.
pub struct CheckVerdict {
    pub due: bool,
    pub message: String,
    pub record_threshold: Option<i64>,
}

/// The line `check` prints for a task that does not exist.
pub open spec fn missing_task_line(id: Seq<char>) -> Seq<char> {
    BOLD@ + RED@ + "Task "@ + WHITE@ + id + RED@ + " does not exist yet. It is considered due."@ + RESET@
}

/// The line `check` prints for a task that never finished.
pub open spec fn never_run_line(id: Seq<char>) -> Seq<char> {
    BOLD@ + RED@ + "Task "@ + WHITE@ + id + RED@ + " has no recorded last run. It is considered due."@ + RESET@
}

/// `check`: a task that does not exist or never finished is due; otherwise
/// it is due when at least the threshold has passed since it last ran, and
/// the threshold is stored on it.
pub fn check_task(task: Option<&Task>, id: &str, duration: &Duration, now: &Timestamp) -> (r: CheckVerdict)
    ensures
        r.due == match task {
            None => true,
            Some(t) => match t.last_run {
                None => true,
                Some(lr) => is_due(*now, lr, duration.total_nanos()),
            },
        },
        task is None ==> r.message@ == missing_task_line(id@) && r.record_threshold is None,
        task matches Some(t) ==> match t.last_run {
            None => r.message@ == never_run_line(t.id@) && r.record_threshold is None,
            Some(lr) => r.message@ == BOLD@ + (if r.due { RED@ } else { GREEN@ }) + due_message(
                *now,
                lr,
                duration.total_nanos(),
            ) + RESET@ && r.record_threshold == Some(crate::time::trunc_div(duration.total_nanos(), 1_000_000_000) as i64),
        },
{
    let mut m = String::new();
    match task {
        None => {
            push_text(&mut m, BOLD);
            push_text(&mut m, RED);
            push_text(&mut m, "Task ");
            push_text(&mut m, WHITE);
            push_text(&mut m, id);
            push_text(&mut m, RED);
            push_text(&mut m, " does not exist yet. It is considered due.");
            push_text(&mut m, RESET);
            assert(m@ =~= missing_task_line(id@));
            CheckVerdict { due: true, message: m, record_threshold: None }
        },
        Some(t) => match &t.last_run {
            None => {
                push_text(&mut m, BOLD);
                push_text(&mut m, RED);
                push_text(&mut m, "Task ");
                push_text(&mut m, WHITE);
                push_text(&mut m, t.id.as_str());
                push_text(&mut m, RED);
                push_text(&mut m, " has no recorded last run. It is considered due.");
                push_text(&mut m, RESET);
                assert(m@ =~= never_run_line(t.id@));
                CheckVerdict { due: true, message: m, record_threshold: None }
            },
            Some(lr) => {
                let (due, text) = should_run_task_at(now, lr, duration);
                push_text(&mut m, BOLD);
                push_text(&mut m, if due { RED } else { GREEN });
                push_text(&mut m, text.as_str());
                push_text(&mut m, RESET);
                assert(m@ =~= BOLD@ + (if due { RED@ } else { GREEN@ }) + text@ + RESET@);
                CheckVerdict { due, message: m, record_threshold: Some(duration.num_seconds()) }
            },
        },
    }
}

/// "entry" for one, "entries" otherwise.
pub open spec fn entries_word(n: nat) -> Seq<char> {
    if n == 1 { "entry"@ } else { "entries"@ }
}

/// The question `archive` asks before deleting.
pub open spec fn archive_prompt_text(count: nat) -> Seq<char> {
    "Permanently delete "@ + decimal(count) + " log "@ + entries_word(count) + "? [y/N]: "@
}

pub fn archive_prompt(count: usize) -> (r: String)
    ensures
        r@ == archive_prompt_text(count as nat),
{
    let mut m = String::new();
    push_text(&mut m, "Permanently delete ");
    push_nat(&mut m, count as u64);
    push_text(&mut m, " log ");
    push_text(&mut m, if count == 1 { "entry" } else { "entries" });
    push_text(&mut m, "? [y/N]: ");
    assert(m@ =~= archive_prompt_text(count as nat));
    m
}

/// The line after `archive` deleted entries.
pub open spec fn archive_done_text(deleted: nat) -> Seq<char> {
    BOLD@ + GREEN@ + "Deleted "@ + decimal(deleted) + " log "@ + entries_word(deleted) + "."@ + RESET@
}

pub fn archive_done_message(deleted: usize) -> (r: String)
    ensures
        r@ == archive_done_text(deleted as nat),
{
    let mut m = String::new();
    push_text(&mut m, BOLD);
    push_text(&mut m, GREEN);
    push_text(&mut m, "Deleted ");
    push_nat(&mut m, deleted as u64);
    push_text(&mut m, " log ");
    push_text(&mut m, if deleted == 1 { "entry" } else { "entries" });
    push_text(&mut m, ".");
    push_text(&mut m, RESET);
    assert(m@ =~= archive_done_text(deleted as nat));
    m
}

/// An answer that confirms: `y` or `yes` in any case, around white space.
pub open spec fn confirms(answer: Seq<char>) -> bool {
    eq_ignore_ascii_case_spec(trim_spec(answer), "y"@) || eq_ignore_ascii_case_spec(trim_spec(answer), "yes"@)
}

/// Whether the answer to the archive question confirms it.
pub fn is_confirmation(answer: &str) -> (r: bool)
    ensures
        r == confirms(answer@),
{
    let t = trim(answer);
    eq_ignore_ascii_case(t, "y") || eq_ignore_ascii_case(t, "yes")
}

/// The line `delete` prints.
pub open spec fn delete_text(id: Seq<char>, task_deleted: nat, logs_deleted: nat) -> Seq<char> {
    if task_deleted > 0 {
        BOLD@ + GREEN@ + "Task "@ + WHITE@ + id + GREEN@ + " deleted. "@ + decimal(logs_deleted)
            + " log entries removed."@ + RESET@
    } else {
        BOLD@ + RED@ + "No task found with ID: "@ + WHITE@ + id + RED@ + ". "@ + decimal(logs_deleted)
            + " log entries removed."@ + RESET@
    }
}

pub fn delete_message(id: &str, task_deleted: usize, logs_deleted: usize) -> (r: String)
    ensures
        r@ == delete_text(id@, task_deleted as nat, logs_deleted as nat),
{
    let mut m = String::new();
    push_text(&mut m, BOLD);
    if task_deleted > 0 {
        push_text(&mut m, GREEN);
        push_text(&mut m, "Task ");
        push_text(&mut m, WHITE);
        push_text(&mut m, id);
        push_text(&mut m, GREEN);
        push_text(&mut m, " deleted. ");
    } else {
        push_text(&mut m, RED);
        push_text(&mut m, "No task found with ID: ");
        push_text(&mut m, WHITE);
        push_text(&mut m, id);
        push_text(&mut m, RED);
        push_text(&mut m, ". ");
    }
    push_nat(&mut m, logs_deleted as u64);
    push_text(&mut m, " log entries removed.");
    push_text(&mut m, RESET);
    assert(m@ =~= delete_text(id@, task_deleted as nat, logs_deleted as nat));
    m
}

/// The line `done` prints: when the task finished (as shown), and how long
/// it ran when it had been started.
pub open spec fn done_text(id: Seq<char>, finished_at: Seq<char>, elapsed: Option<Seq<char>>) -> Seq<char> {
    BOLD@ + GREEN@ + "Task "@ + WHITE@ + id + GREEN@ + " finished at "@ + WHITE@ + finished_at + match elapsed {
        Some(e) => GREEN@ + ". Elapsed time: "@ + WHITE@ + e + GREEN@,
        None => Seq::empty(),
    } + RESET@
}

pub fn done_message(id: &str, finished_at: &str, elapsed: &Option<String>) -> (r: String)
    ensures
        r@ == done_text(id@, finished_at@, match elapsed {
            Some(e) => Some(e@),
            None => None,
        }),
{
    let mut m = String::new();
    push_text(&mut m, BOLD);
    push_text(&mut m, GREEN);
    push_text(&mut m, "Task ");
    push_text(&mut m, WHITE);
    push_text(&mut m, id);
    push_text(&mut m, GREEN);
    push_text(&mut m, " finished at ");
    push_text(&mut m, WHITE);
    push_text(&mut m, finished_at);
    let ghost before = m@;
    match elapsed {
        Some(e) => {
            push_text(&mut m, GREEN);
            push_text(&mut m, ". Elapsed time: ");
            push_text(&mut m, WHITE);
            push_text(&mut m, e.as_str());
            push_text(&mut m, GREEN);
            assert(m@ =~= before + (GREEN@ + ". Elapsed time: "@ + WHITE@ + e@ + GREEN@));
        },
        None => {
            assert(m@ =~= before + Seq::<char>::empty());
        },
    }
    push_text(&mut m, RESET);
    assert(m@ =~= done_text(id@, finished_at@, match elapsed {
        Some(e) => Some(e@),
        None => None,
    }));
    m
}

/// The line `start` prints.
pub open spec fn start_text(id: Seq<char>, started_at: Seq<char>) -> Seq<char> {
    BOLD@ + GREEN@ + "Task "@ + WHITE@ + id + GREEN@ + " started at "@ + WHITE@ + started_at + RESET@
}

pub fn start_message(id: &str, started_at: &str) -> (r: String)
    ensures
        r@ == start_text(id@, started_at@),
{
    let mut m = String::new();
    push_text(&mut m, BOLD);
    push_text(&mut m, GREEN);
    push_text(&mut m, "Task ");
    push_text(&mut m, WHITE);
    push_text(&mut m, id);
    push_text(&mut m, GREEN);
    push_text(&mut m, " started at ");
    push_text(&mut m, WHITE);
    push_text(&mut m, started_at);
    push_text(&mut m, RESET);
    assert(m@ =~= start_text(id@, started_at@));
    m
}

/// The line `clear` prints: the task was cleared, or does not exist.
pub open spec fn clear_text(id: Seq<char>, existed: bool) -> Seq<char> {
    if existed {
        BOLD@ + GREEN@ + "Task "@ + WHITE@ + id + GREEN@ + " cleared (start and done values reset)."@ + RESET@
    } else {
        BOLD@ + RED@ + "Task "@ + WHITE@ + id + RED@ + " does not exist."@ + RESET@
    }
}

pub fn clear_message(id: &str, existed: bool) -> (r: String)
    ensures
        r@ == clear_text(id@, existed),
{
    let mut m = String::new();
    push_text(&mut m, BOLD);
    push_text(&mut m, if existed { GREEN } else { RED });
    push_text(&mut m, "Task ");
    push_text(&mut m, WHITE);
    push_text(&mut m, id);
    if existed {
        push_text(&mut m, GREEN);
        push_text(&mut m, " cleared (start and done values reset).");
    } else {
        push_text(&mut m, RED);
        push_text(&mut m, " does not exist.");
    }
    push_text(&mut m, RESET);
    assert(m@ =~= clear_text(id@, existed));
    m
}

/// The heading `archive` prints before it asks: which entries it deletes.
pub open spec fn archive_heading_text(id: Option<Seq<char>>) -> Seq<char> {
    BOLD@ + GREEN@ + "Archive logs"@ + match id {
        Some(t) => " for task "@ + WHITE@ + t + GREEN@,
        None => " across all tasks"@,
    } + RESET@
}

pub fn archive_heading(id: Option<&str>) -> (r: String)
    ensures
        r@ == archive_heading_text(match id {
            Some(t) => Some(t@),
            None => None,
        }),
{
    let mut m = String::new();
    push_text(&mut m, BOLD);
    push_text(&mut m, GREEN);
    push_text(&mut m, "Archive logs");
    let ghost before = m@;
    match id {
        Some(t) => {
            push_text(&mut m, " for task ");
            push_text(&mut m, WHITE);
            push_text(&mut m, t);
            push_text(&mut m, GREEN);
            assert(m@ =~= before + (" for task "@ + WHITE@ + t@ + GREEN@));
        },
        None => {
            push_text(&mut m, " across all tasks");
        },
    }
    push_text(&mut m, RESET);
    assert(m@ =~= archive_heading_text(match id {
        Some(t) => Some(t@),
        None => None,
    }));
    m
}

/// The line `archive` prints when nothing is old enough to delete.
pub open spec fn nothing_to_archive_text(window: Seq<char>) -> Seq<char> {
    BOLD@ + GREEN@ + "No log entries found older than "@ + window + "."@ + RESET@
}

pub fn nothing_to_archive_message(window: &str) -> (r: String)
    ensures
        r@ == nothing_to_archive_text(window@),
{
    let mut m = String::new();
    push_text(&mut m, BOLD);
    push_text(&mut m, GREEN);
    push_text(&mut m, "No log entries found older than ");
    push_text(&mut m, window);
    push_text(&mut m, ".");
    push_text(&mut m, RESET);
    assert(m@ =~= nothing_to_archive_text(window@));
    m
}

} // verus!
