//! What the status outputs show for each task: the JSON snapshot, the plain
//! status table and the cells of the interactive tables.
use crate::calendar::is_local_civil_text;
use crate::format::{ago_text, duration_text, format_ago, format_datetime, format_duration};
use crate::text::{decimal, push_char, push_nat, push_text};
use crate::time::{rfc3339_text, trunc_div, Duration, Timestamp};
use crate::tui::{elapsed_millis, is_running, row_ok, status_word, task_status_str, LogEntry, SortCol, TaskRow};
use vstd::prelude::*;

verus! {

/// One task of `status --json`.
pub struct TaskStatusJson {
    pub id: String,
    pub last_run: Option<String>,
    pub time_since_last_run: Option<i64>,
    pub time_since_last_run_formatted: Option<String>,
    pub start_time: Option<String>,
    pub elapsed_time: Option<i64>,
    pub elapsed_time_formatted: Option<String>,
    pub duration: Option<i64>,
    pub duration_formatted: Option<String>,
    pub status: &'static str,
}

/// Milliseconds the task took, or has been running; none when it has not
/// started, or started after it last finished.
pub open spec fn elapsed_opt(t: TaskRow, now: Timestamp) -> Option<int> {
    match (t.start_time, t.last_run) {
        (Some(st), Some(lr)) => if st.instant() < lr.instant() {
            Some(trunc_div(lr.instant() - st.instant(), 1_000_000))
        } else {
            None
        },
        (Some(st), None) => Some(trunc_div(now.instant() - st.instant(), 1_000_000)),
        _ => None,
    }
}

pub open spec fn text_opt(s: Option<String>) -> Option<Seq<char>> {
    match s {
        Some(x) => Some(x@),
        None => None,
    }
}

pub open spec fn num_opt(n: Option<i64>) -> Option<int> {
    match n {
        Some(x) => Some(x as int),
        None => None,
    }
}

fn rfc_opt(t: &Option<Timestamp>) -> (r: Option<String>)
    ensures
        text_opt(r) == match t {
            Some(x) => Some(rfc3339_text(x.spec_secs(), x.spec_nanos())),
            None => None,
        },
{
    match t {
        Some(x) => Some(x.to_rfc3339()),
        None => None,
    }
}

/// The status word of `status --json`: `running`, then for a finished task
/// `due` when strictly more than its threshold has passed since the last
/// run and `ok` otherwise, and `unknown` for a task never run.
pub open spec fn json_status_word(t: TaskRow, now: Timestamp) -> Seq<char> {
    if is_running(t) {
        "running"@
    } else if t.last_run is Some {
        if t.duration is Some && now.instant() - t.last_run->0.instant() > t.duration->0 * 1_000_000_000 {
            "due"@
        } else {
            "ok"@
        }
    } else {
        "unknown"@
    }
}

fn json_status_str(task: &TaskRow, now: &Timestamp) -> (r: &'static str)
    requires
        row_ok(*task),
    ensures
        r@ == json_status_word(*task, *now),
{
    if task.start_time.is_some() && task.last_run.is_none() {
        "running"
    } else {
        match (&task.last_run, task.duration) {
            (Some(lr), Some(d)) => if now.signed_duration_since(lr).exceeds(&Duration::seconds(d)) {
                "due"
            } else {
                "ok"
            },
            (Some(_), None) => "ok",
            _ => "unknown",
        }
    }
}

/// The JSON fields of one task at `now`.
pub fn json_task_status(task: &TaskRow, now: &Timestamp) -> (r: TaskStatusJson)
    requires
        row_ok(*task),
    ensures
        r.id@ == task.id@,
        text_opt(r.last_run) == match task.last_run {
            Some(x) => Some(rfc3339_text(x.spec_secs(), x.spec_nanos())),
            None => None,
        },
        num_opt(r.time_since_last_run) == match task.last_run {
            Some(x) => Some(trunc_div(now.instant() - x.instant(), 1_000_000)),
            None => None,
        },
        text_opt(r.time_since_last_run_formatted) == match task.last_run {
            Some(x) => Some(duration_text(now.instant() - x.instant())),
            None => None,
        },
        text_opt(r.start_time) == match task.start_time {
            Some(x) => Some(rfc3339_text(x.spec_secs(), x.spec_nanos())),
            None => None,
        },
        num_opt(r.elapsed_time) == elapsed_opt(*task, *now),
        text_opt(r.elapsed_time_formatted) == match elapsed_opt(*task, *now) {
            Some(ms) => Some(duration_text(ms * 1_000_000)),
            None => None,
        },
        r.duration == task.duration,
        text_opt(r.duration_formatted) == match task.duration {
            Some(d) => Some(duration_text(d * 1_000_000_000)),
            None => None,
        },
        r.status@ == json_status_word(*task, *now),
{
    let (since, since_text) = match &task.last_run {
        Some(lr) => {
            let d = now.signed_duration_since(lr);
            (Some(d.num_milliseconds()), Some(format_duration(&d)))
        },
        None => (None, None),
    };
    let elapsed: Option<i64> = match (&task.start_time, &task.last_run) {
        (Some(st), Some(lr)) => if st.is_before(lr) {
            Some(lr.signed_duration_since(st).num_milliseconds())
        } else {
            None
        },
        (Some(st), None) => Some(now.signed_duration_since(st).num_milliseconds()),
        _ => None,
    };
    let elapsed_text = match elapsed {
        Some(ms) => Some(format_duration(&Duration::milliseconds(ms))),
        None => None,
    };
    let duration_text = match task.duration {
        Some(d) => Some(format_duration(&Duration::seconds(d))),
        None => None,
    };
    TaskStatusJson {
        id: task.id.clone(),
        last_run: rfc_opt(&task.last_run),
        time_since_last_run: since,
        time_since_last_run_formatted: since_text,
        start_time: rfc_opt(&task.start_time),
        elapsed_time: elapsed,
        elapsed_time_formatted: elapsed_text,
        duration: task.duration,
        duration_formatted: duration_text,
        status: json_status_str(task, now),
    }
}

/// `-` for a missing value.
pub open spec fn or_dash(s: Option<Seq<char>>) -> Seq<char> {
    match s {
        Some(x) => x,
        None => "-"@,
    }
}

fn dash() -> (r: String)
    ensures
        r@ == "-"@,
{
    String::from_str("-")
}

/// The cells of a task in the interactive table: id, status, threshold,
/// run time (finished or ongoing) and time since the last run.
pub fn task_table_cells(task: &TaskRow, now: &Timestamp) -> (r: (String, &'static str, String, String, String))
    requires
        row_ok(*task),
    ensures
        r.0@ == task.id@,
        r.1@ == status_word(*task, *now),
        r.2@ == or_dash(match task.duration {
            Some(d) => Some(duration_text(d * 1_000_000_000)),
            None => None,
        }),
        r.3@ == or_dash(match (task.start_time, task.last_run) {
            (Some(st), Some(lr)) => if st.instant() < lr.instant() {
                Some(duration_text(lr.instant() - st.instant()))
            } else {
                None
            },
            (Some(st), None) => Some(duration_text(now.instant() - st.instant())),
            _ => None,
        }),
        r.4@ == or_dash(match task.last_run {
            Some(lr) => Some(duration_text(now.instant() - lr.instant())),
            None => None,
        }),
{
    let duration_str = match task.duration {
        Some(d) => format_duration(&Duration::seconds(d)),
        None => dash(),
    };
    let elapsed_str = match (&task.start_time, &task.last_run) {
        (Some(st), Some(lr)) => if st.is_before(lr) {
            format_duration(&lr.signed_duration_since(st))
        } else {
            dash()
        },
        (Some(st), None) => format_duration(&now.signed_duration_since(st)),
        _ => dash(),
    };
    let last_run_str = match &task.last_run {
        Some(lr) => format_duration(&now.signed_duration_since(lr)),
        None => dash(),
    };
    (task.id.clone(), task_status_str(task, now), duration_str, elapsed_str, last_run_str)
}

/// The text colour of a row in the plain status table: running yellow
/// (`Fy`), last run more than a day ago red (`Fr`), otherwise white (`FW`),
/// never run blue (`Fb`).
pub open spec fn plain_row_style(t: TaskRow, now: Timestamp) -> Seq<char> {
    if is_running(t) {
        "Fy"@
    } else if t.last_run is Some {
        if now.instant() - t.last_run->0.instant() > 86400 * 1_000_000_000 { "Fr"@ } else { "FW"@ }
    } else {
        "Fb"@
    }
}

/// The cells of a task in the plain status table, less the two local-time
/// columns (last run and start), which the caller writes: the style, the id,
/// the time since the last run, the run time and the threshold.
pub fn plain_status_cells(task: &TaskRow, now: &Timestamp) -> (r: (&'static str, String, String, String, String))
    requires
        row_ok(*task),
    ensures
        r.0@ == plain_row_style(*task, *now),
        r.1@ == task.id@,
        r.2@ == or_dash(match task.last_run {
            Some(lr) => Some(duration_text(now.instant() - lr.instant())),
            None => None,
        }),
        r.3@ == or_dash(match (task.start_time, task.last_run) {
            (Some(st), Some(lr)) => if st.instant() < lr.instant() {
                Some(duration_text(lr.instant() - st.instant()))
            } else {
                None
            },
            (Some(st), None) => Some(duration_text(now.instant() - st.instant())),
            _ => None,
        }),
        r.4@ == or_dash(match task.duration {
            Some(d) => Some(duration_text(d * 1_000_000_000)),
            None => None,
        }),
{
    let style: &'static str = if task.start_time.is_some() && task.last_run.is_none() {
        "Fy"
    } else {
        match &task.last_run {
            Some(lr) => if now.signed_duration_since(lr).exceeds(&Duration::days(1)) {
                "Fr"
            } else {
                "FW"
            },
            None => "Fb",
        }
    };
    let cells = task_table_cells(task, now);
    (style, cells.0, cells.4, cells.3, cells.2)
}

/// The two local-time columns of the plain status table: the last run
/// ("never" without one) and the start ("-" without one), each the instant
/// in local time.
pub fn local_time_cells(task: &TaskRow) -> (r: (String, String))
    ensures
        match task.last_run {
            Some(x) => is_local_civil_text(r.0@, x.spec_secs() as int),
            None => r.0@ == "never"@,
        },
        match task.start_time {
            Some(x) => is_local_civil_text(r.1@, x.spec_secs() as int),
            None => r.1@ == "-"@,
        },
{
    let last = match &task.last_run {
        Some(x) => format_datetime(x),
        None => String::from_str("never"),
    };
    let start = match &task.start_time {
        Some(x) => format_datetime(x),
        None => dash(),
    };
    (last, start)
}

/// A column heading of the interactive table: the label, with `▲` or `▼`
/// after it on the column the table is ordered by.
pub open spec fn header_text(label: Seq<char>, active: bool, asc: bool) -> Seq<char> {
    if active {
        label + " "@ + (if asc { "▲"@ } else { "▼"@ })
    } else {
        label
    }
}

pub fn header_label(label: &str, col: SortCol, active: SortCol, asc: bool) -> (r: String)
    ensures
        r@ == header_text(label@, col == active, asc),
{
    let mut s = String::from_str(label);
    if col == active {
        push_text(&mut s, " ");
        push_text(&mut s, if asc { "▲" } else { "▼" });
    }
    s
}

/// The border filler on the right of a panel title: three, two or one `─`
/// for widths under 60, under 100, or more.
pub open spec fn title_pad_text(width: u16) -> Seq<char> {
    if width < 60 {
        seq!['─', '─', '─']
    } else if width < 100 {
        seq!['─', '─']
    } else {
        seq!['─']
    }
}

pub fn title_pad(width: u16) -> (r: String)
    ensures
        r@ == title_pad_text(width),
{
    let mut s = String::new();
    let n: u16 = if width < 60 { 3 } else if width < 100 { 2 } else { 1 };
    let mut i: u16 = 0;
    while i < n
        invariant
            i <= n,
            n == (if width < 60 { 3u16 } else if width < 100 { 2u16 } else { 1u16 }),
            s@ == Seq::new(i as nat, |k: int| '─'),
        decreases n - i,
    {
        push_char(&mut s, '─');
        i = i + 1;
    }
    assert(s@ =~= title_pad_text(width));
    s
}

/// The right-hand title of the history panel: ` N run(s) ` and the filler.
pub open spec fn history_title_text(total: nat, width: u16) -> Seq<char> {
    " "@ + decimal(total) + " run"@ + (if total == 1 { Seq::empty() } else { "s"@ }) + " "@ + title_pad_text(width)
}

pub fn history_title(total: usize, width: u16) -> (r: String)
    ensures
        r@ == history_title_text(total as nat, width),
{
    let mut s = String::new();
    push_text(&mut s, " ");
    push_nat(&mut s, total as u64);
    push_text(&mut s, " run");
    if total != 1 {
        push_text(&mut s, "s");
    }
    push_text(&mut s, " ");
    let pad = title_pad(width);
    push_text(&mut s, pad.as_str());
    assert(s@ =~= history_title_text(total as nat, width));
    s
}

/// A number right-aligned in three columns (`{:>3}`).
pub open spec fn right3(n: nat) -> Seq<char> {
    let d = decimal(n);
    if d.len() >= 3 {
        d
    } else {
        Seq::new((3 - d.len()) as nat, |k: int| ' ') + d
    }
}

/// The cells of a run in the history table, less its local end time: its
/// position (from 1, right-aligned), how long it took, and how long ago it
/// ended.
pub fn history_row_cells(index: usize, entry: &LogEntry, now: &Timestamp) -> (r: (String, String, String))
    requires
        index < usize::MAX,
        entry.2 > i64::MIN,
    ensures
        r.0@ == right3((index + 1) as nat),
        r.1@ == duration_text(entry.2 * 1_000_000),
        r.2@ == ago_text(now.instant() - entry.1.instant()),
{
    let digits = crate::text::nat_string((index + 1) as u64);
    let mut pos = String::new();
    let len = digits.unicode_len();
    let mut k: usize = len;
    while k < 3
        invariant
            len == digits@.len(),
            len <= k,
            k <= 3 || k == len,
            pos@ == Seq::new((k - len) as nat, |j: int| ' '),
        decreases 3 - k,
    {
        push_char(&mut pos, ' ');
        k = k + 1;
    }
    push_text(&mut pos, digits.as_str());
    assert(pos@ =~= right3((index + 1) as nat));
    let dur = format_duration(&Duration::milliseconds(entry.2));
    let ago = format_ago(&now.signed_duration_since(&entry.1));
    (pos, dur, ago)
}

} // verus!
