//! The interactive status view: its rows, ordering, selection, history panel
//! and the key handling that drives it. Drawing happens elsewhere; this module
//! decides what is shown and what happens on each key.
use crate::text::text_le;
use crate::time::{Duration, Timestamp, MAX_SPAN_SECS};
use vstd::prelude::*;

verus! {

/// The column that the task table is ordered by.
#[derive(Clone, Copy, PartialEq, Eq, Debug, Structural)]
pub enum SortCol {
    Task,
    Status,
    Duration,
    Elapsed,
    LastRun,
}

/// One task as the status view shows it.
pub struct TaskRow {
    pub id: String,
    pub last_run: Option<Timestamp>,
    pub start_time: Option<Timestamp>,
    /// The threshold last given to `check`, in seconds.
    pub duration: Option<i64>,
}

impl TaskRow {
    /// A row read back from storage; a time that does not read as RFC 3339
    /// counts as missing.
    pub fn from_stored(id: String, last_run: Option<String>, start_time: Option<String>, duration: Option<i64>) -> (r: TaskRow)
        ensures
            r.id == id,
            crate::time::parts_of(r.last_run) == match last_run {
                Some(t) => crate::time::rfc3339_instant(t@),
                None => None,
            },
            crate::time::parts_of(r.start_time) == match start_time {
                Some(t) => crate::time::rfc3339_instant(t@),
                None => None,
            },
            r.duration == duration,
    {
        TaskRow {
            id,
            last_run: crate::format::parse_rfc3339_opt(last_run),
            start_time: crate::format::parse_rfc3339_opt(start_time),
            duration,
        }
    }
}

/// Whether every threshold in the rows can be turned into a span.
pub fn rows_within_bounds(rows: &Vec<TaskRow>) -> (r: bool)
    ensures
        r == forall|i: int| 0 <= i < rows@.len() ==> row_ok(#[trigger] rows@[i]),
{
    let mut i: usize = 0;
    while i < rows.len()
        invariant
            i <= rows@.len(),
            forall|k: int| 0 <= k < i ==> row_ok(#[trigger] rows@[k]),
        decreases rows@.len() - i,
    {
        match rows[i].duration {
            Some(d) => if d < -MAX_SPAN_SECS || d > MAX_SPAN_SECS {
                assert(!row_ok(rows@[i as int]));
                return false;
            },
            None => {},
        }
        i = i + 1;
    }
    true
}

/// A task row whose threshold can be turned into a span (chrono panics otherwise).
pub open spec fn row_ok(t: TaskRow) -> bool {
    t.duration matches Some(d) ==> -MAX_SPAN_SECS <= d <= MAX_SPAN_SECS
}

/// The colours the status view paints with.
#[derive(Clone, Copy, PartialEq, Eq, Debug, Structural)]
pub enum TuiColor {
    LightGreen,
    Green,
    Yellow,
    Gray,
    Red,
    White,
    Blue,
}

/// A task is running when it has started and not finished since.
pub open spec fn is_running(t: TaskRow) -> bool {
    t.start_time is Some && t.last_run is None
}

/// A finished task with a threshold is overdue when at least the threshold
/// has passed since its last run (the test `check` applies).
pub open spec fn is_overdue(t: TaskRow, now: Timestamp) -> bool {
    &&& t.last_run is Some
    &&& t.duration is Some
    &&& now.instant() - t.last_run->0.instant() >= t.duration->0 * 1_000_000_000
}

/// Rank for ordering by status: ok 0, running 1, due 2, never run 3.
pub open spec fn status_rank(t: TaskRow, now: Timestamp) -> int {
    if is_running(t) {
        1
    } else if t.last_run is Some {
        if is_overdue(t, now) { 2 } else { 0 }
    } else {
        3
    }
}

fn overdue(task: &TaskRow, now: &Timestamp) -> (r: bool)
    requires
        row_ok(*task),
    ensures
        r == is_overdue(*task, *now),
{
    match (&task.last_run, task.duration) {
        (Some(lr), Some(d)) => {
            let since = now.signed_duration_since(lr);
            since.at_least(&Duration::seconds(d))
        },
        _ => false,
    }
}

/// The status rank used when ordering by status.
pub fn task_status_order(task: &TaskRow, now: &Timestamp) -> (r: u8)
    requires
        row_ok(*task),
    ensures
        r == status_rank(*task, *now),
{
    if task.start_time.is_some() && task.last_run.is_none() {
        1
    } else if task.last_run.is_some() {
        if overdue(task, now) { 2 } else { 0 }
    } else {
        3
    }
}

/// Milliseconds a task took (start to finish), or has been running, else 0.
pub open spec fn elapsed_ms(t: TaskRow, now: Timestamp) -> int {
    match (t.start_time, t.last_run) {
        (Some(st), Some(lr)) => if st.instant() < lr.instant() {
            crate::time::trunc_div(lr.instant() - st.instant(), 1_000_000)
        } else {
            0
        },
        (Some(st), None) => crate::time::trunc_div(now.instant() - st.instant(), 1_000_000),
        _ => 0,
    }
}

/// How long the task took or has been running, in milliseconds.
pub fn elapsed_millis(task: &TaskRow, now: &Timestamp) -> (r: i64)
    ensures
        r == elapsed_ms(*task, *now),
{
    match (&task.start_time, &task.last_run) {
        (Some(st), Some(lr)) => if st.is_before(lr) {
            lr.signed_duration_since(st).num_milliseconds()
        } else {
            0
        },
        (Some(st), None) => now.signed_duration_since(st).num_milliseconds(),
        _ => 0,
    }
}

/// Colour of a history entry by its age: under an hour light green, under a
/// day green, under a week yellow, older gray.
pub open spec fn age_color(ago_nanos: int) -> TuiColor {
    let secs = crate::time::trunc_div(ago_nanos, 1_000_000_000);
    if secs < 3600 {
        TuiColor::LightGreen
    } else if secs < 86400 {
        TuiColor::Green
    } else if secs < 604800 {
        TuiColor::Yellow
    } else {
        TuiColor::Gray
    }
}

pub fn log_entry_color(ago: &Duration) -> (r: TuiColor)
    ensures
        r == age_color(ago.total_nanos()),
{
    let secs: i64 = ago.num_seconds();
    if secs < 3600 {
        TuiColor::LightGreen
    } else if secs < 86400 {
        TuiColor::Green
    } else if secs < 86400 * 7 {
        TuiColor::Yellow
    } else {
        TuiColor::Gray
    }
}

/// Colour of a task row: running yellow, overdue red, within its threshold
/// green, finished without a threshold white, never run blue.
pub open spec fn row_color(t: TaskRow, now: Timestamp) -> TuiColor {
    if is_running(t) {
        TuiColor::Yellow
    } else if t.last_run is Some {
        if t.duration is Some {
            if is_overdue(t, now) { TuiColor::Red } else { TuiColor::Green }
        } else {
            TuiColor::White
        }
    } else {
        TuiColor::Blue
    }
}

pub fn task_color(task: &TaskRow, now: &Timestamp) -> (r: TuiColor)
    requires
        row_ok(*task),
    ensures
        r == row_color(*task, *now),
{
    if task.start_time.is_some() && task.last_run.is_none() {
        TuiColor::Yellow
    } else if task.last_run.is_some() {
        if task.duration.is_some() {
            if overdue(task, now) { TuiColor::Red } else { TuiColor::Green }
        } else {
            TuiColor::White
        }
    } else {
        TuiColor::Blue
    }
}

/// The status word of a task: `running`, `due`, `ok` or `unknown`.
pub open spec fn status_word(t: TaskRow, now: Timestamp) -> Seq<char> {
    if is_running(t) {
        "running"@
    } else if t.last_run is Some {
        if is_overdue(t, now) { "due"@ } else { "ok"@ }
    } else {
        "unknown"@
    }
}

pub fn task_status_str(task: &TaskRow, now: &Timestamp) -> (r: &'static str)
    requires
        row_ok(*task),
    ensures
        r@ == status_word(*task, *now),
{
    if task.start_time.is_some() && task.last_run.is_none() {
        "running"
    } else if task.last_run.is_some() {
        if overdue(task, now) { "due" } else { "ok" }
    } else {
        "unknown"
    }
}

// ---------------------------------------------------------------- selection

/// Selection after moving up one row: from the top (or nothing) it wraps to
/// the bottom. An empty table keeps its selection.
pub open spec fn nav_up_sel(sel: Option<usize>, len: nat) -> Option<usize> {
    if len == 0 {
        sel
    } else {
        match sel {
            Some(i) => if i == 0 { Some((len - 1) as usize) } else { Some((i - 1) as usize) },
            None => Some((len - 1) as usize),
        }
    }
}

/// Selection after moving down one row: past the bottom (or from nothing) it
/// wraps to the top.
pub open spec fn nav_down_sel(sel: Option<usize>, len: nat) -> Option<usize> {
    if len == 0 {
        sel
    } else {
        match sel {
            Some(i) => if i + 1 < len { Some((i + 1) as usize) } else { Some(0) },
            None => Some(0),
        }
    }
}

pub open spec fn page_step(page_size: usize) -> int {
    if page_size == 0 { 1 } else { page_size as int }
}

/// Selection after a page up: a page higher, stopping at the top.
pub open spec fn page_up_sel(sel: Option<usize>, len: nat, page_size: usize) -> Option<usize> {
    if len == 0 {
        sel
    } else {
        let cur = match sel { Some(i) => i as int, None => 0 };
        let n = cur - page_step(page_size);
        Some((if n < 0 { 0 } else { n }) as usize)
    }
}

/// Selection after a page down: a page lower, stopping at the bottom.
pub open spec fn page_down_sel(sel: Option<usize>, len: nat, page_size: usize) -> Option<usize> {
    if len == 0 {
        sel
    } else {
        let cur = match sel { Some(i) => i as int, None => 0 };
        let n = cur + page_step(page_size);
        Some((if n > len - 1 { len - 1 } else { n }) as usize)
    }
}

/// A selection points at a row exactly when there are rows.
pub open spec fn sel_ok(sel: Option<usize>, len: nat) -> bool {
    match sel {
        Some(i) => i < len,
        None => len == 0,
    }
}

fn nav_up_index(sel: Option<usize>, len: usize) -> (r: Option<usize>)
    ensures
        r == nav_up_sel(sel, len as nat),
{
    if len == 0 {
        return sel;
    }
    match sel {
        Some(0) | None => Some(len - 1),
        Some(i) => Some(i - 1),
    }
}

fn nav_down_index(sel: Option<usize>, len: usize) -> (r: Option<usize>)
    ensures
        r == nav_down_sel(sel, len as nat),
{
    if len == 0 {
        return sel;
    }
    match sel {
        Some(i) if i < len - 1 => Some(i + 1),
        _ => Some(0),
    }
}

fn page_up_index(sel: Option<usize>, len: usize, page_size: usize) -> (r: Option<usize>)
    ensures
        r == page_up_sel(sel, len as nat, page_size),
{
    if len == 0 {
        return sel;
    }
    let step: usize = if page_size == 0 { 1 } else { page_size };
    let cur: usize = match sel { Some(i) => i, None => 0 };
    Some(if cur >= step { cur - step } else { 0 })
}

fn page_down_index(sel: Option<usize>, len: usize, page_size: usize) -> (r: Option<usize>)
    requires
        sel_ok(sel, len as nat),
    ensures
        r == page_down_sel(sel, len as nat, page_size),
{
    if len == 0 {
        return sel;
    }
    let step: usize = if page_size == 0 { 1 } else { page_size };
    let cur: usize = match sel { Some(i) => i, None => 0 };
    Some(if step > len - 1 - cur { len - 1 } else { cur + step })
}

/// Moving down undoes moving up, and moving up undoes moving down, whenever
/// the selection points at a row.
pub proof fn lemma_nav_round_trip(sel: Option<usize>, len: nat)
    requires
        sel_ok(sel, len),
        sel is Some,
        len <= usize::MAX,
    ensures
        nav_down_sel(nav_up_sel(sel, len), len) == sel,
        nav_up_sel(nav_down_sel(sel, len), len) == sel,
{
}

/// Every move keeps a valid selection valid.
pub proof fn lemma_moves_keep_selection(sel: Option<usize>, len: nat, page_size: usize)
    requires
        sel_ok(sel, len),
        len <= usize::MAX,
    ensures
        sel_ok(nav_up_sel(sel, len), len),
        sel_ok(nav_down_sel(sel, len), len),
        sel_ok(page_up_sel(sel, len, page_size), len),
        sel_ok(page_down_sel(sel, len, page_size), len),
{
}

// ------------------------------------------------------------------ history

/// One completed run in the history panel: the stored end-time text (the
/// key used for deletion), the parsed end time and the run's length in ms.
pub type LogEntry = (String, Timestamp, i64);

/// The per-task history panel.
pub struct HistoryView {
    pub task_id: String,
    /// Runs, newest first.
    pub logs: Vec<LogEntry>,
    pub selected: Option<usize>,
    /// End-time text of the run that is waiting for delete confirmation.
    pub confirm_delete: Option<String>,
    pub page_size: usize,
}

/// Sum of the run lengths of the first `n` entries.
pub open spec fn ms_sum(logs: Seq<LogEntry>, n: int) -> int
    decreases n,
{
    if n <= 0 {
        0
    } else {
        ms_sum(logs, n - 1) + logs[n - 1].2
    }
}

/// The summary the history panel shows, or `None` without runs: the average
/// run length (rounded toward zero), the shortest, the longest and, with two
/// runs or more, the average gap between runs (newest to oldest, divided by
/// the number of gaps, rounded toward zero).
pub open spec fn history_stats(logs: Seq<LogEntry>) -> Option<(int, int, int, Option<int>)> {
    if logs.len() == 0 {
        None
    } else {
        let n = logs.len() as int;
        let avg = crate::time::trunc_div(ms_sum(logs, n), n);
        let mn = choose|m: int| is_min_ms(logs, m);
        let mx = choose|m: int| is_max_ms(logs, m);
        let freq = if n >= 2 {
            Some(crate::time::trunc_div(
                crate::time::trunc_div(logs[0].1.instant() - logs[n - 1].1.instant(), 1_000_000),
                n - 1,
            ))
        } else {
            None
        };
        Some((avg, mn, mx, freq))
    }
}

pub open spec fn is_min_ms(logs: Seq<LogEntry>, m: int) -> bool {
    &&& exists|i: int| 0 <= i < logs.len() && logs[i].2 == m
    &&& forall|i: int| 0 <= i < logs.len() ==> m <= #[trigger] logs[i].2
}

pub open spec fn is_max_ms(logs: Seq<LogEntry>, m: int) -> bool {
    &&& exists|i: int| 0 <= i < logs.len() && logs[i].2 == m
    &&& forall|i: int| 0 <= i < logs.len() ==> #[trigger] logs[i].2 <= m
}

/// Whether the run lengths add up without leaving `i64` (adding them
/// overflows otherwise).
pub open spec fn sum_fits(logs: Seq<LogEntry>) -> bool {
    forall|k: int| 0 <= k <= logs.len() ==> i64::MIN <= #[trigger] ms_sum(logs, k) <= i64::MAX
}

fn trunc_div_i128(a: i128, b: i128) -> (r: i128)
    requires
        b > 0,
        a > i128::MIN,
    ensures
        r == crate::time::trunc_div(a as int, b as int),
{
    if a >= 0 {
        a / b
    } else {
        -((-a) / b)
    }
}

proof fn lemma_trunc_div_between(s: int, n: int, lo: int, hi: int)
    requires
        n > 0,
        lo * n <= s <= hi * n,
    ensures
        lo <= crate::time::trunc_div(s, n) <= hi,
{
    if s >= 0 {
        assert(lo <= s / n <= hi) by (nonlinear_arith)
            requires n > 0, lo * n <= s, s <= hi * n, s >= 0;
    } else {
        assert(-hi <= (-s) / n <= -lo) by (nonlinear_arith)
            requires n > 0, lo * n <= s, s <= hi * n, s < 0;
    }
}

impl HistoryView {
    /// Whether the selection points at a run exactly when there are runs.
    pub open spec fn wf(&self) -> bool {
        sel_ok(self.selected, self.logs@.len())
    }

    /// A fresh panel for a task: the first run selected when there is one.
    pub fn load(task_id: String, logs: Vec<LogEntry>) -> (r: HistoryView)
        ensures
            r.task_id == task_id,
            r.logs@ == logs@,
            r.selected == (if logs@.len() == 0 { None } else { Some(0usize) }),
            r.confirm_delete is None,
            r.page_size == 10,
            r.wf(),
    {
        let selected = if logs.len() == 0 { None } else { Some(0) };
        HistoryView { task_id, logs, selected, confirm_delete: None, page_size: 10 }
    }

    /// The end-time text of the selected run.
    pub fn selected_raw_end_time(&self) -> (r: Option<&str>)
        ensures
            match self.selected {
                Some(i) => if i < self.logs@.len() {
                    r matches Some(t) && t@ == self.logs@[i as int].0@
                } else {
                    r is None
                },
                None => r is None,
            },
    {
        match self.selected {
            Some(i) => if i < self.logs.len() {
                Some(self.logs[i].0.as_str())
            } else {
                None
            },
            None => None,
        }
    }

    /// Replaces the runs with a fresh reading, keeping the same run selected
    /// when it is still there, else the first run.
    pub fn refresh(&mut self, logs: Vec<LogEntry>)
        requires
            old(self).wf(),
        ensures
            final(self).wf(),
            final(self).logs@ == logs@,
            final(self).task_id == old(self).task_id,
            final(self).confirm_delete == old(self).confirm_delete,
            final(self).page_size == old(self).page_size,
            ({
                let kept = match old(self).selected {
                    Some(i) => first_with_key(logs@, old(self).logs@[i as int].0@),
                    None => None,
                };
                final(self).selected == match kept {
                    Some(j) => Some(j),
                    None => if logs@.len() == 0 { None } else { Some(0usize) },
                }
            }),
    {
        let new_idx = match self.selected {
            Some(i) => position_of_key(&logs, self.logs[i].0.as_str()),
            None => None,
        };
        self.logs = logs;
        self.selected = match new_idx {
            Some(j) => Some(j),
            None => if self.logs.len() == 0 { None } else { Some(0) },
        };
    }

    /// Rows that fit the history table in an area `height` rows tall (its
    /// header takes one), at least one.
    pub fn set_page_size(&mut self, height: u16)
        ensures
            final(self).page_size == (if height <= 2 { 1 } else { height - 1 }),
            final(self).logs@ == old(self).logs@,
            final(self).selected == old(self).selected,
            final(self).task_id == old(self).task_id,
            final(self).confirm_delete == old(self).confirm_delete,
    {
        let rows: u16 = if height >= 1 { height - 1 } else { 0 };
        self.page_size = if rows == 0 { 1 } else { rows as usize };
    }

    /// Whether the run lengths add up within `i64` (see `sum_fits`).
    pub fn sums_fit(logs: &Vec<LogEntry>) -> (r: bool)
        ensures
            r == sum_fits(logs@),
    {
        let mut sum: i128 = 0;
        let mut i: usize = 0;
        while i < logs.len()
            invariant
                i <= logs@.len(),
                sum == ms_sum(logs@, i as int),
                forall|k: int| 0 <= k <= i ==> i64::MIN <= #[trigger] ms_sum(logs@, k) <= i64::MAX,
            decreases logs@.len() - i,
        {
            sum = sum + logs[i].2 as i128;
            if sum < i64::MIN as i128 || sum > i64::MAX as i128 {
                assert(!(i64::MIN <= ms_sum(logs@, i + 1) <= i64::MAX));
                return false;
            }
            i = i + 1;
        }
        true
    }

    pub fn nav_up(&mut self)
        ensures
            final(self).selected == nav_up_sel(old(self).selected, old(self).logs@.len()),
            final(self).logs@ == old(self).logs@,
            final(self).task_id == old(self).task_id,
            final(self).confirm_delete == old(self).confirm_delete,
            final(self).page_size == old(self).page_size,
    {
        self.selected = nav_up_index(self.selected, self.logs.len());
    }

    pub fn nav_down(&mut self)
        ensures
            final(self).selected == nav_down_sel(old(self).selected, old(self).logs@.len()),
            final(self).logs@ == old(self).logs@,
            final(self).task_id == old(self).task_id,
            final(self).confirm_delete == old(self).confirm_delete,
            final(self).page_size == old(self).page_size,
    {
        self.selected = nav_down_index(self.selected, self.logs.len());
    }

    pub fn page_up(&mut self)
        ensures
            final(self).selected == page_up_sel(old(self).selected, old(self).logs@.len(), old(self).page_size),
            final(self).logs@ == old(self).logs@,
            final(self).task_id == old(self).task_id,
            final(self).confirm_delete == old(self).confirm_delete,
            final(self).page_size == old(self).page_size,
    {
        self.selected = page_up_index(self.selected, self.logs.len(), self.page_size);
    }

    pub fn page_down(&mut self)
        requires
            old(self).wf(),
        ensures
            final(self).selected == page_down_sel(old(self).selected, old(self).logs@.len(), old(self).page_size),
            final(self).logs@ == old(self).logs@,
            final(self).task_id == old(self).task_id,
            final(self).confirm_delete == old(self).confirm_delete,
            final(self).page_size == old(self).page_size,
    {
        self.selected = page_down_index(self.selected, self.logs.len(), self.page_size);
    }

    /// The summary line's numbers: average, shortest and longest run, and the
    /// average gap between runs.
    pub fn stats(&self) -> (r: Option<(i64, i64, i64, Option<i64>)>)
        requires
            sum_fits(self.logs@),
        ensures
            match (r, history_stats(self.logs@)) {
                (None, None) => true,
                (Some(a), Some(b)) => a.0 == b.0 && a.1 == b.1 && a.2 == b.2 && match (a.3, b.3) {
                    (None, None) => true,
                    (Some(x), Some(y)) => x == y,
                    _ => false,
                },
                _ => false,
            },
    {
        let n = self.logs.len();
        if n == 0 {
            return None;
        }
        let mut sum: i64 = 0;
        let mut mn: i64 = self.logs[0].2;
        let mut mx: i64 = self.logs[0].2;
        let mut i: usize = 0;
        while i < n
            invariant
                n == self.logs@.len(),
                n > 0,
                i <= n,
                sum_fits(self.logs@),
                sum == ms_sum(self.logs@, i as int),
                exists|k: int| 0 <= k < n && self.logs@[k].2 == mn,
                exists|k: int| 0 <= k < n && self.logs@[k].2 == mx,
                forall|k: int| 0 <= k < i ==> mn <= #[trigger] self.logs@[k].2 <= mx,
                i == 0 ==> mn == self.logs@[0].2 && mx == self.logs@[0].2,
            decreases n - i,
        {
            let ms = self.logs[i].2;
            assert(ms_sum(self.logs@, i + 1) == ms_sum(self.logs@, i as int) + ms);
            assert(i64::MIN <= ms_sum(self.logs@, i + 1) <= i64::MAX);
            sum = sum + ms;
            if ms < mn {
                mn = ms;
            }
            if ms > mx {
                mx = ms;
            }
            i = i + 1;
        }
        proof {
            assert(is_min_ms(self.logs@, mn as int));
            assert(is_max_ms(self.logs@, mx as int));
            let cmn = choose|m: int| is_min_ms(self.logs@, m);
            let cmx = choose|m: int| is_max_ms(self.logs@, m);
            let k1 = choose|k: int| 0 <= k < n && self.logs@[k].2 == cmn;
            let k2 = choose|k: int| 0 <= k < n && self.logs@[k].2 == cmx;
            assert(cmn <= mn <= self.logs@[k1].2);
            assert(cmx >= mx >= self.logs@[k2].2);
        }
        let avg: i128 = trunc_div_i128(sum as i128, n as i128);
        proof {
            assert forall|k: int| 0 <= k <= n implies mn * k <= #[trigger] ms_sum(self.logs@, k) <= mx * k by {
                lemma_sum_between(self.logs@, k, mn as int, mx as int);
            }
            lemma_trunc_div_between(sum as int, n as int, mn as int, mx as int);
        }
        let freq = if n >= 2 {
            let span = self.logs[0].1.signed_duration_since(&self.logs[n - 1].1).num_milliseconds();
            Some(trunc_div_i128(span as i128, (n - 1) as i128) as i64)
        } else {
            None
        };
        Some((avg as i64, mn, mx, freq))
    }
}

proof fn lemma_sum_between(logs: Seq<LogEntry>, k: int, lo: int, hi: int)
    requires
        0 <= k <= logs.len(),
        forall|j: int| 0 <= j < logs.len() ==> lo <= #[trigger] logs[j].2 <= hi,
    ensures
        lo * k <= ms_sum(logs, k) <= hi * k,
    decreases k,
{
    if k > 0 {
        lemma_sum_between(logs, k - 1, lo, hi);
        assert(lo <= logs[k - 1].2 <= hi);
        assert(lo * k == lo * (k - 1) + lo) by (nonlinear_arith);
        assert(hi * k == hi * (k - 1) + hi) by (nonlinear_arith);
    } else {
        assert(lo * k == 0 && hi * k == 0) by (nonlinear_arith) requires k == 0;
    }
}

/// The average run length lies between the shortest and the longest run.
pub proof fn lemma_stats_average_between(logs: Seq<LogEntry>)
    requires
        logs.len() > 0,
    ensures
        history_stats(logs) matches Some(s) && s.1 <= s.0 <= s.2,
{
    let n = logs.len() as int;
    let mn = choose|m: int| is_min_ms(logs, m);
    let mx = choose|m: int| is_max_ms(logs, m);
    lemma_min_max_exist(logs);
    lemma_sum_between(logs, n, mn, mx);
    lemma_trunc_div_between(ms_sum(logs, n), n, mn, mx);
}

proof fn lemma_sum_of_equal(logs: Seq<LogEntry>, k: int, len: int)
    requires
        0 <= k <= logs.len(),
        forall|i: int| 0 <= i < logs.len() ==> #[trigger] logs[i].2 == len,
    ensures
        ms_sum(logs, k) == k * len,
    decreases k,
{
    if k > 0 {
        lemma_sum_of_equal(logs, k - 1, len);
        assert(logs[k - 1].2 == len);
        assert(ms_sum(logs, k) == ms_sum(logs, k - 1) + logs[k - 1].2);
        assert(k * len == (k - 1) * len + len) by (nonlinear_arith);
    } else {
        assert(ms_sum(logs, 0) == 0);
        assert(0 * len == 0);
    }
}

/// When every run took the same time, the summary's average, shortest and
/// longest are that time; a summary exists exactly when there are runs.
pub proof fn lemma_stats_of_equal_runs(logs: Seq<LogEntry>, len: int)
    requires
        forall|i: int| 0 <= i < logs.len() ==> #[trigger] logs[i].2 == len,
    ensures
        history_stats(logs) is Some <==> logs.len() > 0,
        logs.len() > 0 ==> (history_stats(logs) matches Some(st) && st.0 == len && st.1 == len && st.2 == len),
{
    if logs.len() > 0 {
        let n = logs.len() as int;
        lemma_sum_of_equal(logs, n, len);
        lemma_min_max_exist(logs);
        assert(len * n == n * len) by (nonlinear_arith);
        lemma_trunc_div_between(n * len, n, len, len);
        let mn = choose|m: int| is_min_ms(logs, m);
        let mx = choose|m: int| is_max_ms(logs, m);
        let i1 = choose|i: int| 0 <= i < logs.len() && logs[i].2 == mn;
        let i2 = choose|i: int| 0 <= i < logs.len() && logs[i].2 == mx;
        assert(logs[i1].2 == len && logs[i2].2 == len);
    }
}

proof fn lemma_min_max_exist(logs: Seq<LogEntry>)
    requires
        logs.len() > 0,
    ensures
        exists|m: int| is_min_ms(logs, m),
        exists|m: int| is_max_ms(logs, m),
    decreases logs.len(),
{
    if logs.len() == 1 {
        assert(is_min_ms(logs, logs[0].2 as int));
        assert(is_max_ms(logs, logs[0].2 as int));
    } else {
        let rest = logs.drop_last();
        lemma_min_max_exist(rest);
        let a = choose|m: int| is_min_ms(rest, m);
        let b = choose|m: int| is_max_ms(rest, m);
        let x = logs.last().2 as int;
        let ia = choose|i: int| 0 <= i < rest.len() && rest[i].2 == a;
        let ib = choose|i: int| 0 <= i < rest.len() && rest[i].2 == b;
        assert(logs[ia].2 == a);
        assert(logs[ib].2 == b);
        assert(logs[logs.len() - 1].2 == x);
        let mn = if x < a { x } else { a };
        let mx = if x > b { x } else { b };
        assert forall|i: int| 0 <= i < logs.len() implies mn <= #[trigger] logs[i].2 by {
            if i < rest.len() {
                assert(rest[i] == logs[i]);
            }
        }
        assert forall|i: int| 0 <= i < logs.len() implies #[trigger] logs[i].2 <= mx by {
            if i < rest.len() {
                assert(rest[i] == logs[i]);
            }
        }
        assert(is_min_ms(logs, mn));
        assert(is_max_ms(logs, mx));
    }
}

/// Index of the first entry whose key text is `key`.
pub open spec fn first_with_key(logs: Seq<LogEntry>, key: Seq<char>) -> Option<usize> {
    if exists|i: int| 0 <= i < logs.len() && logs[i].0@ == key {
        let i = choose|i: int| 0 <= i < logs.len() && logs[i].0@ == key
            && forall|j: int| 0 <= j < i ==> logs[j].0@ != key;
        Some(i as usize)
    } else {
        None
    }
}

fn position_of_key(logs: &Vec<LogEntry>, key: &str) -> (r: Option<usize>)
    ensures
        r == first_with_key(logs@, key@),
        r matches Some(i) ==> i < logs@.len() && logs@[i as int].0@ == key@
            && forall|j: int| 0 <= j < i ==> logs@[j].0@ != key@,
{
    let mut i: usize = 0;
    while i < logs.len()
        invariant
            i <= logs@.len(),
            forall|j: int| 0 <= j < i ==> logs@[j].0@ != key@,
        decreases logs@.len() - i,
    {
        if crate::text::str_eq(logs[i].0.as_str(), key) {
            proof {
                let c = choose|c: int| 0 <= c < logs@.len() && logs@[c].0@ == key@
                    && forall|j: int| 0 <= j < c ==> logs@[j].0@ != key@;
                assert(c == i as int) by {
                    if c < i {
                    } else if c > i {
                        assert(logs@[i as int].0@ == key@);
                    }
                }
            }
            return Some(i);
        }
        i = i + 1;
    }
    None
}


// ----------------------------------------------------------------- ordering

/// An optional key where a missing value sorts after every present one.
pub open spec fn opt_le(a: Option<int>, b: Option<int>) -> bool {
    match (a, b) {
        (Some(x), Some(y)) => x <= y,
        (Some(_), None) => true,
        (None, Some(_)) => false,
        (None, None) => true,
    }
}

pub open spec fn opt_int(d: Option<i64>) -> Option<int> {
    match d {
        Some(x) => Some(x as int),
        None => None,
    }
}

pub open spec fn opt_instant(t: Option<Timestamp>) -> Option<int> {
    match t {
        Some(x) => Some(x.instant()),
        None => None,
    }
}

/// Whether row `a` may come before row `b` when ordering by `col` at `now`.
pub open spec fn row_le(a: TaskRow, b: TaskRow, col: SortCol, now: Timestamp) -> bool {
    match col {
        SortCol::Task => text_le(a.id@, b.id@),
        SortCol::Status => status_rank(a, now) <= status_rank(b, now),
        SortCol::Duration => opt_le(opt_int(a.duration), opt_int(b.duration)),
        SortCol::Elapsed => elapsed_ms(a, now) <= elapsed_ms(b, now),
        SortCol::LastRun => opt_le(opt_instant(a.last_run), opt_instant(b.last_run)),
    }
}

/// `row_le` is a total preorder.
pub proof fn lemma_row_le_total_preorder(a: TaskRow, b: TaskRow, c: TaskRow, col: SortCol, now: Timestamp)
    ensures
        row_le(a, b, col, now) || row_le(b, a, col, now),
        row_le(a, b, col, now) && row_le(b, c, col, now) ==> row_le(a, c, col, now),
{
    if col == SortCol::Task {
        crate::text::lemma_text_le_total(a.id@, b.id@);
        if text_le(a.id@, b.id@) && text_le(b.id@, c.id@) {
            crate::text::lemma_text_le_trans(a.id@, b.id@, c.id@);
        }
    }
}

fn opt_i64_le(a: Option<i64>, b: Option<i64>) -> (r: bool)
    ensures
        r == opt_le(opt_int(a), opt_int(b)),
{
    match (a, b) {
        (Some(x), Some(y)) => x <= y,
        (Some(_), None) => true,
        (None, Some(_)) => false,
        (None, None) => true,
    }
}

fn opt_time_le(a: &Option<Timestamp>, b: &Option<Timestamp>) -> (r: bool)
    ensures
        r == opt_le(opt_instant(*a), opt_instant(*b)),
{
    match (a, b) {
        (Some(x), Some(y)) => !y.is_before(x),
        (Some(_), None) => true,
        (None, Some(_)) => false,
        (None, None) => true,
    }
}

fn row_le_exec(a: &TaskRow, b: &TaskRow, col: SortCol, now: &Timestamp) -> (r: bool)
    requires
        row_ok(*a),
        row_ok(*b),
    ensures
        r == row_le(*a, *b, col, *now),
{
    match col {
        SortCol::Task => crate::text::text_le_exec(a.id.as_str(), b.id.as_str()),
        SortCol::Status => task_status_order(a, now) <= task_status_order(b, now),
        SortCol::Duration => opt_i64_le(a.duration, b.duration),
        SortCol::Elapsed => elapsed_millis(a, now) <= elapsed_millis(b, now),
        SortCol::LastRun => opt_time_le(&a.last_run, &b.last_run),
    }
}

/// `x` placed into the ordered `s` after every row that may come before it.
pub open spec fn insert_ordered(x: TaskRow, s: Seq<TaskRow>, col: SortCol, now: Timestamp) -> Seq<TaskRow>
    decreases s.len(),
{
    if s.len() == 0 {
        seq![x]
    } else if row_le(s.last(), x, col, now) {
        s.push(x)
    } else {
        insert_ordered(x, s.drop_last(), col, now).push(s.last())
    }
}

/// The stable ordering of `s` by `col`: rows that compare equal keep their
/// relative order.
pub open spec fn sorted_rows(s: Seq<TaskRow>, col: SortCol, now: Timestamp) -> Seq<TaskRow>
    decreases s.len(),
{
    if s.len() == 0 {
        Seq::empty()
    } else {
        insert_ordered(s.last(), sorted_rows(s.drop_last(), col, now), col, now)
    }
}

/// The table order: ascending, or the ascending order reversed.
pub open spec fn table_order(s: Seq<TaskRow>, col: SortCol, asc: bool, now: Timestamp) -> Seq<TaskRow> {
    if asc {
        sorted_rows(s, col, now)
    } else {
        sorted_rows(s, col, now).reverse()
    }
}

pub open spec fn is_ordered(s: Seq<TaskRow>, col: SortCol, now: Timestamp) -> bool {
    forall|i: int, j: int| 0 <= i < j < s.len() ==> row_le(#[trigger] s[i], #[trigger] s[j], col, now)
}

proof fn lemma_insert_ordered(x: TaskRow, s: Seq<TaskRow>, col: SortCol, now: Timestamp)
    requires
        is_ordered(s, col, now),
    ensures
        is_ordered(insert_ordered(x, s, col, now), col, now),
        insert_ordered(x, s, col, now).to_multiset() == s.to_multiset().insert(x),
        insert_ordered(x, s, col, now).len() == s.len() + 1,
    decreases s.len(),
{
    broadcast use vstd::seq_lib::group_to_multiset_ensures;
    let r = insert_ordered(x, s, col, now);
    if s.len() == 0 {
        assert(s.to_multiset() =~= vstd::multiset::Multiset::empty());
        assert(r =~= Seq::<TaskRow>::empty().push(x));
    } else if row_le(s.last(), x, col, now) {
        assert forall|i: int, j: int| 0 <= i < j < r.len() implies row_le(#[trigger] r[i], #[trigger] r[j], col, now) by {
            if j == s.len() {
                if i < s.len() - 1 {
                    lemma_row_le_total_preorder(s[i], s.last(), x, col, now);
                }
            }
        }
    } else {
        let t = s.drop_last();
        assert(is_ordered(t, col, now));
        lemma_insert_ordered(x, t, col, now);
        let it = insert_ordered(x, t, col, now);
        assert(r == it.push(s.last()));
        lemma_row_le_total_preorder(s.last(), x, x, col, now);
        assert forall|i: int, j: int| 0 <= i < j < r.len() implies row_le(#[trigger] r[i], #[trigger] r[j], col, now) by {
            if j == r.len() - 1 {
                // every element of `it` is x or an element of t, each before s.last()
                assert(it.to_multiset().count(r[i]) > 0) by {
                    assert(it.contains(r[i]));
                }
                assert(t.to_multiset().insert(x).count(r[i]) > 0);
                if r[i] != x {
                    assert(t.to_multiset().count(r[i]) > 0);
                    assert(t.contains(r[i]));
                    let k = choose|k: int| 0 <= k < t.len() && t[k] == r[i];
                    assert(s[k] == t[k]);
                    assert(row_le(s[k], s[s.len() - 1], col, now));
                }
            }
        }
        assert(s =~= t.push(s.last()));
        assert(s.to_multiset() == t.to_multiset().insert(s.last()));
        assert(r.to_multiset() =~= s.to_multiset().insert(x));
    }
}

/// Ordering the rows gives an ordered rearrangement of the same rows.
pub proof fn lemma_sorted_rows(s: Seq<TaskRow>, col: SortCol, now: Timestamp)
    ensures
        is_ordered(sorted_rows(s, col, now), col, now),
        sorted_rows(s, col, now).to_multiset() == s.to_multiset(),
        sorted_rows(s, col, now).len() == s.len(),
    decreases s.len(),
{
    broadcast use vstd::seq_lib::group_to_multiset_ensures;
    if s.len() == 0 {
        assert(s.to_multiset() =~= vstd::multiset::Multiset::empty());
        assert(sorted_rows(s, col, now).to_multiset() =~= vstd::multiset::Multiset::empty());
    } else {
        let t = s.drop_last();
        lemma_sorted_rows(t, col, now);
        lemma_insert_ordered(s.last(), sorted_rows(t, col, now), col, now);
        assert(s =~= t.push(s.last()));
    }
}

/// Ordering rows that are already in order leaves them as they are.
pub proof fn lemma_sorted_of_ordered(s: Seq<TaskRow>, col: SortCol, now: Timestamp)
    requires
        is_ordered(s, col, now),
    ensures
        sorted_rows(s, col, now) == s,
    decreases s.len(),
{
    if s.len() > 0 {
        let t = s.drop_last();
        assert(is_ordered(t, col, now)) by {
            assert forall|i: int, j: int| 0 <= i < j < t.len() implies row_le(#[trigger] t[i], #[trigger] t[j], col, now) by {
                assert(t[i] == s[i] && t[j] == s[j]);
            }
        }
        lemma_sorted_of_ordered(t, col, now);
        if t.len() > 0 {
            assert(t.last() == s[t.len() - 1]);
            assert(row_le(s[t.len() - 1], s[s.len() - 1], col, now));
        }
        assert(t.push(s.last()) =~= s);
    }
}

/// A row that every row of `t` must come after goes in front of them.
proof fn lemma_insert_in_front(x: TaskRow, t: Seq<TaskRow>, col: SortCol, now: Timestamp)
    requires
        forall|i: int| 0 <= i < t.len() ==> !row_le(#[trigger] t[i], x, col, now),
    ensures
        insert_ordered(x, t, col, now) == seq![x] + t,
    decreases t.len(),
{
    if t.len() > 0 {
        let u = t.drop_last();
        assert(!row_le(t[t.len() - 1], x, col, now));
        assert forall|i: int| 0 <= i < u.len() implies !row_le(#[trigger] u[i], x, col, now) by {
            assert(u[i] == t[i]);
        }
        lemma_insert_in_front(x, u, col, now);
        assert((seq![x] + u).push(t.last()) =~= seq![x] + t);
    }
}

/// The ids strictly increase along the rows.
pub open spec fn ids_strictly_ordered(s: Seq<TaskRow>) -> bool {
    forall|i: int, j: int| 0 <= i < j < s.len() ==> text_le(#[trigger] s[i].id@, #[trigger] s[j].id@) && s[i].id@ != s[j].id@
}

/// Ordering by task the reverse of rows whose ids strictly increase gives
/// those rows back.
proof fn lemma_sorted_of_reversed(s: Seq<TaskRow>, now: Timestamp)
    requires
        ids_strictly_ordered(s),
    ensures
        sorted_rows(s.reverse(), SortCol::Task, now) == s,
    decreases s.len(),
{
    if s.len() > 0 {
        let rest = s.skip(1);
        assert(ids_strictly_ordered(rest)) by {
            assert forall|i: int, j: int| 0 <= i < j < rest.len() implies text_le(#[trigger] rest[i].id@, #[trigger] rest[j].id@)
                && rest[i].id@ != rest[j].id@ by {
                assert(rest[i] == s[i + 1] && rest[j] == s[j + 1]);
            }
        }
        lemma_sorted_of_reversed(rest, now);
        let x = s.reverse();
        assert(x.drop_last() =~= rest.reverse());
        assert(x.last() == s[0]);
        assert forall|i: int| 0 <= i < rest.len() implies !row_le(#[trigger] rest[i], s[0], SortCol::Task, now) by {
            assert(rest[i] == s[i + 1]);
            assert(text_le(s[0].id@, s[i + 1].id@) && s[0].id@ != s[i + 1].id@);
            if text_le(s[i + 1].id@, s[0].id@) {
                crate::text::lemma_text_le_antisym(s[0].id@, s[i + 1].id@);
            }
        }
        lemma_insert_in_front(s[0], rest, SortCol::Task, now);
        assert(seq![s[0]] + rest =~= s);
    }
}

/// Flipping the direction of a table ordered by task with distinct ids
/// reverses it, and flipping it back restores it: pressing `s` twice gives
/// back the order the table had.
pub proof fn lemma_toggle_sort_round_trip(s: Seq<TaskRow>, asc: bool, now: Timestamp)
    requires
        asc ==> ids_strictly_ordered(s),
        !asc ==> ids_strictly_ordered(s.reverse()),
    ensures
        table_order(s, SortCol::Task, !asc, now) == s.reverse(),
        table_order(table_order(s, SortCol::Task, !asc, now), SortCol::Task, asc, now) == s,
{
    if asc {
        assert(is_ordered(s, SortCol::Task, now));
        lemma_sorted_of_ordered(s, SortCol::Task, now);
        lemma_sorted_of_reversed(s, now);
    } else {
        let u = s.reverse();
        assert(u.reverse() =~= s);
        lemma_sorted_of_reversed(u, now);
        assert(is_ordered(u, SortCol::Task, now));
        lemma_sorted_of_ordered(u, SortCol::Task, now);
    }
}

/// The status rank that ordering by status uses agrees with the status word
/// the view shows: `ok` ranks 0, `running` 1, `due` 2 and `unknown` 3; a
/// finished task without a threshold is `ok` and ranks 0.
pub proof fn lemma_rank_agrees_with_word(t: TaskRow, now: Timestamp)
    ensures
        status_word(t, now) == "ok"@ <==> status_rank(t, now) == 0,
        status_word(t, now) == "running"@ <==> status_rank(t, now) == 1,
        status_word(t, now) == "due"@ <==> status_rank(t, now) == 2,
        status_word(t, now) == "unknown"@ <==> status_rank(t, now) == 3,
        t.last_run is Some && t.duration is None ==> status_word(t, now) == "ok"@ && status_rank(t, now) == 0,
{
    reveal_strlit("ok");
    reveal_strlit("running");
    reveal_strlit("due");
    reveal_strlit("unknown");
    assert("ok"@.len() == 2 && "due"@.len() == 3 && "running"@.len() == 7 && "unknown"@.len() == 7);
    assert("running"@[0] == 'r' && "unknown"@[0] == 'u');
}

/// What the ascending table is ordered by, column by column: ids in
/// lexicographic order; status rank; present thresholds from smallest to
/// largest before missing ones; run time; last runs from earliest to latest
/// before tasks never run. It holds the same rows as before, and the
/// descending table is the ascending one reversed.
pub proof fn lemma_table_order_by_column(s: Seq<TaskRow>, col: SortCol, now: Timestamp)
    ensures
        table_order(s, col, true, now).to_multiset() == s.to_multiset(),
        table_order(s, col, false, now) == table_order(s, col, true, now).reverse(),
        forall|i: int, j: int| 0 <= i < j < s.len() ==> {
            let a = #[trigger] table_order(s, col, true, now)[i];
            let b = #[trigger] table_order(s, col, true, now)[j];
            &&& col == SortCol::Task ==> text_le(a.id@, b.id@)
            &&& col == SortCol::Status ==> status_rank(a, now) <= status_rank(b, now)
            &&& col == SortCol::Duration ==> (b.duration matches Some(y) ==> (a.duration matches Some(x) && x <= y))
            &&& col == SortCol::Elapsed ==> elapsed_ms(a, now) <= elapsed_ms(b, now)
            &&& col == SortCol::LastRun ==> (b.last_run matches Some(y) ==> (a.last_run matches Some(x)
                && x.instant() <= y.instant()))
        },
{
    lemma_sorted_rows(s, col, now);
    let r = sorted_rows(s, col, now);
    assert forall|i: int, j: int| 0 <= i < j < s.len() implies {
        let a = #[trigger] table_order(s, col, true, now)[i];
        let b = #[trigger] table_order(s, col, true, now)[j];
        &&& col == SortCol::Task ==> text_le(a.id@, b.id@)
        &&& col == SortCol::Status ==> status_rank(a, now) <= status_rank(b, now)
        &&& col == SortCol::Duration ==> (b.duration matches Some(y) ==> (a.duration matches Some(x) && x <= y))
        &&& col == SortCol::Elapsed ==> elapsed_ms(a, now) <= elapsed_ms(b, now)
        &&& col == SortCol::LastRun ==> (b.last_run matches Some(y) ==> (a.last_run matches Some(x)
            && x.instant() <= y.instant()))
    } by {
        assert(row_le(r[i], r[j], col, now));
    }
}

/// Moves `x` into the ordered vector after every row that may come before it.
fn insert_row(v: &mut Vec<TaskRow>, x: TaskRow, col: SortCol, now: &Timestamp)
    requires
        forall|i: int| 0 <= i < old(v)@.len() ==> row_ok(#[trigger] old(v)@[i]),
        row_ok(x),
    ensures
        final(v)@ == insert_ordered(x, old(v)@, col, *now),
{
    let ghost s = v@;
    let mut p: usize = v.len();
    assert(s.subrange(0, s.len() as int) =~= s);
    assert(s.subrange(s.len() as int, s.len() as int) =~= Seq::<TaskRow>::empty());
    assert(insert_ordered(x, s, col, *now) + Seq::<TaskRow>::empty() =~= insert_ordered(x, s, col, *now));
    while p > 0 && !row_le_exec(&v[p - 1], &x, col, now)
        invariant
            v@ == s,
            p <= s.len(),
            forall|i: int| 0 <= i < s.len() ==> row_ok(#[trigger] s[i]),
            row_ok(x),
            insert_ordered(x, s, col, *now) == insert_ordered(x, s.subrange(0, p as int), col, *now) + s.subrange(p as int, s.len() as int),
        decreases p,
    {
        let ghost pre = s.subrange(0, p as int);
        assert(pre.drop_last() =~= s.subrange(0, p - 1));
        assert(pre.last() == s[p - 1]);
        assert(insert_ordered(x, pre, col, *now) == insert_ordered(x, s.subrange(0, p - 1), col, *now).push(s[p - 1]));
        assert(insert_ordered(x, s.subrange(0, p - 1), col, *now).push(s[p - 1]) + s.subrange(p as int, s.len() as int)
            =~= insert_ordered(x, s.subrange(0, p - 1), col, *now) + s.subrange(p - 1, s.len() as int));
        p = p - 1;
    }
    proof {
        let pre = s.subrange(0, p as int);
        if p == 0 {
            assert(pre =~= Seq::<TaskRow>::empty());
        } else {
            assert(pre.last() == s[p - 1]);
        }
        assert(insert_ordered(x, pre, col, *now) =~= pre.push(x));
        assert(pre.push(x) + s.subrange(p as int, s.len() as int) =~= s.insert(p as int, x));
    }
    v.insert(p, x);
}

/// Puts the rows in table order: stably ascending by `col`, reversed when
/// descending.
pub fn sort_rows(rows: Vec<TaskRow>, col: SortCol, asc: bool, now: &Timestamp) -> (r: Vec<TaskRow>)
    requires
        forall|i: int| 0 <= i < rows@.len() ==> row_ok(#[trigger] rows@[i]),
    ensures
        r@ == table_order(rows@, col, asc, *now),
        r@.len() == rows@.len(),
        forall|i: int| 0 <= i < r@.len() ==> row_ok(#[trigger] r@[i]),
{
    let ghost s = rows@;
    let mut src = rows;
    let mut out: Vec<TaskRow> = Vec::new();
    let mut i: usize = 0;
    let n = src.len();
    while src.len() > 0
        invariant
            n == s.len(),
            i + src@.len() == n,
            src@ == s.skip(i as int),
            out@ == sorted_rows(s.take(i as int), col, *now),
            forall|k: int| 0 <= k < s.len() ==> row_ok(#[trigger] s[k]),
        decreases src@.len(),
    {
        let x = src.remove(0);
        assert(x == s[i as int]);
        proof {
            lemma_sorted_rows(s.take(i as int), col, *now);
            assert forall|k: int| 0 <= k < out@.len() implies row_ok(#[trigger] out@[k]) by {
                assert(out@.contains(out@[k]));
                vstd::seq_lib::to_multiset_contains(out@, out@[k]);
                vstd::seq_lib::to_multiset_contains(s.take(i as int), out@[k]);
                let j = choose|j: int| 0 <= j < s.take(i as int).len() && s.take(i as int)[j] == out@[k];
                assert(s[j] == out@[k]);
            }
        }
        insert_row(&mut out, x, col, now);
        assert(s.take(i + 1).drop_last() =~= s.take(i as int));
        assert(s.take(i + 1).last() == s[i as int]);
        assert(src@ =~= s.skip(i + 1));
        i = i + 1;
    }
    assert(s.take(n as int) =~= s);
    proof {
        lemma_sorted_rows(s, col, *now);
    }
    let sorted = out;
    let r = if asc {
        sorted
    } else {
        reverse_rows(sorted)
    };
    proof {
        assert forall|k: int| 0 <= k < r@.len() implies row_ok(#[trigger] r@[k]) by {
            let x = r@[k];
            assert(r@.contains(x));
            assert(sorted_rows(s, col, *now).contains(x)) by {
                if !asc {
                    assert(sorted_rows(s, col, *now)[sorted_rows(s, col, *now).len() - 1 - k] == x);
                }
            }
            vstd::seq_lib::to_multiset_contains(sorted_rows(s, col, *now), x);
            vstd::seq_lib::to_multiset_contains(s, x);
        }
    }
    r
}

fn reverse_rows(v: Vec<TaskRow>) -> (r: Vec<TaskRow>)
    ensures
        r@ == v@.reverse(),
{
    let ghost s = v@;
    let mut v = v;
    let mut out: Vec<TaskRow> = Vec::new();
    while v.len() > 0
        invariant
            v@ == s.take(v@.len() as int),
            v@.len() <= s.len(),
            out@ == s.skip(v@.len() as int).reverse(),
        decreases v@.len(),
    {
        let ghost k = v@.len();
        let x = v.pop().unwrap();
        assert(x == s[k - 1]);
        assert(v@ =~= s.take(k - 1));
        assert(s.skip(k - 1).reverse() =~= s.skip(k as int).reverse().push(x));
        out.push(x);
    }
    assert(s.skip(0) =~= s);
    out
}


// ---------------------------------------------------------------- the view

/// Which screen of the status view is up.
pub enum AppState {
    Normal,
    /// Waiting for the user to confirm deleting the task with this id.
    ConfirmDelete(String),
    History,
}

/// A key press, as far as the views tell keys apart.
#[derive(Clone, Copy, PartialEq, Eq, Debug, Structural)]
pub enum Key {
    Char(char),
    Up,
    Down,
    Left,
    Right,
    PageUp,
    PageDown,
    Tab,
    BackTab,
    Enter,
    Esc,
    Backspace,
    Other,
}

/// What the caller has to carry out after a key: the view has already
/// changed its own state; these need the database or end the view.
pub enum TuiAction {
    Continue,
    Quit,
    /// Read all tasks again and hand them to `App::refresh`.
    RefreshTasks,
    /// Delete the task's log entries and the task, then refresh the tasks.
    DeleteTask(String),
    /// Read the task's log entries and hand them to `App::open_history`.
    OpenHistory(String),
    /// Delete the log entry, then read the entries again for `HistoryView::refresh`.
    DeleteLogEntry { task_id: String, raw_end_time: String },
    /// Read the open task's log entries again for `HistoryView::refresh`.
    RefreshHistory,
}

/// The status view's state.
pub struct App {
    pub tasks: Vec<TaskRow>,
    pub selected: Option<usize>,
    pub sort_col: SortCol,
    pub sort_asc: bool,
    pub app_state: AppState,
    pub last_updated: Timestamp,
    pub history_view: Option<HistoryView>,
    pub show_help: bool,
    pub page_size: usize,
}

/// The next sort column to the right (wrapping).
pub open spec fn next_col(c: SortCol) -> SortCol {
    match c {
        SortCol::Task => SortCol::Status,
        SortCol::Status => SortCol::Duration,
        SortCol::Duration => SortCol::Elapsed,
        SortCol::Elapsed => SortCol::LastRun,
        SortCol::LastRun => SortCol::Task,
    }
}

/// The next sort column to the left (wrapping).
pub open spec fn prev_col(c: SortCol) -> SortCol {
    match c {
        SortCol::Task => SortCol::LastRun,
        SortCol::Status => SortCol::Task,
        SortCol::Duration => SortCol::Status,
        SortCol::Elapsed => SortCol::Duration,
        SortCol::LastRun => SortCol::Elapsed,
    }
}

/// Cycling the sort column right then left, or left then right, comes back
/// to the same column; five steps either way go all the way round.
pub proof fn lemma_cycle_round_trip(c: SortCol)
    ensures
        prev_col(next_col(c)) == c,
        next_col(prev_col(c)) == c,
        next_col(next_col(next_col(next_col(next_col(c))))) == c,
{
}

pub open spec fn rows_ok(s: Seq<TaskRow>) -> bool {
    forall|i: int| 0 <= i < s.len() ==> row_ok(#[trigger] s[i])
}

/// The id of the selected task.
pub open spec fn selected_task_id(tasks: Seq<TaskRow>, sel: Option<usize>) -> Option<Seq<char>> {
    match sel {
        Some(i) => if i < tasks.len() { Some(tasks[i as int].id@) } else { None },
        None => None,
    }
}

/// Index of the first task with this id.
pub open spec fn first_with_id(tasks: Seq<TaskRow>, id: Seq<char>) -> Option<usize> {
    if exists|i: int| 0 <= i < tasks.len() && tasks[i].id@ == id {
        let i = choose|i: int| 0 <= i < tasks.len() && tasks[i].id@ == id
            && forall|j: int| 0 <= j < i ==> tasks[j].id@ != id;
        Some(i as usize)
    } else {
        None
    }
}

fn position_of_id(tasks: &Vec<TaskRow>, id: &str) -> (r: Option<usize>)
    ensures
        r == first_with_id(tasks@, id@),
        r matches Some(i) ==> i < tasks@.len() && tasks@[i as int].id@ == id@,
{
    let mut i: usize = 0;
    while i < tasks.len()
        invariant
            i <= tasks@.len(),
            forall|j: int| 0 <= j < i ==> tasks@[j].id@ != id@,
        decreases tasks@.len() - i,
    {
        if crate::text::str_eq(tasks[i].id.as_str(), id) {
            proof {
                let c = choose|c: int| 0 <= c < tasks@.len() && tasks@[c].id@ == id@
                    && forall|j: int| 0 <= j < c ==> tasks@[j].id@ != id@;
                assert(c == i as int) by {
                    if c > i {
                        assert(tasks@[i as int].id@ == id@);
                    }
                }
            }
            return Some(i);
        }
        i = i + 1;
    }
    None
}

/// Keys that close the help overlay.
pub open spec fn closes_help(key: Key) -> bool {
    key == Key::Char('?') || key == Key::Esc || key == Key::Char('q')
}

pub open spec fn is_yes(key: Key) -> bool {
    key == Key::Char('y') || key == Key::Enter
}

pub open spec fn is_no(key: Key) -> bool {
    key == Key::Char('n') || key == Key::Esc || key == Key::Char('q')
}

pub open spec fn is_back(key: Key) -> bool {
    key == Key::Char('q') || key == Key::Esc
}

pub open spec fn is_up(key: Key) -> bool {
    key == Key::Up || key == Key::Char('k')
}

pub open spec fn is_down(key: Key) -> bool {
    key == Key::Down || key == Key::Char('j')
}

/// Everything but the table selection is as it was.
pub open spec fn keeps_all_but_selection(pre: App, post: App) -> bool {
    &&& post.tasks@ == pre.tasks@
    &&& post.sort_col == pre.sort_col
    &&& post.sort_asc == pre.sort_asc
    &&& post.app_state == pre.app_state
    &&& post.last_updated == pre.last_updated
    &&& post.history_view == pre.history_view
    &&& post.show_help == pre.show_help
    &&& post.page_size == pre.page_size
}

/// The task table (rows, selection, ordering, stamp, page size) is as it was.
pub open spec fn keeps_table(pre: App, post: App) -> bool {
    &&& post.tasks@ == pre.tasks@
    &&& post.selected == pre.selected
    &&& post.sort_col == pre.sort_col
    &&& post.sort_asc == pre.sort_asc
    &&& post.last_updated == pre.last_updated
    &&& post.page_size == pre.page_size
}

/// A key while the help overlay is up.
pub open spec fn help_key_step(pre: App, post: App, key: Key, r: TuiAction) -> bool {
    &&& keeps_table(pre, post)
    &&& post.app_state == pre.app_state
    &&& post.history_view == pre.history_view
    &&& post.show_help == !closes_help(key)
    &&& r is Continue
}

/// The history panel keeps its task, runs and page size.
pub open spec fn keeps_panel(a: HistoryView, b: HistoryView) -> bool {
    &&& b.task_id == a.task_id
    &&& b.logs@ == a.logs@
    &&& b.page_size == a.page_size
}

/// A key on the history screen.
pub open spec fn history_key_step(pre: App, post: App, key: Key, r: TuiAction) -> bool {
    let hv = pre.history_view->0;
    let hv2 = post.history_view->0;
    &&& keeps_table(pre, post)
    &&& if hv.confirm_delete is Some {
        &&& post.app_state is History
        &&& !post.show_help
        &&& keeps_panel(hv, hv2)
        &&& hv2.selected == hv.selected
        &&& if is_yes(key) {
            &&& hv2.confirm_delete is None
            &&& r matches TuiAction::DeleteLogEntry { task_id, raw_end_time }
            &&& task_id@ == hv.task_id@
            &&& raw_end_time == hv.confirm_delete->0
        } else if is_no(key) {
            hv2.confirm_delete is None && r is Continue
        } else {
            hv2.confirm_delete == hv.confirm_delete && r is Continue
        }
    } else if is_back(key) {
        &&& post.app_state is Normal
        &&& post.history_view is None
        &&& !post.show_help
        &&& r is Continue
    } else {
        &&& post.app_state is History
        &&& keeps_panel(hv, hv2)
        &&& post.show_help == (key == Key::Char('?'))
        &&& (if key == Key::Char('r') { r is RefreshHistory } else { r is Continue })
        &&& hv2.selected == (if is_up(key) {
            nav_up_sel(hv.selected, hv.logs@.len())
        } else if is_down(key) {
            nav_down_sel(hv.selected, hv.logs@.len())
        } else if key == Key::PageUp {
            page_up_sel(hv.selected, hv.logs@.len(), hv.page_size)
        } else if key == Key::PageDown {
            page_down_sel(hv.selected, hv.logs@.len(), hv.page_size)
        } else {
            hv.selected
        })
        &&& if key == Key::Char('d') && hv.selected is Some {
            hv2.confirm_delete matches Some(c) && c@ == hv.logs@[hv.selected->0 as int].0@
        } else {
            hv2.confirm_delete == hv.confirm_delete
        }
    }
}

/// A key on the task table.
pub open spec fn normal_key_step(pre: App, post: App, key: Key, r: TuiAction, now: Timestamp) -> bool {
    let id = selected_task_id(pre.tasks@, pre.selected);
    &&& post.last_updated == pre.last_updated
    &&& post.page_size == pre.page_size
    &&& post.history_view is None
    &&& post.show_help == (key == Key::Char('?'))
    &&& if is_back(key) {
        r is Quit && keeps_table(pre, post) && post.app_state is Normal
    } else if key == Key::Right || key == Key::Tab || key == Key::Left || key == Key::BackTab || key == Key::Char('s') {
        let col = if key == Key::Right || key == Key::Tab {
            next_col(pre.sort_col)
        } else if key == Key::Char('s') {
            pre.sort_col
        } else {
            prev_col(pre.sort_col)
        };
        let asc = if key == Key::Char('s') { !pre.sort_asc } else { pre.sort_asc };
        &&& r is Continue
        &&& post.app_state is Normal
        &&& post.sort_col == col
        &&& post.sort_asc == asc
        &&& post.tasks@ == table_order(pre.tasks@, col, asc, now)
        &&& post.selected == pre.selected
    } else {
        &&& post.tasks@ == pre.tasks@
        &&& post.sort_col == pre.sort_col
        &&& post.sort_asc == pre.sort_asc
        &&& post.selected == (if is_up(key) {
            nav_up_sel(pre.selected, pre.tasks@.len())
        } else if is_down(key) {
            nav_down_sel(pre.selected, pre.tasks@.len())
        } else if key == Key::PageUp {
            page_up_sel(pre.selected, pre.tasks@.len(), pre.page_size)
        } else if key == Key::PageDown {
            page_down_sel(pre.selected, pre.tasks@.len(), pre.page_size)
        } else {
            pre.selected
        })
        &&& if key == Key::Char('d') && id is Some {
            post.app_state matches AppState::ConfirmDelete(t) && t@ == id->0 && r is Continue
        } else {
            &&& post.app_state is Normal
            &&& if key == Key::Char('r') {
                r is RefreshTasks
            } else if (key == Key::Enter || key == Key::Char('h')) && id is Some {
                r matches TuiAction::OpenHistory(t) && t@ == id->0
            } else {
                r is Continue
            }
        }
    }
}

/// A key while a task deletion waits for confirmation.
pub open spec fn confirm_key_step(pre: App, post: App, key: Key, r: TuiAction) -> bool {
    &&& keeps_table(pre, post)
    &&& post.history_view is None
    &&& !post.show_help
    &&& if is_yes(key) {
        post.app_state is Normal && (r matches TuiAction::DeleteTask(t) && pre.app_state == AppState::ConfirmDelete(t))
    } else if is_no(key) {
        post.app_state is Normal && r is Continue
    } else {
        post.app_state == pre.app_state && r is Continue
    }
}

/// A key press on the view, by screen (see `App::handle_key`).
pub open spec fn key_step(pre: App, post: App, key: Key, r: TuiAction, now: Timestamp) -> bool {
    &&& pre.show_help ==> help_key_step(pre, post, key, r)
    &&& !pre.show_help && pre.app_state is History ==> history_key_step(pre, post, key, r)
    &&& !pre.show_help && pre.app_state is Normal ==> normal_key_step(pre, post, key, r, now)
    &&& !pre.show_help && pre.app_state is ConfirmDelete ==> confirm_key_step(pre, post, key, r)
}

/// The id of the task whose deletion waits for confirmation.
pub open spec fn confirming(app: App) -> Option<Seq<char>> {
    match app.app_state {
        AppState::ConfirmDelete(t) => Some(t@),
        _ => None,
    }
}

/// One step of a session: a key press (`Some(key)`) handled by
/// `handle_key`, or anything else done to the view between keys (a
/// refresh, opening the history, sizing), which asks for nothing and never
/// starts a confirmation.
pub open spec fn session_step(pre: App, post: App, key: Option<Key>, r: TuiAction, now: Timestamp) -> bool {
    match key {
        Some(k) => key_step(pre, post, k, r, now),
        None => r is Continue && (post.app_state is ConfirmDelete ==> post.app_state == pre.app_state),
    }
}

/// `d` pressed on the task table while the task with id `t` is selected.
pub open spec fn pressed_delete_on(app: App, key: Option<Key>, t: Seq<char>) -> bool {
    &&& key == Some(Key::Char('d'))
    &&& app.app_state is Normal
    &&& !app.show_help
    &&& selected_task_id(app.tasks@, app.selected) == Some(t)
}

proof fn lemma_confirmation_origin(
    states: Seq<App>,
    keys: Seq<Option<Key>>,
    acts: Seq<TuiAction>,
    nows: Seq<Timestamp>,
    i: int,
    t: Seq<char>,
)
    requires
        states.len() == keys.len() + 1,
        acts.len() == keys.len(),
        nows.len() == keys.len(),
        confirming(states[0]) is None,
        forall|k: int| 0 <= k < keys.len() ==> #[trigger] session_step(states[k], states[k + 1], keys[k], acts[k], nows[k]),
        0 <= i <= keys.len(),
        confirming(states[i]) == Some(t),
    ensures
        exists|j: int| 0 <= j < i && #[trigger] pressed_delete_on(states[j], keys[j], t)
            && forall|l: int| j < l <= i ==> confirming(#[trigger] states[l]) == Some(t),
    decreases i,
{
    assert(i > 0);
    let p = i - 1;
    assert(session_step(states[p], states[p + 1], keys[p], acts[p], nows[p]));
    if confirming(states[p]) == Some(t) {
        lemma_confirmation_origin(states, keys, acts, nows, p, t);
        let j = choose|j: int| 0 <= j < p && #[trigger] pressed_delete_on(states[j], keys[j], t)
            && forall|l: int| j < l <= p ==> confirming(#[trigger] states[l]) == Some(t);
        assert forall|l: int| j < l <= i implies confirming(#[trigger] states[l]) == Some(t) by {
            if l < i {
                assert(confirming(states[l]) == Some(t));
            }
        }
        assert(pressed_delete_on(states[j], keys[j], t));
    } else {
        assert(pressed_delete_on(states[p], keys[p], t));
        assert forall|l: int| p < l <= i implies confirming(#[trigger] states[l]) == Some(t) by {
            assert(l == i);
        }
    }
}

/// Over any session that starts outside a confirmation, a task is deleted
/// only on confirming the deletion of the task that was selected when `d`
/// was pressed: between that press and the confirming key the view waits
/// on that task's confirmation, and afterwards it is back on the table.
pub proof fn lemma_delete_only_confirmed_selection(
    states: Seq<App>,
    keys: Seq<Option<Key>>,
    acts: Seq<TuiAction>,
    nows: Seq<Timestamp>,
    k: int,
)
    requires
        states.len() == keys.len() + 1,
        acts.len() == keys.len(),
        nows.len() == keys.len(),
        confirming(states[0]) is None,
        forall|i: int| 0 <= i < keys.len() ==> #[trigger] session_step(states[i], states[i + 1], keys[i], acts[i], nows[i]),
        0 <= k < keys.len(),
        acts[k] is DeleteTask,
    ensures
        exists|j: int| 0 <= j < k && #[trigger] pressed_delete_on(states[j], keys[j], acts[k]->DeleteTask_0@)
            && forall|l: int| j < l <= k ==> confirming(#[trigger] states[l]) == Some(acts[k]->DeleteTask_0@),
        states[k + 1].app_state is Normal,
{
    let t = acts[k]->DeleteTask_0@;
    assert(session_step(states[k], states[k + 1], keys[k], acts[k], nows[k]));
    assert(confirming(states[k]) == Some(t));
    lemma_confirmation_origin(states, keys, acts, nows, k, t);
}

impl App {
    /// The selection points at a row exactly when there are rows, every row's
    /// threshold is a valid span, and the history panel is open exactly on the
    /// history screen.
    pub open spec fn wf(&self) -> bool {
        &&& sel_ok(self.selected, self.tasks@.len())
        &&& rows_ok(self.tasks@)
        &&& (self.app_state is History <==> self.history_view is Some)
        &&& (self.history_view matches Some(hv) ==> hv.wf())
    }

    /// A fresh view over the given tasks, ordered ascending by `sort_col`,
    /// with the first task selected.
    pub fn new(tasks_raw: Vec<TaskRow>, sort_col: SortCol, now: Timestamp) -> (r: App)
        requires
            rows_ok(tasks_raw@),
        ensures
            r.wf(),
            r.tasks@ == table_order(tasks_raw@, sort_col, true, now),
            r.selected == (if tasks_raw@.len() == 0 { None } else { Some(0usize) }),
            r.sort_col == sort_col,
            r.sort_asc,
            r.app_state is Normal,
            r.last_updated == now,
            r.history_view is None,
            !r.show_help,
            r.page_size == 10,
    {
        let tasks = sort_rows(tasks_raw, sort_col, true, &now);
        proof {
            lemma_sorted_rows(tasks_raw@, sort_col, now);
        }
        let selected = if tasks.len() == 0 { None } else { Some(0) };
        App {
            tasks,
            selected,
            sort_col,
            sort_asc: true,
            app_state: AppState::Normal,
            last_updated: now,
            history_view: None,
            show_help: false,
            page_size: 10,
        }
    }

    /// Puts the tasks in table order for the current column and direction.
    /// The selected index stays as it was.
    pub fn sort(&mut self, now: &Timestamp)
        requires
            old(self).wf(),
        ensures
            final(self).wf(),
            final(self).tasks@ == table_order(old(self).tasks@, old(self).sort_col, old(self).sort_asc, *now),
            final(self).selected == old(self).selected,
            final(self).sort_col == old(self).sort_col,
            final(self).sort_asc == old(self).sort_asc,
            final(self).app_state == old(self).app_state,
            final(self).last_updated == old(self).last_updated,
            final(self).history_view == old(self).history_view,
            final(self).show_help == old(self).show_help,
            final(self).page_size == old(self).page_size,
    {
        let mut tasks: Vec<TaskRow> = Vec::new();
        std::mem::swap(&mut tasks, &mut self.tasks);
        proof {
            lemma_sorted_rows(tasks@, self.sort_col, *now);
        }
        self.tasks = sort_rows(tasks, self.sort_col, self.sort_asc, now);
    }

    /// Replaces the tasks with a fresh reading, stamps the time, orders them,
    /// and keeps the same task selected when it is still there (else the first).
    pub fn refresh(&mut self, tasks_raw: Vec<TaskRow>, now: Timestamp)
        requires
            old(self).wf(),
            rows_ok(tasks_raw@),
        ensures
            final(self).wf(),
            final(self).tasks@ == table_order(tasks_raw@, old(self).sort_col, old(self).sort_asc, now),
            final(self).last_updated == now,
            final(self).selected == match selected_task_id(old(self).tasks@, old(self).selected) {
                Some(id) => match first_with_id(final(self).tasks@, id) {
                    Some(j) => Some(j),
                    None => if tasks_raw@.len() == 0 { None } else { Some(0usize) },
                },
                None => if tasks_raw@.len() == 0 { None } else { Some(0usize) },
            },
            final(self).sort_col == old(self).sort_col,
            final(self).sort_asc == old(self).sort_asc,
            final(self).app_state == old(self).app_state,
            final(self).history_view == old(self).history_view,
            final(self).show_help == old(self).show_help,
            final(self).page_size == old(self).page_size,
    {
        let selected_id = self.selected_id();
        proof {
            lemma_sorted_rows(tasks_raw@, self.sort_col, now);
        }
        self.tasks = sort_rows(tasks_raw, self.sort_col, self.sort_asc, &now);
        self.last_updated = now;
        let new_idx = match &selected_id {
            Some(id) => position_of_id(&self.tasks, id.as_str()),
            None => None,
        };
        self.selected = match new_idx {
            Some(j) => Some(j),
            None => if self.tasks.len() == 0 { None } else { Some(0) },
        };
    }

    /// Flips between ascending and descending order and orders again.
    pub fn toggle_sort_order(&mut self, now: &Timestamp)
        requires
            old(self).wf(),
        ensures
            final(self).wf(),
            final(self).sort_asc == !old(self).sort_asc,
            final(self).tasks@ == table_order(old(self).tasks@, old(self).sort_col, !old(self).sort_asc, *now),
            final(self).selected == old(self).selected,
            final(self).sort_col == old(self).sort_col,
            final(self).app_state == old(self).app_state,
            final(self).last_updated == old(self).last_updated,
            final(self).history_view == old(self).history_view,
            final(self).show_help == old(self).show_help,
            final(self).page_size == old(self).page_size,
    {
        self.sort_asc = !self.sort_asc;
        self.sort(now);
    }

    /// Orders by the next column to the right.
    pub fn cycle_sort_next(&mut self, now: &Timestamp)
        requires
            old(self).wf(),
        ensures
            final(self).wf(),
            final(self).sort_col == next_col(old(self).sort_col),
            final(self).tasks@ == table_order(old(self).tasks@, next_col(old(self).sort_col), old(self).sort_asc, *now),
            final(self).selected == old(self).selected,
            final(self).sort_asc == old(self).sort_asc,
            final(self).app_state == old(self).app_state,
            final(self).last_updated == old(self).last_updated,
            final(self).history_view == old(self).history_view,
            final(self).show_help == old(self).show_help,
            final(self).page_size == old(self).page_size,
    {
        self.sort_col = match self.sort_col {
            SortCol::Task => SortCol::Status,
            SortCol::Status => SortCol::Duration,
            SortCol::Duration => SortCol::Elapsed,
            SortCol::Elapsed => SortCol::LastRun,
            SortCol::LastRun => SortCol::Task,
        };
        self.sort(now);
    }

    /// Orders by the next column to the left.
    pub fn cycle_sort_prev(&mut self, now: &Timestamp)
        requires
            old(self).wf(),
        ensures
            final(self).wf(),
            final(self).sort_col == prev_col(old(self).sort_col),
            final(self).tasks@ == table_order(old(self).tasks@, prev_col(old(self).sort_col), old(self).sort_asc, *now),
            final(self).selected == old(self).selected,
            final(self).sort_asc == old(self).sort_asc,
            final(self).app_state == old(self).app_state,
            final(self).last_updated == old(self).last_updated,
            final(self).history_view == old(self).history_view,
            final(self).show_help == old(self).show_help,
            final(self).page_size == old(self).page_size,
    {
        self.sort_col = match self.sort_col {
            SortCol::Task => SortCol::LastRun,
            SortCol::Status => SortCol::Task,
            SortCol::Duration => SortCol::Status,
            SortCol::Elapsed => SortCol::Duration,
            SortCol::LastRun => SortCol::Elapsed,
        };
        self.sort(now);
    }

    /// The id of the selected task.
    pub fn selected_id(&self) -> (r: Option<String>)
        ensures
            match (r, selected_task_id(self.tasks@, self.selected)) {
                (Some(a), Some(b)) => a@ == b,
                (None, None) => true,
                _ => false,
            },
    {
        match self.selected {
            Some(i) => if i < self.tasks.len() {
                Some(self.tasks[i].id.clone())
            } else {
                None
            },
            None => None,
        }
    }

    /// Opens the history panel for a task with its log entries (newest first).
    pub fn open_history(&mut self, task_id: String, logs: Vec<LogEntry>)
        requires
            old(self).wf(),
        ensures
            final(self).wf(),
            final(self).app_state is History,
            final(self).history_view matches Some(hv) && hv.task_id == task_id && hv.logs@ == logs@
                && hv.selected == (if logs@.len() == 0 { None } else { Some(0usize) })
                && hv.confirm_delete is None && hv.page_size == 10,
            final(self).tasks@ == old(self).tasks@,
            final(self).selected == old(self).selected,
            final(self).sort_col == old(self).sort_col,
            final(self).sort_asc == old(self).sort_asc,
            final(self).last_updated == old(self).last_updated,
            final(self).show_help == old(self).show_help,
            final(self).page_size == old(self).page_size,
    {
        self.history_view = Some(HistoryView::load(task_id, logs));
        self.app_state = AppState::History;
    }

    /// Rows that fit the table body in an area `height` rows tall (two
    /// borders, a header row and its margin take four), at least one.
    pub fn set_page_size(&mut self, height: u16)
        ensures
            final(self).page_size == (if height <= 5 { 1 } else { height - 4 }),
            final(self).tasks@ == old(self).tasks@,
            final(self).selected == old(self).selected,
            final(self).sort_col == old(self).sort_col,
            final(self).sort_asc == old(self).sort_asc,
            final(self).app_state == old(self).app_state,
            final(self).last_updated == old(self).last_updated,
            final(self).history_view == old(self).history_view,
            final(self).show_help == old(self).show_help,
    {
        let rows: u16 = if height >= 4 { height - 4 } else { 0 };
        self.page_size = if rows == 0 { 1 } else { rows as usize };
    }

    pub fn nav_up(&mut self)
        requires
            old(self).wf(),
        ensures
            final(self).wf(),
            final(self).selected == nav_up_sel(old(self).selected, old(self).tasks@.len()),
            keeps_all_but_selection(*old(self), *final(self)),
    {
        self.selected = nav_up_index(self.selected, self.tasks.len());
    }

    pub fn nav_down(&mut self)
        requires
            old(self).wf(),
        ensures
            final(self).wf(),
            final(self).selected == nav_down_sel(old(self).selected, old(self).tasks@.len()),
            keeps_all_but_selection(*old(self), *final(self)),
    {
        self.selected = nav_down_index(self.selected, self.tasks.len());
    }

    pub fn page_up(&mut self)
        requires
            old(self).wf(),
        ensures
            final(self).wf(),
            final(self).selected == page_up_sel(old(self).selected, old(self).tasks@.len(), old(self).page_size),
            keeps_all_but_selection(*old(self), *final(self)),
    {
        self.selected = page_up_index(self.selected, self.tasks.len(), self.page_size);
    }

    pub fn page_down(&mut self)
        requires
            old(self).wf(),
        ensures
            final(self).wf(),
            final(self).selected == page_down_sel(old(self).selected, old(self).tasks@.len(), old(self).page_size),
            keeps_all_but_selection(*old(self), *final(self)),
    {
        self.selected = page_down_index(self.selected, self.tasks.len(), self.page_size);
    }

    /// Applies a key press to the view and says what the caller has to do.
    ///
    /// With the help overlay up, `?`, `Esc` and `q` close it and every key is
    /// otherwise ignored. Then, by screen:
    /// - task table: `q`/`Esc` quit; arrows, `j`/`k` and page keys move the
    ///   selection; `→`/`Tab` and `←`/`BackTab` change the sort column; `s`
    ///   flips the direction; `r` asks for a refresh; `d` asks to confirm
    ///   deleting the selected task; `Enter`/`h` asks to open its history;
    ///   `?` opens the help;
    /// - delete confirmation: `y`/`Enter` asks to delete the task, `n`, `Esc`
    ///   and `q` go back, other keys are ignored;
    /// - history: `q`/`Esc` close it; arrows, `j`/`k` and page keys move; `d`
    ///   asks to confirm deleting the selected run; `r` asks for a refresh;
    ///   `?` opens the help; while a run waits for confirmation, `y`/`Enter`
    ///   asks to delete it and `n`, `Esc`, `q` drop the question.
    pub fn handle_key(&mut self, key: Key, now: &Timestamp) -> (r: TuiAction)
        requires
            old(self).wf(),
        ensures
            final(self).wf(),
            key_step(*old(self), *final(self), key, r, *now),
    {
        if self.show_help {
            if key == Key::Char('?') || key == Key::Esc || key == Key::Char('q') {
                self.show_help = false;
            }
            return TuiAction::Continue;
        }
        match &self.app_state {
            AppState::History => self.history_key(key),
            AppState::Normal => self.normal_key(key, now),
            AppState::ConfirmDelete(_) => self.confirm_key(key),
        }
    }

    fn history_key(&mut self, key: Key) -> (r: TuiAction)
        requires
            old(self).wf(),
            !old(self).show_help,
            old(self).app_state is History,
        ensures
            final(self).wf(),
            history_key_step(*old(self), *final(self), key, r),
    {
        let mut hv = self.history_view.take().unwrap();
        let action;
        if hv.confirm_delete.is_some() {
            if key == Key::Char('y') || key == Key::Enter {
                let raw = hv.confirm_delete.take().unwrap();
                action = TuiAction::DeleteLogEntry { task_id: hv.task_id.clone(), raw_end_time: raw };
            } else if key == Key::Char('n') || key == Key::Esc || key == Key::Char('q') {
                hv.confirm_delete = None;
                action = TuiAction::Continue;
            } else {
                action = TuiAction::Continue;
            }
        } else if key == Key::Char('q') || key == Key::Esc {
            self.app_state = AppState::Normal;
            return TuiAction::Continue;
        } else if key == Key::Up || key == Key::Char('k') {
            hv.nav_up();
            action = TuiAction::Continue;
        } else if key == Key::Down || key == Key::Char('j') {
            hv.nav_down();
            action = TuiAction::Continue;
        } else if key == Key::PageUp {
            hv.page_up();
            action = TuiAction::Continue;
        } else if key == Key::PageDown {
            hv.page_down();
            action = TuiAction::Continue;
        } else if key == Key::Char('d') {
            let pending = match hv.selected_raw_end_time() {
                Some(raw) => Some(String::from_str(raw)),
                None => None,
            };
            if pending.is_some() {
                hv.confirm_delete = pending;
            }
            action = TuiAction::Continue;
        } else if key == Key::Char('r') {
            action = TuiAction::RefreshHistory;
        } else if key == Key::Char('?') {
            self.show_help = true;
            action = TuiAction::Continue;
        } else {
            action = TuiAction::Continue;
        }
        self.history_view = Some(hv);
        action
    }

    fn normal_key(&mut self, key: Key, now: &Timestamp) -> (r: TuiAction)
        requires
            old(self).wf(),
            !old(self).show_help,
            old(self).app_state is Normal,
        ensures
            final(self).wf(),
            normal_key_step(*old(self), *final(self), key, r, *now),
    {
        if key == Key::Char('q') || key == Key::Esc {
            TuiAction::Quit
        } else if key == Key::Up || key == Key::Char('k') {
            self.nav_up();
            TuiAction::Continue
        } else if key == Key::Down || key == Key::Char('j') {
            self.nav_down();
            TuiAction::Continue
        } else if key == Key::PageUp {
            self.page_up();
            TuiAction::Continue
        } else if key == Key::PageDown {
            self.page_down();
            TuiAction::Continue
        } else if key == Key::Right || key == Key::Tab {
            self.cycle_sort_next(now);
            TuiAction::Continue
        } else if key == Key::Left || key == Key::BackTab {
            self.cycle_sort_prev(now);
            TuiAction::Continue
        } else if key == Key::Char('s') {
            self.toggle_sort_order(now);
            TuiAction::Continue
        } else if key == Key::Char('r') {
            TuiAction::RefreshTasks
        } else if key == Key::Char('d') {
            if let Some(id) = self.selected_id() {
                self.app_state = AppState::ConfirmDelete(id);
            }
            TuiAction::Continue
        } else if key == Key::Enter || key == Key::Char('h') {
            match self.selected_id() {
                Some(id) => TuiAction::OpenHistory(id),
                None => TuiAction::Continue,
            }
        } else if key == Key::Char('?') {
            self.show_help = true;
            TuiAction::Continue
        } else {
            TuiAction::Continue
        }
    }

    fn confirm_key(&mut self, key: Key) -> (r: TuiAction)
        requires
            old(self).wf(),
            !old(self).show_help,
            old(self).app_state is ConfirmDelete,
        ensures
            final(self).wf(),
            confirm_key_step(*old(self), *final(self), key, r),
    {
        if key == Key::Char('y') || key == Key::Enter {
            let mut state = AppState::Normal;
            std::mem::swap(&mut state, &mut self.app_state);
            match state {
                AppState::ConfirmDelete(id) => TuiAction::DeleteTask(id),
                _ => TuiAction::Continue,
            }
        } else if key == Key::Char('n') || key == Key::Esc || key == Key::Char('q') {
            self.app_state = AppState::Normal;
            TuiAction::Continue
        } else {
            TuiAction::Continue
        }
    }

    /// What the periodic refresh has to read: the tasks, or the open history.
    pub fn tick_action(&self) -> (r: TuiAction)
        ensures
            self.app_state is History ==> r is RefreshHistory,
            !(self.app_state is History) ==> r is RefreshTasks,
    {
        match self.app_state {
            AppState::History => TuiAction::RefreshHistory,
            _ => TuiAction::RefreshTasks,
        }
    }
}

} // verus!
