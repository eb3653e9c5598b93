//! What the storage layer computes: the queries it sends, how it reads
//! stored rows back, and the log-retention setting.
use crate::error::AppError;
use crate::format::{duration_text_in_bounds, duration_text_secs, parse_duration};
use crate::text::{decimal, eq_ignore_ascii_case, eq_ignore_ascii_case_spec, push_nat, push_text, str_eq};
use crate::time::{parts_of, rfc3339_instant, shifted_parts, utc_representable, Duration, Timestamp};
use vstd::prelude::*;

verus! {

/// The query for the completion log, newest first, optionally for one
/// task (`WHERE id = ?`) and optionally capped (a limit of 0 means all).
pub open spec fn logs_query_text(filtered: bool, limit: nat) -> Seq<char> {
    "SELECT id, end_time, elapsed_time FROM task_log"@
        + (if filtered { " WHERE id = ?"@ } else { Seq::empty() })
        + " ORDER BY end_time DESC"@
        + (if limit > 0 { " LIMIT "@ + decimal(limit) } else { Seq::empty() })
}

pub fn logs_query(filtered: bool, limit: usize) -> (r: String)
    ensures
        r@ == logs_query_text(filtered, limit as nat),
{
    let mut q = String::new();
    push_text(&mut q, "SELECT id, end_time, elapsed_time FROM task_log");
    if filtered {
        push_text(&mut q, " WHERE id = ?");
    }
    push_text(&mut q, " ORDER BY end_time DESC");
    if limit > 0 {
        push_text(&mut q, " LIMIT ");
        push_nat(&mut q, limit as u64);
    }
    assert(q@ =~= logs_query_text(filtered, limit as nat));
    q
}

/// How the log query is built: the id filter only adds ` WHERE id = ?`
/// after the table, whatever the limit; a positive limit, with or without
/// the filter, only appends ` LIMIT ` and its numeral to the query without
/// a limit; without a limit the query ends with the newest-first ordering.
pub proof fn lemma_logs_query_shape(filtered: bool, limit: nat)
    ensures
        logs_query_text(true, limit) == "SELECT id, end_time, elapsed_time FROM task_log"@ + " WHERE id = ?"@
            + logs_query_text(false, limit).skip(47),
        logs_query_text(false, limit).take(47) == "SELECT id, end_time, elapsed_time FROM task_log"@,
        limit > 0 ==> logs_query_text(filtered, limit) == logs_query_text(filtered, 0) + " LIMIT "@ + decimal(limit),
        logs_query_text(filtered, 0) == logs_query_text(filtered, 0).take(logs_query_text(filtered, 0).len() - 23)
            + " ORDER BY end_time DESC"@,
{
    reveal_strlit("SELECT id, end_time, elapsed_time FROM task_log");
    reveal_strlit(" ORDER BY end_time DESC");
    let head = "SELECT id, end_time, elapsed_time FROM task_log"@;
    let tail = " ORDER BY end_time DESC"@ + (if limit > 0 { " LIMIT "@ + decimal(limit) } else { Seq::empty() });
    assert(head.len() == 47);
    assert(logs_query_text(false, limit) =~= head + tail);
    assert((head + tail).skip(47) =~= tail);
    assert((head + tail).take(47) =~= head);
    assert(logs_query_text(true, limit) =~= head + " WHERE id = ?"@ + tail);
    let z = logs_query_text(filtered, 0);
    assert(z.take(z.len() - 23) + " ORDER BY end_time DESC"@ =~= z);
    assert(logs_query_text(filtered, limit) =~= z + (if limit > 0 { " LIMIT "@ + decimal(limit) } else { Seq::empty() }));
}

/// The query for the tasks, by id, optionally for one task.
pub open spec fn tasks_query_text(filtered: bool) -> Seq<char> {
    "SELECT id, last_run, start_time, duration FROM tasks"@
        + (if filtered { " WHERE id = ?"@ } else { Seq::empty() })
        + " ORDER BY id"@
}

pub fn tasks_query(filtered: bool) -> (r: String)
    ensures
        r@ == tasks_query_text(filtered),
{
    let mut q = String::new();
    push_text(&mut q, "SELECT id, last_run, start_time, duration FROM tasks");
    if filtered {
        push_text(&mut q, " WHERE id = ?");
    }
    push_text(&mut q, " ORDER BY id");
    assert(q@ =~= tasks_query_text(filtered));
    q
}

/// The query for one task's runs, newest first, with each run's stored end
/// time and length.
pub const TASK_LOG_ENTRIES_QUERY: &'static str =
    "SELECT end_time, elapsed_time FROM task_log WHERE id = ? ORDER BY end_time DESC";

/// A stored row with a key, a time text and a number of milliseconds.
pub type TimedRow = (String, String, i64);

/// Reads the time of every row: the rows with their times read, or the
/// index of the first row whose time is no RFC 3339 date.
pub fn decode_timed_rows(rows: Vec<TimedRow>) -> (r: Result<Vec<(String, Timestamp, i64)>, usize>)
    ensures
        r matches Ok(v) ==> v@.len() == rows@.len() && forall|i: int| 0 <= i < v@.len() ==> {
            &&& (#[trigger] v@[i]).0 == rows@[i].0
            &&& parts_of(Some(v@[i].1)) == rfc3339_instant(rows@[i].1@)
            &&& v@[i].2 == rows@[i].2
        },
        r is Ok <==> forall|i: int| 0 <= i < rows@.len() ==> (#[trigger] rfc3339_instant(rows@[i].1@)) is Some,
        r matches Err(k) ==> k < rows@.len() && rfc3339_instant(rows@[k as int].1@) is None
            && forall|i: int| 0 <= i < k ==> (#[trigger] rfc3339_instant(rows@[i].1@)) is Some,
{
    let ghost s = rows@;
    let n: usize = rows.len();
    let mut src = rows;
    let mut out: Vec<(String, Timestamp, i64)> = Vec::new();
    let mut i: usize = 0;
    while src.len() > 0
        invariant
            s == rows@,
            n == s.len(),
            i + src@.len() == s.len(),
            src@ == s.skip(i as int),
            out@.len() == i,
            forall|k: int| 0 <= k < i ==> {
                &&& (#[trigger] out@[k]).0 == s[k].0
                &&& parts_of(Some(out@[k].1)) == rfc3339_instant(s[k].1@)
                &&& out@[k].2 == s[k].2
            },
            forall|k: int| 0 <= k < i ==> (#[trigger] rfc3339_instant(s[k].1@)) is Some,
        decreases src@.len(),
    {
        let (key, text, ms) = src.remove(0);
        assert((key, text, ms) == s[i as int]);
        match Timestamp::parse_rfc3339(text.as_str()) {
            Some(t) => {
                out.push((key, t, ms));
            },
            None => {
                return Err(i);
            },
        }
        assert(src@ =~= s.skip(i + 1));
        i = i + 1;
    }
    Ok(out)
}

/// Whether a retention value switches retention off: `off` in any ASCII
/// case, or `0`.
pub open spec fn retention_off(v: Seq<char>) -> bool {
    eq_ignore_ascii_case_spec(v, "off"@) || v == "0"@
}

fn is_retention_off(v: &str) -> (r: bool)
    ensures
        r == retention_off(v@),
{
    eq_ignore_ascii_case(v, "off") || str_eq(v, "0")
}

/// The retention, in seconds, that a stored `log_retention` value stands
/// for: none when it is unset, switched off or no duration.
pub open spec fn retention_secs(stored: Option<Seq<char>>) -> Option<int> {
    match stored {
        None => None,
        Some(v) => if retention_off(v) {
            None
        } else {
            duration_text_secs(v)
        },
    }
}

pub open spec fn opt_text(s: Option<String>) -> Option<Seq<char>> {
    match s {
        Some(t) => Some(t@),
        None => None,
    }
}

/// The retention in seconds for a stored `log_retention` value (see `retention_secs`).
pub fn log_retention_seconds(stored: Option<String>) -> (r: Option<i64>)
    requires
        stored matches Some(v) ==> duration_text_in_bounds(v@),
    ensures
        match (r, retention_secs(opt_text(stored))) {
            (Some(a), Some(b)) => a == b,
            (None, None) => true,
            _ => false,
        },
{
    match stored {
        None => None,
        Some(v) => {
            if is_retention_off(v.as_str()) {
                return None;
            }
            match parse_duration(v.as_str()) {
                Ok(d) => Some(d.num_seconds()),
                Err(_) => None,
            }
        },
    }
}

/// The message when a retention value is refused.
pub open spec fn retention_error_text() -> Seq<char> {
    "Invalid duration, use e.g. 30d, 2w, 3m, 24h"@
}

/// The value to store for a requested retention: `off` when it switches
/// retention off, the value itself when it is a duration; anything else is
/// refused.
pub fn retention_value_to_store(value: &str) -> (r: Result<String, AppError>)
    requires
        duration_text_in_bounds(value@),
    ensures
        retention_off(value@) ==> (r matches Ok(s) && s@ == "off"@),
        !retention_off(value@) && duration_text_secs(value@) is Some ==> (r matches Ok(s) && s@ == value@),
        !retention_off(value@) && duration_text_secs(value@) is None ==> (r matches Err(AppError::DurationParse(m))
            && m@ == retention_error_text()),
{
    if is_retention_off(value) {
        Ok(String::from_str("off"))
    } else {
        match parse_duration(value) {
            Ok(_) => Ok(String::from_str(value)),
            Err(_) => Err(AppError::DurationParse(String::from_str("Invalid duration, use e.g. 30d, 2w, 3m, 24h"))),
        }
    }
}

/// Storing a retention and reading it back gives what was asked for: off
/// stays off; a duration reads back as its number of seconds.
pub proof fn lemma_retention_read_after_write(value: Seq<char>, stored: Seq<char>)
    requires
        retention_off(value) ==> stored == "off"@,
        !retention_off(value) ==> stored == value && duration_text_secs(value) is Some,
    ensures
        retention_secs(Some(stored)) == (if retention_off(value) { None } else { duration_text_secs(value) }),
{
    if retention_off(value) {
        assert(eq_ignore_ascii_case_spec(stored, "off"@));
    }
}

/// Seconds in the default retention of thirty days.
pub const DEFAULT_RETENTION_SECS: i64 = 2592000;

/// How far back `archive` keeps logs when no `--older-than` is given: the
/// stored retention, or thirty days when there is none.
pub fn archive_default_seconds(stored: Option<String>) -> (r: i64)
    requires
        stored matches Some(v) ==> duration_text_in_bounds(v@),
    ensures
        r == match retention_secs(opt_text(stored)) {
            Some(s) => s,
            None => 2592000,
        },
{
    match log_retention_seconds(stored) {
        Some(s) => s,
        None => DEFAULT_RETENTION_SECS,
    }
}

/// How far back the cleanup after `done`/`update` keeps logs: thirty days
/// while retention was never set, the stored retention otherwise, and no
/// cleanup when it is switched off (or is no duration).
pub fn auto_archive_seconds(stored: Option<String>) -> (r: Option<i64>)
    requires
        stored matches Some(v) ==> duration_text_in_bounds(v@),
    ensures
        stored is None ==> r == Some(2592000i64),
        stored is Some ==> match (r, retention_secs(opt_text(stored))) {
            (Some(a), Some(b)) => a == b,
            (None, None) => true,
            _ => false,
        },
{
    match stored {
        None => Some(DEFAULT_RETENTION_SECS),
        Some(v) => log_retention_seconds(Some(v)),
    }
}

/// The instant before which log entries are old: `now` less the span,
/// when chrono can represent it.
pub fn cutoff_before(now: &Timestamp, keep: &Duration) -> (r: Option<Timestamp>)
    ensures
        r is Some <==> (shifted_parts(now.instant() - keep.total_nanos()) matches Some(p) && utc_representable(
            p.0,
            p.1,
        )),
        r matches Some(t) ==> t.instant() == now.instant() - keep.total_nanos(),
{
    now.checked_sub(keep)
}

} // verus!
