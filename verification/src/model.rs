//! A tracked task and what each command does to it.
use crate::format::{duration_text, format_duration, parse_rfc3339_opt};
use crate::time::{four_digit_year, parts_of, rfc3339_instant, rfc3339_text, trunc_div, Timestamp};
use vstd::prelude::*;

verus! {

/// A tracked task: when it last finished and when it was last started.
pub struct Task {
    pub id: String,
    pub last_run: Option<Timestamp>,
    pub start_time: Option<Timestamp>,
}

/// One completed run for the log: task id, end time (RFC 3339) and how
/// long the run took in milliseconds.
pub struct LogRecord {
    pub id: String,
    pub end_time: String,
    pub elapsed_ms: i64,
}

/// The RFC 3339 text an optional instant is stored as.
pub open spec fn stored_text(t: Option<Timestamp>) -> Option<Seq<char>> {
    match t {
        Some(x) => Some(rfc3339_text(x.spec_secs(), x.spec_nanos())),
        None => None,
    }
}

fn text_of(t: &Option<Timestamp>) -> (r: Option<String>)
    ensures
        *t matches Some(x) && four_digit_year(x.spec_secs() as int) ==> (r matches Some(a) && rfc3339_instant(a@)
            == parts_of(*t)),
        match (r, stored_text(*t)) {
            (Some(a), Some(b)) => a@ == b,
            (None, None) => true,
            _ => false,
        },
{
    match t {
        Some(x) => Some(x.to_rfc3339()),
        None => None,
    }
}

/// The task after `start` at `now`.
pub open spec fn after_start(t: Task, now: Timestamp) -> Task {
    Task { id: t.id, last_run: None, start_time: Some(now) }
}

/// The task after `done` at `now`.
pub open spec fn after_done(t: Task, now: Timestamp) -> Task {
    Task { id: t.id, last_run: Some(now), start_time: t.start_time }
}

/// The task after `clear`.
pub open spec fn after_clear(t: Task) -> Task {
    Task { id: t.id, last_run: None, start_time: None }
}

/// The run that storing the task logs, as (id, end time text, milliseconds).
pub open spec fn logged_run(t: Task) -> Option<(Seq<char>, Seq<char>, int)> {
    match (t.start_time, t.last_run) {
        (Some(st), Some(lr)) => Some(
            (t.id@, rfc3339_text(lr.spec_secs(), lr.spec_nanos()), trunc_div(lr.instant() - st.instant(), 1_000_000)),
        ),
        _ => None,
    }
}

impl Task {
    /// A task that has never been started or finished.
    pub fn new(id: String) -> (r: Task)
        ensures
            r.id == id,
            r.last_run is None,
            r.start_time is None,
    {
        Task { id, last_run: None, start_time: None }
    }

    /// A task read back from its stored row; a time that does not read as
    /// RFC 3339 counts as missing.
    pub fn from_row(id: String, last_run: Option<String>, start_time: Option<String>) -> (r: Task)
        ensures
            r.id == id,
            parts_of(r.last_run) == match last_run { Some(t) => rfc3339_instant(t@), None => None },
            parts_of(r.start_time) == match start_time { Some(t) => rfc3339_instant(t@), None => None },
    {
        Task { id, last_run: parse_rfc3339_opt(last_run), start_time: parse_rfc3339_opt(start_time) }
    }

    /// The texts the task's times are stored as: (last run, start time).
    /// A time in the years 0 to 9999 reads back from its text as itself.
    pub fn stored_times(&self) -> (r: (Option<String>, Option<String>))
        ensures
            self.last_run matches Some(x) && four_digit_year(x.spec_secs() as int) ==> (r.0 matches Some(a)
                && rfc3339_instant(a@) == parts_of(self.last_run)),
            self.start_time matches Some(x) && four_digit_year(x.spec_secs() as int) ==> (r.1 matches Some(a)
                && rfc3339_instant(a@) == parts_of(self.start_time)),
            match (r.0, stored_text(self.last_run)) {
                (Some(a), Some(b)) => a@ == b,
                (None, None) => true,
                _ => false,
            },
            match (r.1, stored_text(self.start_time)) {
                (Some(a), Some(b)) => a@ == b,
                (None, None) => true,
                _ => false,
            },
    {
        (text_of(&self.last_run), text_of(&self.start_time))
    }

    /// The log record that storing the task adds: one exactly when it has
    /// both a start and a finish time, holding the finish time and the
    /// milliseconds from start to finish (rounded toward zero).
    pub fn log_record(&self) -> (r: Option<LogRecord>)
        ensures
            r is Some <==> logged_run(*self) is Some,
            r matches Some(rec) ==> logged_run(*self) == Some((rec.id@, rec.end_time@, rec.elapsed_ms as int)),
            r matches Some(rec) ==> (four_digit_year(self.last_run->0.spec_secs() as int) ==> rfc3339_instant(
                rec.end_time@,
            ) == parts_of(self.last_run)),
    {
        match (&self.start_time, &self.last_run) {
            (Some(st), Some(lr)) => Some(
                LogRecord {
                    id: self.id.clone(),
                    end_time: lr.to_rfc3339(),
                    elapsed_ms: lr.signed_duration_since(st).num_milliseconds(),
                },
            ),
            _ => None,
        }
    }

    /// `start`: the task is stamped as started now and its last finish is cleared.
    pub fn mark_started(&mut self, now: Timestamp)
        ensures
            *final(self) == after_start(*old(self), now),
    {
        self.start_time = Some(now);
        self.last_run = None;
    }

    /// `done`/`update`: the task is stamped as finished now. Also gives how
    /// long it ran when a start time was recorded, written as `format_duration` does.
    pub fn mark_done(&mut self, now: Timestamp) -> (elapsed: Option<String>)
        ensures
            *final(self) == after_done(*old(self), now),
            elapsed is Some <==> old(self).start_time is Some,
            elapsed matches Some(e) ==> e@ == duration_text(now.instant() - old(self).start_time->0.instant()),
    {
        self.last_run = Some(now);
        match &self.start_time {
            Some(st) => Some(format_duration(&now.signed_duration_since(st))),
            None => None,
        }
    }

    /// `clear`: both times are removed; the history stays.
    pub fn clear_times(&mut self)
        ensures
            *final(self) == after_clear(*old(self)),
    {
        self.start_time = None;
        self.last_run = None;
    }
}

/// `start` then `done` logs exactly one run, with the task's id, ending
/// at the finish and lasting from start to finish (in whole milliseconds,
/// rounded toward zero); `done` on a task never started, or cleared, logs
/// nothing; `start` alone logs nothing either.
pub proof fn lemma_start_then_done_logs_run(t: Task, start: Timestamp, done: Timestamp)
    ensures
        logged_run(after_done(after_start(t, start), done)) == Some(
            (t.id@, rfc3339_text(done.spec_secs(), done.spec_nanos()), trunc_div(done.instant() - start.instant(), 1_000_000)),
        ),
        logged_run(after_done(after_clear(t), done)) is None,
        logged_run(after_start(t, start)) is None,
{
}

/// A second `done` without a new `start` logs another run measured from the
/// same start; `start` forgets the previous finish.
pub proof fn lemma_done_keeps_start(t: Task, first: Timestamp, second: Timestamp)
    requires
        t.start_time is Some,
    ensures
        after_done(after_done(t, first), second).start_time == t.start_time,
        logged_run(after_done(after_done(t, first), second)) matches Some(r)
            && r.2 == trunc_div(second.instant() - t.start_time->0.instant(), 1_000_000),
        after_start(after_done(t, first), second).last_run is None,
{
}

} // verus!
