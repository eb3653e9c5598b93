//! Instants and signed spans of time.
//!
//! An instant is kept as whole seconds since the Unix epoch plus a
//! sub-second nanosecond part; a span is kept as a signed count of
//! nanoseconds, bounded as chrono bounds its `TimeDelta` (at most
//! `i64::MAX` milliseconds either way).
use crate::calendar::{civil_date_text, civil_text, civil_text_of, clock_text, is_local_civil_text};
use crate::text::decimal;
use chrono::{DateTime, Local, Utc};
use vstd::prelude::*;

verus! {

pub const NANOS_PER_SEC: i128 = 1_000_000_000;

pub const NANOS_PER_MILLI: i128 = 1_000_000;

/// The largest span, in nanoseconds: `i64::MAX` milliseconds.
pub const MAX_SPAN_NANOS: i128 = 9_223_372_036_854_775_807_000_000;

/// The largest number of whole seconds a span may hold (`i64::MAX / 1000`).
pub const MAX_SPAN_SECS: i64 = 9_223_372_036_854_775;

/// The first second chrono can represent: -262143-01-01T00:00:00Z
/// (`NaiveDate::MIN`, January 1, 262144 BCE).
pub open spec fn min_utc_secs() -> int {
    -8_334_601_228_800
}

/// The last second chrono can represent: 262142-12-31T23:59:59Z (`NaiveDate::MAX`).
pub open spec fn max_utc_secs() -> int {
    8_210_266_876_799
}

/// Whether `DateTime::<Utc>::from_timestamp(secs, nanos)` gives a value: the
/// second lies in chrono's date range, and the nanosecond part is below a
/// billion, or below two billion on the last second of a minute (a leap
/// second). chrono's `from_timestamp` takes the day `secs.div_euclid(86_400)`
/// and refuses it outside `NaiveDate::MIN..=NaiveDate::MAX`, and
/// `NaiveTime::from_num_seconds_from_midnight_opt` refuses the nanoseconds.
pub open spec fn utc_representable(secs: i64, nanos: u32) -> bool {
    &&& min_utc_secs() <= secs <= max_utc_secs()
    &&& (nanos < 1_000_000_000 || (nanos < 2_000_000_000 && secs % 60 == 59))
}

/// A number written with at least `width` digits (zeros in front).
pub open spec fn zero_padded(n: nat, width: nat) -> Seq<char> {
    let d = decimal(n);
    if d.len() >= width {
        d
    } else {
        Seq::new((width - d.len()) as nat, |i: int| '0') + d
    }
}

/// The fraction of a second as `to_rfc3339` writes it: nothing for a whole
/// second, else a point and 3, 6 or 9 digits, the fewest that hold it exactly.
pub open spec fn fraction_text(nanos: nat) -> Seq<char> {
    if nanos == 0 {
        Seq::empty()
    } else if nanos % 1_000_000 == 0 {
        "."@ + zero_padded(nanos / 1_000_000, 3)
    } else if nanos % 1_000 == 0 {
        "."@ + zero_padded(nanos / 1_000, 6)
    } else {
        "."@ + zero_padded(nanos, 9)
    }
}

/// The text that chrono's `to_rfc3339` gives for the UTC instant with these
/// parts (no leap second): the date as `%Y-%m-%d`, `T`, the time as
/// `%H:%M:%S`, the fraction, and `+00:00`.
pub open spec fn rfc3339_text(secs: i64, nanos: u32) -> Seq<char> {
    civil_date_text(secs as int / 86_400) + "T"@ + clock_text(secs as int % 86_400) + fraction_text(nanos as nat) + "+00:00"@
}

/// What chrono's RFC 3339 parser gives for a text, as the parsed instant's
/// (seconds since the epoch, sub-second nanoseconds), or `None` when it refuses it.
pub uninterp spec fn parsed_rfc3339(text: Seq<char>) -> Option<(i64, u32)>;

/// Whether an instant falls in the years 0 to 9999, which chrono writes in
/// RFC 3339 with a four-digit year (others get a sign and more digits,
/// which its RFC 3339 parser does not read).
pub open spec fn four_digit_year(secs: int) -> bool {
    -62_167_219_200 <= secs <= 253_402_300_799
}

/// `DateTime::<Utc>::to_rfc3339` of the instant with these parts.
///
/// Claims: the text is `rfc3339_text(secs, nanos)` (`write_rfc3339` writes
/// the year as `{:04}`, or `{year:+05}` outside 0 to 9999, the other date and
/// time fields as two digits, the fraction with `SecondsFormat::AutoSi`, and
/// the zero offset as `+00:00`); the call cannot fail on a representable
/// instant; and for an instant with a four-digit year and no
/// leap second, chrono's RFC 3339 parser reads the text back as the same
/// instant (`write_rfc3339` writes the date, the time, the fraction with
/// exactly 3, 6 or 9 digits, and `+00:00`; `parse_rfc3339` reads each back).
#[verifier::external_body]
fn utc_rfc3339(secs: i64, nanos: u32) -> (r: String)
    requires
        utc_representable(secs, nanos),
        nanos < 1_000_000_000,
    ensures
        r@ == rfc3339_text(secs, nanos),
        four_digit_year(secs as int) && nanos < 1_000_000_000 ==> parsed_rfc3339(r@) == Some((secs, nanos)),
{
    DateTime::<Utc>::from_timestamp(secs, nanos).unwrap().to_rfc3339()
}

/// `DateTime::parse_from_rfc3339`, taken to UTC and split into its timestamp parts.
///
/// Claims: the result is `parsed_rfc3339(text@)`; a parsed instant is
/// representable (chrono documents that `from_timestamp(dt.timestamp(),
/// dt.timestamp_subsec_nanos())` gives `dt` back) and its nanosecond part is
/// below two billion (a leap second reads as a second billion).
#[verifier::external_body]
fn utc_parse_rfc3339(text: &str) -> (r: Option<(i64, u32)>)
    ensures
        r == parsed_rfc3339(text@),
        r matches Some(p) ==> utc_representable(p.0, p.1) && p.1 < 2_000_000_000,
{
    DateTime::parse_from_rfc3339(text).ok().map(
        |dt| (dt.with_timezone(&Utc).timestamp(), dt.with_timezone(&Utc).timestamp_subsec_nanos()),
    )
}

/// `Utc::now()`, split into its timestamp parts.
///
/// Claims: the instant is representable and its nanosecond part is below one
/// billion (chrono builds it from `SystemTime` with `from_timestamp(..).unwrap()`,
/// and a `std::time::Duration` has fewer than a billion sub-second nanoseconds).
/// The instant is not before 1970: chrono panics (`expect`) when the system
/// clock reads before the epoch, and whole seconds past `i64::MAX` make
/// `from_timestamp(..).unwrap()` panic. Nothing more is claimed of which
/// instant it is.
#[verifier::external_body]
fn utc_now_parts() -> (r: (i64, u32))
    ensures
        utc_representable(r.0, r.1),
        r.1 < 1_000_000_000,
        r.0 >= 0,
{
    let now = Utc::now();
    (now.timestamp(), now.timestamp_subsec_nanos())
}

/// The local time zone's offset from UTC, in seconds, at the instant with
/// these parts (`offset().local_minus_utc()` of `with_timezone(&Local)`).
///
/// Claims: the offset lies strictly within a day either way: chrono's
/// `Local` gives a `FixedOffset`, which `east_opt` keeps within ±86 400
/// seconds. Which offset it is is not claimed: that depends on the time
/// zone the machine is set to.
#[verifier::external_body]
fn local_offset_secs(secs: i64, nanos: u32) -> (r: i32)
    requires
        utc_representable(secs, nanos),
    ensures
        -86_400 < r < 86_400,
{
    DateTime::<Utc>::from_timestamp(secs, nanos).unwrap().with_timezone(&Local).offset().local_minus_utc()
}

/// A point in time, as UTC seconds since the Unix epoch plus nanoseconds.
#[derive(Clone, Copy, Debug, PartialEq, Eq)]
pub struct Timestamp {
    secs: i64,
    nanos: u32,
}

impl Timestamp {
    #[verifier::type_invariant]
    spec fn inv(self) -> bool {
        &&& self.nanos < 1_000_000_000
        &&& utc_representable(self.secs, self.nanos)
        &&& -10_000_000_000_000 <= self.secs <= 10_000_000_000_000
    }

    /// Whole seconds since the epoch.
    pub closed spec fn spec_secs(self) -> i64 {
        self.secs
    }

    /// Nanoseconds past the whole second.
    pub closed spec fn spec_nanos(self) -> u32 {
        self.nanos
    }

    /// The instant as a count of nanoseconds since the epoch.
    pub open spec fn instant(self) -> int {
        self.spec_secs() * 1_000_000_000 + self.spec_nanos()
    }

    /// The instant with these parts, when chrono can represent it.
    pub fn from_parts(secs: i64, nanos: u32) -> (r: Option<Timestamp>)
        ensures
            r is Some <==> (nanos < 1_000_000_000 && utc_representable(secs, nanos)),
            r matches Some(t) ==> t.spec_secs() == secs && t.spec_nanos() == nanos,
    {
        if nanos >= 1_000_000_000 {
            return None;
        }
        if -8_334_601_228_800 <= secs && secs <= 8_210_266_876_799 {
            Some(Timestamp { secs, nanos })
        } else {
            None
        }
    }

    /// The current instant of the system clock, which is not before 1970.
    ///
    /// Nothing more is known of which instant it is.
    pub fn now() -> (r: Timestamp)
        ensures
            r.spec_secs() >= 0,
    {
        let (secs, nanos) = utc_now_parts();
        Timestamp { secs, nanos }
    }

    /// Whole seconds since the epoch.
    pub fn secs(&self) -> (r: i64)
        ensures
            r == self.spec_secs(),
            -10_000_000_000_000 <= r <= 10_000_000_000_000,
    {
        proof {
            use_type_invariant(self);
        }
        self.secs
    }

    /// Nanoseconds past the whole second.
    pub fn subsec_nanos(&self) -> (r: u32)
        ensures
            r == self.spec_nanos(),
            r < 1_000_000_000,
    {
        proof {
            use_type_invariant(self);
        }
        self.nanos
    }

    /// The span from `earlier` to `self` (negative when `self` comes first).
    pub fn signed_duration_since(&self, earlier: &Timestamp) -> (r: Duration)
        ensures
            r.total_nanos() == self.instant() - earlier.instant(),
    {
        proof {
            use_type_invariant(self);
            use_type_invariant(earlier);
        }
        let a: i128 = self.secs as i128 * NANOS_PER_SEC + self.nanos as i128;
        let b: i128 = earlier.secs as i128 * NANOS_PER_SEC + earlier.nanos as i128;
        Duration { nanos: a - b }
    }

    /// Whether `self` comes strictly before `other`.
    pub fn is_before(&self, other: &Timestamp) -> (r: bool)
        ensures
            r == (self.instant() < other.instant()),
    {
        proof {
            use_type_invariant(self);
            use_type_invariant(other);
        }
        self.secs < other.secs || (self.secs == other.secs && self.nanos < other.nanos)
    }

    /// The instant `delta_nanos` nanoseconds later, when chrono can represent it.
    fn shifted(&self, delta_nanos: i128) -> (r: Option<Timestamp>)
        requires
            -MAX_SPAN_NANOS <= delta_nanos <= MAX_SPAN_NANOS,
        ensures
            r is Some <==> (shifted_parts(self.instant() + delta_nanos) matches Some(p) && utc_representable(p.0, p.1)),
            r matches Some(t) ==> t.instant() == self.instant() + delta_nanos,
    {
        proof {
            use_type_invariant(self);
        }
        let total: i128 = self.secs as i128 * NANOS_PER_SEC + self.nanos as i128 + delta_nanos;
        let (q, m) = floor_div_mod(total, NANOS_PER_SEC);
        if q < i64::MIN as i128 || q > i64::MAX as i128 {
            return None;
        }
        Timestamp::from_parts(q as i64, m as u32)
    }

    /// `self + span`, when chrono can represent the result.
    pub fn checked_add(&self, span: &Duration) -> (r: Option<Timestamp>)
        ensures
            r is Some <==> (shifted_parts(self.instant() + span.total_nanos()) matches Some(p) && utc_representable(p.0, p.1)),
            r matches Some(t) ==> t.instant() == self.instant() + span.total_nanos(),
    {
        proof {
            use_type_invariant(span);
        }
        self.shifted(span.nanos)
    }

    /// `self - span`, when chrono can represent the result.
    pub fn checked_sub(&self, span: &Duration) -> (r: Option<Timestamp>)
        ensures
            r is Some <==> (shifted_parts(self.instant() - span.total_nanos()) matches Some(p) && utc_representable(p.0, p.1)),
            r matches Some(t) ==> t.instant() == self.instant() - span.total_nanos(),
    {
        proof {
            use_type_invariant(span);
        }
        self.shifted(-span.nanos)
    }

    /// The instant in RFC 3339 form, as chrono writes it. In the years 0 to
    /// 9999 the text reads back as the same instant.
    pub fn to_rfc3339(&self) -> (r: String)
        ensures
            r@ == rfc3339_text(self.spec_secs(), self.spec_nanos()),
            four_digit_year(self.spec_secs() as int) ==> rfc3339_instant(r@) == Some((self.spec_secs(), self.spec_nanos())),
    {
        proof {
            use_type_invariant(self);
        }
        utc_rfc3339(self.secs, self.nanos)
    }

    /// Reads an RFC 3339 date and time (any offset) as an instant.
    ///
    /// A leap second (a nanosecond part of a billion or more) is read as the
    /// same fraction of the following second.
    pub fn parse_rfc3339(text: &str) -> (r: Option<Timestamp>)
        ensures
            r is Some <==> (normalized_rfc3339(text@) matches Some(p) && utc_representable(p.0, p.1)),
            r matches Some(t) ==> normalized_rfc3339(text@) == Some((t.spec_secs(), t.spec_nanos())),
            parts_of(r) == rfc3339_instant(text@),
    {
        Timestamp::from_parsed(utc_parse_rfc3339(text))
    }

    /// The instant for the (seconds, nanoseconds) that the RFC 3339 parser
    /// gave, with a leap second moved onto the following second, when chrono
    /// can represent it.
    pub fn from_parsed(parsed: Option<(i64, u32)>) -> (r: Option<Timestamp>)
        ensures
            parts_of(r) == match normalized_parts(parsed) {
                Some(p) => if p.1 < 1_000_000_000 && utc_representable(p.0, p.1) { Some(p) } else { None },
                None => None,
            },
    {
        match parsed {
            None => None,
            Some((secs, nanos)) => {
                if nanos >= 1_000_000_000 {
                    if secs == i64::MAX {
                        None
                    } else {
                        Timestamp::from_parts(secs + 1, nanos - 1_000_000_000)
                    }
                } else {
                    Timestamp::from_parts(secs, nanos)
                }
            },
        }
    }

    /// The instant as "%Y-%m-%d %H:%M:%S" in the machine's local time zone:
    /// the instant shifted by the local offset, of less than a day.
    pub fn format_local(&self) -> (r: String)
        ensures
            is_local_civil_text(r@, self.spec_secs() as int),
    {
        let offset = self.local_offset();
        let r = self.format_with_offset(offset);
        assert(-86_400 < offset < 86_400 && r@ == civil_text(self.spec_secs() + offset));
        r
    }

    /// The machine's local offset from UTC at this instant, in seconds:
    /// less than a day either way.
    pub fn local_offset(&self) -> (r: i32)
        ensures
            -86_400 < r < 86_400,
    {
        proof {
            use_type_invariant(self);
        }
        local_offset_secs(self.secs, self.nanos)
    }

    /// The instant as "%Y-%m-%d %H:%M:%S" at an offset of `offset_secs`
    /// seconds from UTC (`civil_text`; the nanoseconds are dropped).
    pub fn format_with_offset(&self, offset_secs: i32) -> (r: String)
        requires
            -86_400 < offset_secs < 86_400,
        ensures
            r@ == civil_text(self.spec_secs() + offset_secs),
    {
        proof {
            use_type_invariant(self);
        }
        civil_text_of(self.secs + offset_secs as i64)
    }
}

/// Parsed (seconds, nanoseconds) with a leap second, a nanosecond part of a
/// billion or more, moved onto the following second.
pub open spec fn normalized_parts(parsed: Option<(i64, u32)>) -> Option<(i64, u32)> {
    match parsed {
        None => None,
        Some(p) => if p.1 >= 1_000_000_000 {
            if p.0 == i64::MAX {
                None
            } else {
                Some(((p.0 + 1) as i64, (p.1 - 1_000_000_000) as u32))
            }
        } else {
            Some(p)
        },
    }
}

/// What chrono's parser gives for `text`, with a leap second moved onto the
/// following second.
pub open spec fn normalized_rfc3339(text: Seq<char>) -> Option<(i64, u32)> {
    normalized_parts(parsed_rfc3339(text))
}

/// The instant that an RFC 3339 text names, as (seconds, nanoseconds), when
/// chrono reads it and can represent it.
pub open spec fn rfc3339_instant(text: Seq<char>) -> Option<(i64, u32)> {
    match normalized_rfc3339(text) {
        Some(p) => if utc_representable(p.0, p.1) {
            Some(p)
        } else {
            None
        },
        None => None,
    }
}

/// The (seconds, nanoseconds) parts of an optional instant.
pub open spec fn parts_of(t: Option<Timestamp>) -> Option<(i64, u32)> {
    match t {
        Some(x) => Some((x.spec_secs(), x.spec_nanos())),
        None => None,
    }
}

/// The (seconds, nanoseconds) parts of an instant given in nanoseconds, when
/// the seconds fit an `i64`.
pub open spec fn shifted_parts(total: int) -> Option<(i64, u32)> {
    let q = total / 1_000_000_000;
    if i64::MIN <= q <= i64::MAX {
        Some((q as i64, (total % 1_000_000_000) as u32))
    } else {
        None
    }
}

/// Floor division and the non-negative remainder.
fn floor_div_mod(a: i128, b: i128) -> (r: (i128, i128))
    requires
        b > 0,
        -MAX_SPAN_NANOS * 4 <= a <= MAX_SPAN_NANOS * 4,
        b == NANOS_PER_SEC,
    ensures
        r.0 == a / b,
        r.1 == a % b,
{
    if a >= 0 {
        (a / b, a % b)
    } else {
        let na: i128 = -a;
        let q: i128 = na / b;
        let m: i128 = na % b;
        proof {
            assert(na == b * q + m) by (nonlinear_arith)
                requires q == na / b, m == na % b, b > 0, na >= 0;
        }
        if m == 0 {
            proof {
                assert(a == b * (-q)) by (nonlinear_arith) requires na == b * q, a == -na;
                vstd::arithmetic::div_mod::lemma_fundamental_div_mod_converse(a as int, b as int, -q as int, 0);
            }
            (-q, 0)
        } else {
            proof {
                assert(a == b * (-q - 1) + (b - m)) by (nonlinear_arith)
                    requires na == b * q + m, a == -na;
                vstd::arithmetic::div_mod::lemma_fundamental_div_mod_converse(a as int, b as int, -q - 1, b - m);
            }
            (-q - 1, b - m)
        }
    }
}

/// A signed span of time with nanosecond precision, within chrono's
/// `TimeDelta` bounds of `i64::MAX` milliseconds either way.
#[derive(Clone, Copy, Debug, PartialEq, Eq)]
pub struct Duration {
    nanos: i128,
}

impl Duration {
    #[verifier::type_invariant]
    spec fn inv(self) -> bool {
        -MAX_SPAN_NANOS <= self.nanos <= MAX_SPAN_NANOS
    }

    /// The span as a signed count of nanoseconds.
    pub closed spec fn total_nanos(self) -> int {
        self.nanos as int
    }

    /// A span of whole seconds; chrono panics outside `±i64::MAX / 1000`.
    pub fn seconds(secs: i64) -> (r: Duration)
        requires
            -MAX_SPAN_SECS <= secs <= MAX_SPAN_SECS,
        ensures
            r.total_nanos() == secs * 1_000_000_000,
    {
        Duration { nanos: secs as i128 * NANOS_PER_SEC }
    }

    /// A span of whole minutes; chrono panics when it leaves its bounds.
    pub fn minutes(minutes: i64) -> (r: Duration)
        requires
            -MAX_SPAN_SECS <= minutes * 60 <= MAX_SPAN_SECS,
        ensures
            r.total_nanos() == minutes * 60 * 1_000_000_000,
    {
        Duration::seconds(minutes * 60)
    }

    /// A span of whole hours; chrono panics when it leaves its bounds.
    pub fn hours(hours: i64) -> (r: Duration)
        requires
            -MAX_SPAN_SECS <= hours * 3600 <= MAX_SPAN_SECS,
        ensures
            r.total_nanos() == hours * 3600 * 1_000_000_000,
    {
        Duration::seconds(hours * 3600)
    }

    /// A span of whole days; chrono panics when it leaves its bounds.
    pub fn days(days: i64) -> (r: Duration)
        requires
            -MAX_SPAN_SECS <= days * 86400 <= MAX_SPAN_SECS,
        ensures
            r.total_nanos() == days * 86400 * 1_000_000_000,
    {
        Duration::seconds(days * 86400)
    }

    /// A span of whole weeks; chrono panics when it leaves its bounds.
    pub fn weeks(weeks: i64) -> (r: Duration)
        requires
            -MAX_SPAN_SECS <= weeks * 604800 <= MAX_SPAN_SECS,
        ensures
            r.total_nanos() == weeks * 604800 * 1_000_000_000,
    {
        Duration::seconds(weeks * 604800)
    }

    /// A span of whole milliseconds; chrono panics on `i64::MIN`.
    pub fn milliseconds(millis: i64) -> (r: Duration)
        requires
            millis > i64::MIN,
        ensures
            r.total_nanos() == millis * 1_000_000,
    {
        Duration { nanos: millis as i128 * NANOS_PER_MILLI }
    }

    /// `self + other`; chrono panics when the sum leaves its bounds.
    pub fn plus(&self, other: &Duration) -> (r: Duration)
        requires
            -MAX_SPAN_NANOS <= self.total_nanos() + other.total_nanos() <= MAX_SPAN_NANOS,
        ensures
            r.total_nanos() == self.total_nanos() + other.total_nanos(),
    {
        proof {
            use_type_invariant(self);
            use_type_invariant(other);
        }
        Duration { nanos: self.nanos + other.nanos }
    }

    /// Whole seconds, rounded toward zero.
    pub fn num_seconds(&self) -> (r: i64)
        ensures
            r == trunc_div(self.total_nanos(), 1_000_000_000),
            -MAX_SPAN_SECS <= r <= MAX_SPAN_SECS,
    {
        proof {
            use_type_invariant(self);
        }
        if self.nanos >= 0 {
            (self.nanos / NANOS_PER_SEC) as i64
        } else {
            let n: i128 = -self.nanos;
            -((n / NANOS_PER_SEC) as i64)
        }
    }

    /// Whole milliseconds, rounded toward zero.
    pub fn num_milliseconds(&self) -> (r: i64)
        ensures
            r == trunc_div(self.total_nanos(), 1_000_000),
            r > i64::MIN,
    {
        proof {
            use_type_invariant(self);
        }
        if self.nanos >= 0 {
            (self.nanos / NANOS_PER_MILLI) as i64
        } else {
            let n: i128 = -self.nanos;
            -((n / NANOS_PER_MILLI) as i64)
        }
    }

    /// Whether `self` is strictly longer than `other`.
    pub fn exceeds(&self, other: &Duration) -> (r: bool)
        ensures
            r == (self.total_nanos() > other.total_nanos()),
    {
        self.nanos > other.nanos
    }

    /// Whether `self` is at least as long as `other`.
    pub fn at_least(&self, other: &Duration) -> (r: bool)
        ensures
            r == (self.total_nanos() >= other.total_nanos()),
    {
        self.nanos >= other.nanos
    }
}

/// Integer division rounded toward zero.
pub open spec fn trunc_div(a: int, b: int) -> int {
    if a >= 0 {
        a / b
    } else {
        -((-a) / b)
    }
}

} // verus!
