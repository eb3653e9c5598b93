//! Reading and writing durations and instants as text.
use crate::text::{decimal, parse_i64, parse_i64_spec, push_char, push_nat, push_text, push_two_digits, two_digits};
use crate::calendar::is_local_civil_text;
use crate::time::{
    parts_of, rfc3339_instant, trunc_div, Duration, Timestamp, MAX_SPAN_SECS,
};
use vstd::prelude::*;

verus! {

/// Seconds in one unit of a duration suffix: `h`ours, `d`ays, `w`eeks,
/// `m`onths of 30 days.
pub open spec fn unit_secs(c: char) -> int {
    if c == 'h' {
        3600
    } else if c == 'd' {
        86400
    } else if c == 'w' {
        604800
    } else if c == 'm' {
        2_592_000
    } else {
        0
    }
}

/// The number of seconds that a duration text such as `24h`, `7d`, `2w` or
/// `3m` stands for: an `i64` numeral followed by one unit letter.
pub open spec fn duration_text_secs(s: Seq<char>) -> Option<int> {
    if s.len() > 0 && unit_secs(s.last()) != 0 {
        match parse_i64_spec(s.drop_last()) {
            Some(n) => Some(n * unit_secs(s.last())),
            None => None,
        }
    } else {
        None
    }
}

/// Whether a duration text, if it is one, stays within the span bounds
/// (beyond them chrono panics while building the span).
pub open spec fn duration_text_in_bounds(s: Seq<char>) -> bool {
    match duration_text_secs(s) {
        Some(t) => -MAX_SPAN_SECS <= t <= MAX_SPAN_SECS,
        None => true,
    }
}

/// The message for a text that is no duration.
pub open spec fn duration_error_text(s: Seq<char>) -> Seq<char> {
    "Invalid duration format: '"@ + s
        + "'. Use a number followed by h (hours), d (days), w (weeks), or m (months). Examples: 24h, 7d, 2w, 3m"@
}

/// What each unit stands for: a numeral followed by `h` is that many hours,
/// by `d` that many days of 24 hours, by `w` that many weeks of 7 days and
/// by `m` that many months of 30 days; any other last letter is no duration.
pub proof fn lemma_duration_units(digits: Seq<char>, c: char)
    ensures
        parse_i64_spec(digits) matches Some(n) ==> {
            &&& duration_text_secs(digits.push('h')) == Some(n * 3600)
            &&& duration_text_secs(digits.push('d')) == Some(n * 24 * 3600)
            &&& duration_text_secs(digits.push('w')) == Some(n * 7 * 24 * 3600)
            &&& duration_text_secs(digits.push('m')) == Some(n * 30 * 24 * 3600)
        },
        parse_i64_spec(digits) is None ==> duration_text_secs(digits.push(c)) is None,
        c != 'h' && c != 'd' && c != 'w' && c != 'm' ==> duration_text_secs(digits.push(c)) is None,
{
    assert(digits.push('h').drop_last() =~= digits);
    assert(digits.push('d').drop_last() =~= digits);
    assert(digits.push('w').drop_last() =~= digits);
    assert(digits.push('m').drop_last() =~= digits);
    assert(digits.push(c).drop_last() =~= digits);
}

/// Whether the duration text can be built without leaving the span bounds.
pub fn duration_within_bounds(s: &str) -> (r: bool)
    ensures
        r == duration_text_in_bounds(s@),
{
    let n = s.unicode_len();
    if n == 0 {
        return true;
    }
    let last = s.get_char(n - 1);
    let unit: i64 = if last == 'h' {
        3600
    } else if last == 'd' {
        86400
    } else if last == 'w' {
        604800
    } else if last == 'm' {
        2_592_000
    } else {
        0
    };
    if unit == 0 {
        return true;
    }
    let head = s.substring_char(0, n - 1);
    assert(head@ =~= s@.drop_last());
    match parse_i64(head) {
        None => true,
        Some(v) => {
            assert(-9_223_372_036_854_775_808 * 2_592_000 <= v as i128 * unit as i128 <= 9_223_372_036_854_775_807 * 2_592_000)
                by (nonlinear_arith)
                requires -9_223_372_036_854_775_808 <= v <= 9_223_372_036_854_775_807, 0 < unit <= 2_592_000;
            let t: i128 = v as i128 * unit as i128;
            -(MAX_SPAN_SECS as i128) <= t && t <= MAX_SPAN_SECS as i128
        },
    }
}

/// Reads a duration such as `24h`, `7d`, `2w` or `3m`: an integer followed
/// by `h` (hours), `d` (days), `w` (weeks) or `m` (months of 30 days).
/// Anything else is refused with a message.
pub fn parse_duration(duration_str: &str) -> (r: Result<Duration, String>)
    requires
        duration_text_in_bounds(duration_str@),
    ensures
        r is Ok <==> duration_text_secs(duration_str@) is Some,
        r matches Ok(d) ==> d.total_nanos() == duration_text_secs(duration_str@)->0 * 1_000_000_000,
        r matches Err(m) ==> m@ == duration_error_text(duration_str@),
{
    let n = duration_str.unicode_len();
    if n > 0 {
        let last = duration_str.get_char(n - 1);
        if last == 'h' || last == 'd' || last == 'w' || last == 'm' {
            let head = duration_str.substring_char(0, n - 1);
            assert(head@ =~= duration_str@.drop_last());
            if let Some(v) = parse_i64(head) {
                if last == 'h' {
                    return Ok(Duration::hours(v));
                } else if last == 'd' {
                    return Ok(Duration::days(v));
                } else if last == 'w' {
                    return Ok(Duration::weeks(v));
                } else {
                    return Ok(Duration::days(v * 30));
                }
            }
        }
    }
    let mut m = String::new();
    push_text(&mut m, "Invalid duration format: '");
    push_text(&mut m, duration_str);
    push_text(
        &mut m,
        "'. Use a number followed by h (hours), d (days), w (weeks), or m (months). Examples: 24h, 7d, 2w, 3m",
    );
    assert(m@ =~= duration_error_text(duration_str@));
    Err(m)
}

/// How `format_duration` writes a span of `nanos` nanoseconds:
/// under a minute as seconds with hundredths (`1.50s`), under an hour as
/// minutes and seconds (`5m0s`), under a day as hours and minutes (`1h5m`),
/// otherwise as days and hours (`2d12h`); negative spans get a leading `-`.
pub open spec fn duration_text(nanos: int) -> Seq<char> {
    let signed_secs = trunc_div(nanos, 1_000_000_000);
    let total = if signed_secs < 0 { -signed_secs } else { signed_secs };
    let sign = if signed_secs < 0 { seq!['-'] } else { Seq::empty() };
    if total < 60 {
        let signed_ms = trunc_div(nanos, 1_000_000);
        let ms = if signed_ms < 0 { -signed_ms } else { signed_ms };
        sign + decimal((ms / 1000) as nat) + "."@ + two_digits(((ms % 1000) / 10) as nat) + "s"@
    } else if total < 3600 {
        sign + decimal((total / 60) as nat) + "m"@ + decimal((total % 60) as nat) + "s"@
    } else {
        let total_minutes = total / 60;
        let days = total_minutes / 1440;
        let hours = (total_minutes % 1440) / 60;
        let minutes = total_minutes % 60;
        if days > 0 {
            sign + decimal(days as nat) + "d"@ + decimal(hours as nat) + "h"@
        } else {
            sign + decimal(hours as nat) + "h"@ + decimal(minutes as nat) + "m"@
        }
    }
}

/// The forms of `format_duration` on whole spans: `s` seconds under a
/// minute read `s.00s`, `m` whole minutes under an hour `m` then `m0s`, `h`
/// whole hours under a day `h` then `h0m`, `d` whole days `d` then `d0h`; and
/// a negative span of a second or more reads as its length with a `-` in front.
pub proof fn lemma_duration_text_forms(n: nat, nanos: int)
    ensures
        n < 60 ==> duration_text((n * 1_000_000_000) as int) == decimal(n) + ".00s"@,
        1 <= n < 60 ==> duration_text((n * 60_000_000_000) as int) == decimal(n) + "m0s"@,
        1 <= n < 24 ==> duration_text((n * 3_600_000_000_000) as int) == decimal(n) + "h0m"@,
        1 <= n ==> duration_text((n * 86_400_000_000_000) as int) == decimal(n) + "d0h"@,
        nanos >= 1_000_000_000 ==> duration_text(-nanos) == seq!['-'] + duration_text(nanos),
{
    reveal_strlit(".");
    reveal_strlit("0");
    reveal_strlit("s");
    reveal_strlit("m");
    reveal_strlit("h");
    reveal_strlit("d");
    reveal_strlit(".00s");
    reveal_strlit("m0s");
    reveal_strlit("h0m");
    reveal_strlit("d0h");
    let a = (n * 1_000_000_000) as int;
    assert(trunc_div(a, 1_000_000_000) == n) by (nonlinear_arith) requires a == n * 1_000_000_000;
    assert(trunc_div(a, 1_000_000) == n * 1000) by (nonlinear_arith) requires a == n * 1_000_000_000;
    assert((n * 1000) / 1000 == n && (n * 1000) % 1000 == 0) by (nonlinear_arith);
    assert(two_digits(0) =~= seq!['0'] + decimal(0));
    assert(decimal(0) =~= seq!['0']);
    if n < 60 {
        assert(duration_text(a) =~= decimal(n) + ".00s"@);
    }
    let b = (n * 60_000_000_000) as int;
    assert(trunc_div(b, 1_000_000_000) == n * 60) by (nonlinear_arith) requires b == n * 60_000_000_000;
    assert((n * 60) / 60 == n && (n * 60) % 60 == 0) by (nonlinear_arith);
    if 1 <= n < 60 {
        assert(duration_text(b) =~= decimal(n) + "m0s"@);
    }
    let c = (n * 3_600_000_000_000) as int;
    assert(trunc_div(c, 1_000_000_000) == n * 3600) by (nonlinear_arith) requires c == n * 3_600_000_000_000;
    assert((n * 3600) / 60 == n * 60) by (nonlinear_arith);
    assert((n * 60) / 1440 == 0 ==> n < 24) by (nonlinear_arith);
    if 1 <= n < 24 {
        assert((n * 60) / 1440 == 0 && (n * 60) % 1440 == n * 60) by (nonlinear_arith) requires 1 <= n < 24;
        assert(duration_text(c) =~= decimal(n) + "h0m"@);
    }
    let d = (n * 86_400_000_000_000) as int;
    assert(trunc_div(d, 1_000_000_000) == n * 86400) by (nonlinear_arith) requires d == n * 86_400_000_000_000;
    assert((n * 86400) / 60 == n * 1440) by (nonlinear_arith);
    assert((n * 1440) / 1440 == n && (n * 1440) % 1440 == 0) by (nonlinear_arith);
    if 1 <= n {
        assert(duration_text(d) =~= decimal(n) + "d0h"@);
    }
    if nanos >= 1_000_000_000 {
        assert(trunc_div(-nanos, 1_000_000_000) == -trunc_div(nanos, 1_000_000_000));
        assert(trunc_div(-nanos, 1_000_000) == -trunc_div(nanos, 1_000_000));
        assert(trunc_div(nanos, 1_000_000_000) >= 1) by (nonlinear_arith) requires nanos >= 1_000_000_000;
        assert(duration_text(-nanos) =~= seq!['-'] + duration_text(nanos));
    }
}

/// Writes a span compactly, e.g. `0.50s`, `5m0s`, `1h5m`, `2d12h`.
pub fn format_duration(duration: &Duration) -> (r: String)
    ensures
        r@ == duration_text(duration.total_nanos()),
{
    let signed_secs: i64 = duration.num_seconds();
    let total: i64 = if signed_secs < 0 { -signed_secs } else { signed_secs };
    let mut s = String::new();
    if signed_secs < 0 {
        push_char(&mut s, '-');
    }
    let ghost sign = if signed_secs < 0 { seq!['-'] } else { Seq::<char>::empty() };
    assert(s@ =~= sign);
    if total < 60 {
        let signed_ms: i64 = duration.num_milliseconds();
        let ms: i64 = if signed_ms < 0 { -signed_ms } else { signed_ms };
        push_nat(&mut s, (ms / 1000) as u64);
        push_text(&mut s, ".");
        push_two_digits(&mut s, ((ms % 1000) / 10) as u64);
        push_text(&mut s, "s");
    } else if total < 3600 {
        push_nat(&mut s, (total / 60) as u64);
        push_text(&mut s, "m");
        push_nat(&mut s, (total % 60) as u64);
        push_text(&mut s, "s");
    } else {
        let total_minutes: i64 = total / 60;
        let days: i64 = total_minutes / (24 * 60);
        let hours: i64 = (total_minutes % (24 * 60)) / 60;
        let minutes: i64 = total_minutes % 60;
        if days > 0 {
            push_nat(&mut s, days as u64);
            push_text(&mut s, "d");
            push_nat(&mut s, hours as u64);
            push_text(&mut s, "h");
        } else {
            push_nat(&mut s, hours as u64);
            push_text(&mut s, "h");
            push_nat(&mut s, minutes as u64);
            push_text(&mut s, "m");
        }
    }
    assert(s@ =~= duration_text(duration.total_nanos()));
    s
}

/// How the history view writes how long ago something was: `45s ago`,
/// `5m ago`, `5m30s ago`, `2h ago`, `2h15m ago`, `3d ago`, `3d4h ago`
/// (whole seconds, sign dropped; a zero trailing part is left out).
pub open spec fn ago_text(nanos: int) -> Seq<char> {
    let signed_secs = trunc_div(nanos, 1_000_000_000);
    let secs = if signed_secs < 0 { -signed_secs } else { signed_secs };
    if secs < 60 {
        decimal(secs as nat) + "s ago"@
    } else if secs < 3600 {
        let m = secs / 60;
        let s = secs % 60;
        if s == 0 {
            decimal(m as nat) + "m ago"@
        } else {
            decimal(m as nat) + "m"@ + decimal(s as nat) + "s ago"@
        }
    } else if secs < 86400 {
        let h = secs / 3600;
        let m = (secs % 3600) / 60;
        if m == 0 {
            decimal(h as nat) + "h ago"@
        } else {
            decimal(h as nat) + "h"@ + decimal(m as nat) + "m ago"@
        }
    } else {
        let d = secs / 86400;
        let h = (secs % 86400) / 3600;
        if h == 0 {
            decimal(d as nat) + "d ago"@
        } else {
            decimal(d as nat) + "d"@ + decimal(h as nat) + "h ago"@
        }
    }
}

/// The forms of `format_ago`: the sign is dropped; `s` seconds under a
/// minute read `s` then `s ago`, `m` whole minutes under an hour `m` then
/// `m ago`, `h` whole hours under a day `h` then `h ago`, `d` whole days `d`
/// then `d ago`.
pub proof fn lemma_ago_text_forms(n: nat, nanos: int)
    ensures
        ago_text(-nanos) == ago_text(nanos),
        n < 60 ==> ago_text((n * 1_000_000_000) as int) == decimal(n) + "s ago"@,
        1 <= n < 60 ==> ago_text((n * 60_000_000_000) as int) == decimal(n) + "m ago"@,
        1 <= n < 24 ==> ago_text((n * 3_600_000_000_000) as int) == decimal(n) + "h ago"@,
        1 <= n ==> ago_text((n * 86_400_000_000_000) as int) == decimal(n) + "d ago"@,
{
    reveal_strlit("m ago");
    reveal_strlit("h ago");
    reveal_strlit("d ago");
    assert(trunc_div(-nanos, 1_000_000_000) == -trunc_div(nanos, 1_000_000_000));
    let a = (n * 1_000_000_000) as int;
    assert(trunc_div(a, 1_000_000_000) == n) by (nonlinear_arith) requires a == n * 1_000_000_000;
    let b = (n * 60_000_000_000) as int;
    assert(trunc_div(b, 1_000_000_000) == n * 60) by (nonlinear_arith) requires b == n * 60_000_000_000;
    assert((n * 60) / 60 == n && (n * 60) % 60 == 0) by (nonlinear_arith);
    let c = (n * 3_600_000_000_000) as int;
    assert(trunc_div(c, 1_000_000_000) == n * 3600) by (nonlinear_arith) requires c == n * 3_600_000_000_000;
    assert((n * 3600) / 3600 == n && (n * 3600) % 3600 == 0) by (nonlinear_arith);
    assert(1 <= n ==> n * 3600 >= 3600) by (nonlinear_arith);
    let d = (n * 86_400_000_000_000) as int;
    assert(trunc_div(d, 1_000_000_000) == n * 86400) by (nonlinear_arith) requires d == n * 86_400_000_000_000;
    assert((n * 86400) / 86400 == n && (n * 86400) % 86400 == 0) by (nonlinear_arith);
    assert(1 <= n ==> n * 86400 >= 86400) by (nonlinear_arith);
    assert(1 <= n ==> n * 60 >= 60) by (nonlinear_arith);
    assert(n < 24 ==> n * 3600 < 86400) by (nonlinear_arith);
    assert(n < 60 ==> n * 60 < 3600) by (nonlinear_arith);
}

/// Writes how long ago something happened, e.g. `5m30s ago`.
pub fn format_ago(ago: &Duration) -> (r: String)
    ensures
        r@ == ago_text(ago.total_nanos()),
{
    let signed_secs: i64 = ago.num_seconds();
    let secs: i64 = if signed_secs < 0 { -signed_secs } else { signed_secs };
    let mut s = String::new();
    if secs < 60 {
        push_nat(&mut s, secs as u64);
        push_text(&mut s, "s ago");
    } else if secs < 3600 {
        let m: i64 = secs / 60;
        let r: i64 = secs % 60;
        push_nat(&mut s, m as u64);
        if r == 0 {
            push_text(&mut s, "m ago");
        } else {
            push_text(&mut s, "m");
            push_nat(&mut s, r as u64);
            push_text(&mut s, "s ago");
        }
    } else if secs < 86400 {
        let h: i64 = secs / 3600;
        let m: i64 = (secs % 3600) / 60;
        push_nat(&mut s, h as u64);
        if m == 0 {
            push_text(&mut s, "h ago");
        } else {
            push_text(&mut s, "h");
            push_nat(&mut s, m as u64);
            push_text(&mut s, "m ago");
        }
    } else {
        let d: i64 = secs / 86400;
        let h: i64 = (secs % 86400) / 3600;
        push_nat(&mut s, d as u64);
        if h == 0 {
            push_text(&mut s, "d ago");
        } else {
            push_text(&mut s, "d");
            push_nat(&mut s, h as u64);
            push_text(&mut s, "h ago");
        }
    }
    assert(s@ =~= ago_text(ago.total_nanos()));
    s
}

/// Reads an optional RFC 3339 text as an instant; a text that does not read
/// gives `None`, as no text does.
pub fn parse_rfc3339_opt(s: Option<String>) -> (r: Option<Timestamp>)
    ensures
        parts_of(r) == match s {
            Some(t) => rfc3339_instant(t@),
            None => None,
        },
{
    match s {
        Some(t) => Timestamp::parse_rfc3339(t.as_str()),
        None => None,
    }
}

/// The instant as "%Y-%m-%d %H:%M:%S" in the machine's local time zone:
/// the instant shifted by the local offset, of less than a day.
pub fn format_datetime(datetime: &Timestamp) -> (r: String)
    ensures
        is_local_civil_text(r@, datetime.spec_secs() as int),
{
    datetime.format_local()
}

} // verus!
