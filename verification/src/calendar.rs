//! The proleptic Gregorian calendar: the date and time of a second counted
//! from 1970-01-01T00:00:00, written as "%Y-%m-%d %H:%M:%S".
use crate::text::{decimal, push_char, push_nat, push_text, push_two_digits, two_digits};
use vstd::prelude::*;

verus! {

/// The proleptic Gregorian (year, month, day) of a day counted from
/// 1970-01-01 (day 0), by the days-from-civil inverse: days are shifted to
/// an era of 400 years that starts on March 1st.
pub open spec fn civil_from_days(days: int) -> (int, int, int) {
    let z = days + 719_468;
    let era = z / 146_097;
    let doe = z - era * 146_097;
    let yoe = (doe - doe / 1460 + doe / 36_524 - doe / 146_096) / 365;
    let doy = doe - (365 * yoe + yoe / 4 - yoe / 100);
    let mp = (5 * doy + 2) / 153;
    let d = doy - (153 * mp + 2) / 5 + 1;
    let m = if mp < 10 { mp + 3 } else { mp - 9 };
    let y = yoe + era * 400 + (if m <= 2 { 1int } else { 0int });
    (y, m, d)
}

/// A number written with at least four digits.
pub open spec fn four_digits(n: nat) -> Seq<char> {
    if n < 10 {
        "000"@ + decimal(n)
    } else if n < 100 {
        "00"@ + decimal(n)
    } else if n < 1000 {
        "0"@ + decimal(n)
    } else {
        decimal(n)
    }
}

/// A year as `%Y` writes it: four digits in the years 0 to 9999, otherwise
/// a sign and at least four digits.
pub open spec fn year_text(y: int) -> Seq<char> {
    if 0 <= y <= 9999 {
        four_digits(y as nat)
    } else if y > 9999 {
        seq!['+'] + four_digits(y as nat)
    } else {
        seq!['-'] + four_digits((-y) as nat)
    }
}

/// A month, day, hour, minute or second written with two digits (the
/// calendar never makes one negative; a minus sign would mark one).
pub open spec fn field_text(n: int) -> Seq<char> {
    if n >= 0 {
        two_digits(n as nat)
    } else {
        seq!['-'] + two_digits((-n) as nat)
    }
}

/// "%Y-%m-%d" of a day counted from 1970-01-01.
pub open spec fn civil_date_text(day: int) -> Seq<char> {
    let ymd = civil_from_days(day);
    year_text(ymd.0) + "-"@ + field_text(ymd.1) + "-"@ + field_text(ymd.2)
}

/// "%H:%M:%S" of a second of the day.
pub open spec fn clock_text(sod: int) -> Seq<char> {
    field_text(sod / 3600) + ":"@ + field_text((sod % 3600) / 60) + ":"@ + field_text(sod % 60)
}

/// The "%Y-%m-%d %H:%M:%S" text of the second `t` counted from
/// 1970-01-01T00:00:00 (no time zone applied).
pub open spec fn civil_text(t: int) -> Seq<char> {
    civil_date_text(t / 86_400) + " "@ + clock_text(t % 86_400)
}

/// Whether `text` is the "%Y-%m-%d %H:%M:%S" text of the second `secs`
/// shifted by some time-zone offset of less than a day either way.
pub open spec fn is_local_civil_text(text: Seq<char>, secs: int) -> bool {
    exists|off: int| -86_400 < off < 86_400 && text == #[trigger] civil_text(secs + off)
}

/// At noon, any offset of less than twelve hours keeps the date: the text
/// starts with the day's date.
pub proof fn lemma_date_kept_at_noon(t: int, off: int)
    requires
        t % 86_400 == 43_200,
        -43_200 < off < 43_200,
    ensures
        (t + off) / 86_400 == t / 86_400,
        civil_text(t + off).take(civil_date_text(t / 86_400).len() as int) == civil_date_text(t / 86_400),
{
    let q = t / 86_400;
    vstd::arithmetic::div_mod::lemma_fundamental_div_mod(t, 86_400);
    vstd::arithmetic::div_mod::lemma_fundamental_div_mod_converse(t + off, 86_400, q, 43_200 + off);
    let date = civil_date_text(q);
    assert(civil_text(t + off).take(date.len() as int) =~= date);
}

/// Floor division.
fn floor_div(a: i64, b: i64) -> (r: i64)
    requires
        0 < b <= 1_000_000,
        -1_000_000_000_000_000 <= a <= 1_000_000_000_000_000,
    ensures
        r == a as int / b as int,
        r * b <= a < r * b + b,
{
    if a >= 0 {
        let q: u64 = (a as u64) / (b as u64);
        let m: u64 = (a as u64) % (b as u64);
        proof {
            vstd::arithmetic::div_mod::lemma_fundamental_div_mod(a as int, b as int);
            assert(q as int == a as int / b as int);
            assert(0 <= m < b);
        }
        q as i64
    } else {
        let na: u64 = (-a - 1) as u64;
        let q: u64 = na / (b as u64);
        let m: u64 = na % (b as u64);
        proof {
            vstd::arithmetic::div_mod::lemma_fundamental_div_mod(na as int, b as int);
            assert(na as int == b * q + m);
            assert(a as int == (-(q as int) - 1) * b + (b - 1 - m)) by (nonlinear_arith)
                requires na as int == b * q + m, na as int == -a - 1;
            vstd::arithmetic::div_mod::lemma_fundamental_div_mod_converse(a as int, b as int, -(q as int) - 1, b - 1 - m);
            assert(q <= na);
        }
        -(q as i64) - 1
    }
}

/// The (year, month, day) of a day counted from 1970-01-01.
fn civil_from_days_of(days: i64) -> (r: (i64, i64, i64))
    requires
        -100_000_000 <= days <= 100_000_000,
    ensures
        (r.0 as int, r.1 as int, r.2 as int) == civil_from_days(days as int),
        -1_000_000 <= r.0 <= 1_000_000,
        -1_000_000 <= r.1 <= 1_000_000,
        -1_000_000 <= r.2 <= 1_000_000,
{
    let z = days + 719_468;
    let era = floor_div(z, 146_097);
    let doe = z - era * 146_097;
    let a1 = floor_div(doe, 1460);
    let a2 = floor_div(doe, 36_524);
    let a3 = floor_div(doe, 146_096);
    let yoe = floor_div(doe - a1 + a2 - a3, 365);
    let b1 = floor_div(yoe, 4);
    let b2 = floor_div(yoe, 100);
    let doy = doe - (365 * yoe + b1 - b2);
    let mp = floor_div(5 * doy + 2, 153);
    let c1 = floor_div(153 * mp + 2, 5);
    let d = doy - c1 + 1;
    let m = if mp < 10 { mp + 3 } else { mp - 9 };
    let y = yoe + era * 400 + (if m <= 2 { 1i64 } else { 0i64 });
    (y, m, d)
}

fn push_four_digits(s: &mut String, n: u64)
    ensures
        final(s)@ == old(s)@ + four_digits(n as nat),
{
    let ghost start = s@;
    if n < 10 {
        push_text(s, "000");
    } else if n < 100 {
        push_text(s, "00");
    } else if n < 1000 {
        push_text(s, "0");
    }
    push_nat(s, n);
    assert(s@ =~= start + four_digits(n as nat));
}

fn push_year(s: &mut String, y: i64)
    requires
        -1_000_000 <= y <= 1_000_000,
    ensures
        final(s)@ == old(s)@ + year_text(y as int),
{
    let ghost start = s@;
    if 0 <= y && y <= 9999 {
        push_four_digits(s, y as u64);
    } else if y > 9999 {
        push_char(s, '+');
        push_four_digits(s, y as u64);
        assert(s@ =~= start + year_text(y as int));
    } else {
        push_char(s, '-');
        push_four_digits(s, (-y) as u64);
        assert(s@ =~= start + year_text(y as int));
    }
}

fn push_field(s: &mut String, n: i64)
    requires
        -1_000_000 <= n <= 1_000_000,
    ensures
        final(s)@ == old(s)@ + field_text(n as int),
{
    let ghost start = s@;
    if n >= 0 {
        push_two_digits(s, n as u64);
    } else {
        push_char(s, '-');
        push_two_digits(s, (-n) as u64);
        assert(s@ =~= start + field_text(n as int));
    }
}

/// Writes the second `t` counted from 1970-01-01T00:00:00 as
/// "%Y-%m-%d %H:%M:%S" (see `civil_text`).
pub fn civil_text_of(t: i64) -> (r: String)
    requires
        -8_600_000_000_000 <= t <= 8_600_000_000_000,
    ensures
        r@ == civil_text(t as int),
{
    let day = floor_div(t, 86_400);
    let sod = t - day * 86_400;
    proof {
        vstd::arithmetic::div_mod::lemma_fundamental_div_mod_converse(t as int, 86_400, day as int, sod as int);
    }
    let (y, m, d) = civil_from_days_of(day);
    let su: u64 = sod as u64;
    let mut s = String::new();
    push_year(&mut s, y);
    push_text(&mut s, "-");
    push_field(&mut s, m);
    push_text(&mut s, "-");
    push_field(&mut s, d);
    push_text(&mut s, " ");
    push_field(&mut s, (su / 3600) as i64);
    push_text(&mut s, ":");
    push_field(&mut s, ((su % 3600) / 60) as i64);
    push_text(&mut s, ":");
    push_field(&mut s, (su % 60) as i64);
    assert(s@ =~= civil_text(t as int));
    s
}

} // verus!
