//! Formatting helpers for human-readable logs: thousands-separated counts, a
//! UTC wall clock for block timestamps, and coarse "3d 2h" durations.

use vstd::prelude::*;
use vstd::string::*;

use crate::text::{
    append_int, append_nat, append_pad_left, append_three, append_two, decimal, digit_char,
    int_decimal, nat_string, pad_left, three_digits, two_digits,
};

verus! {

/// Thousands-separated rendering of a natural number.
pub open spec fn grouped(n: nat) -> Seq<char>
    decreases n,
{
    if n < 1000 {
        decimal(n)
    } else {
        grouped(n / 1000).push(',') + three_digits((n % 1000) as int)
    }
}

/// Thousands-separated rendering of an integer.
pub open spec fn grouped_int(i: int) -> Seq<char> {
    if i < 0 {
        seq!['-'] + grouped((-i) as nat)
    } else {
        grouped(i as nat)
    }
}

/// Appends the thousands-separated rendering of `n`.
pub fn append_grouped(out: &mut String, n: u128)
    ensures
        final(out)@ == old(out)@ + grouped(n as nat),
    decreases n,
{
    if n < 1000 {
        append_nat(out, n);
    } else {
        append_grouped(out, n / 1000);
        out.push(',');
        append_three(out, (n % 1000) as u16);
        assert(out@ =~= old(out)@ + grouped(n as nat));
    }
}

/// Thousands-separated integer: `83344101` becomes `"83,344,101"`.
pub fn commas(n: i64) -> (r: String)
    ensures
        r@ == grouped_int(n as int),
{
    let mut out = String::new();
    if n < 0 {
        out.push('-');
        append_grouped(&mut out, (-(n as i128)) as u128);
    } else {
        append_grouped(&mut out, n as u128);
    }
    assert(out@ =~= grouped_int(n as int));
    out
}

/// Three digits appended to a rendering are the rendering of the number
/// scaled by one thousand.
proof fn lemma_decimal_thousand(n: nat)
    requires
        n >= 1000,
    ensures
        decimal(n) == decimal(n / 1000) + three_digits((n % 1000) as int),
{
    assert(decimal(n) == decimal(n / 10).push(digit_char((n % 10) as int)));
    let a = n / 10;
    assert(decimal(a) == decimal(a / 10).push(digit_char((a % 10) as int)));
    let b = a / 10;
    assert(decimal(b) == decimal(b / 10).push(digit_char((b % 10) as int)));
    assert(b / 10 == n / 1000);
    let k = (n % 1000) as int;
    assert(k / 100 == b % 10);
    assert(k / 10 % 10 == a % 10);
    assert(k % 10 == n % 10);
    assert(decimal(n) =~= decimal(n / 1000) + three_digits(k));
}

proof fn lemma_decimal_has_no_comma(n: nat)
    ensures
        forall|i: int| 0 <= i < decimal(n).len() ==> #[trigger] decimal(n)[i] != ',',
    decreases n,
{
    if n >= 10 {
        lemma_decimal_has_no_comma(n / 10);
        let head = decimal(n / 10);
        assert(decimal(n) == head.push(digit_char((n % 10) as int)));
        assert forall|i: int| 0 <= i < decimal(n).len() implies #[trigger] decimal(n)[i] != ',' by {
            if i < head.len() {
                assert(decimal(n)[i] == head[i]);
            }
        }
    } else {
        assert(decimal(n) == seq![digit_char(n as int)]);
    }
}

proof fn lemma_filter_all<T>(s: Seq<T>, keep: spec_fn(T) -> bool)
    requires
        forall|i: int| 0 <= i < s.len() ==> keep(#[trigger] s[i]),
    ensures
        s.filter(keep) == s,
    decreases s.len(),
{
    reveal(Seq::filter);
    if s.len() > 0 {
        lemma_filter_all(s.drop_last(), keep);
        assert(s =~= s.drop_last().push(s.last()));
    }
}

/// Grouping only inserts separators: with the commas taken out, the rendering
/// is the plain decimal one.
pub proof fn grouping_keeps_the_digits(n: nat)
    ensures
        grouped(n).filter(|c: char| c != ',') == decimal(n),
    decreases n,
{
    let keep = |c: char| c != ',';
    lemma_decimal_has_no_comma(n);
    if n < 1000 {
        lemma_filter_all(decimal(n), keep);
    } else {
        grouping_keeps_the_digits(n / 1000);
        lemma_decimal_thousand(n);
        let tail = three_digits((n % 1000) as int);
        let head = grouped(n / 1000).push(',');
        Seq::filter_distributes_over_add(head, tail, keep);
        assert(head.filter(keep) =~= decimal(n / 1000)) by {
            reveal(Seq::filter);
            assert(head.drop_last() =~= grouped(n / 1000));
        }
        lemma_filter_all(tail, keep);
    }
}

// ---------------------------------------------------------------------------
// The proleptic Gregorian calendar
// ---------------------------------------------------------------------------

pub open spec fn leap_year(y: int) -> bool {
    y % 4 == 0 && (y % 100 != 0 || y % 400 == 0)
}

/// Days between 1 January of year 1 and 1 January of year `y`.
pub open spec fn days_before_year(y: int) -> int {
    365 * (y - 1) + (y - 1) / 4 - (y - 1) / 100 + (y - 1) / 400
}

/// Days of year `y` before the first of month `m`.
pub open spec fn days_before_month(y: int, m: int) -> int {
    let feb = if leap_year(y) { 29int } else { 28int };
    if m == 1 { 0 }
    else if m == 2 { 31 }
    else if m == 3 { 31 + feb }
    else if m == 4 { 62 + feb }
    else if m == 5 { 92 + feb }
    else if m == 6 { 123 + feb }
    else if m == 7 { 153 + feb }
    else if m == 8 { 184 + feb }
    else if m == 9 { 215 + feb }
    else if m == 10 { 245 + feb }
    else if m == 11 { 276 + feb }
    else { 306 + feb }
}

pub open spec fn days_in_month(y: int, m: int) -> int {
    if m == 2 {
        if leap_year(y) { 29 } else { 28 }
    } else if m == 4 || m == 6 || m == 9 || m == 11 {
        30
    } else {
        31
    }
}

pub open spec fn valid_date(y: int, m: int, d: int) -> bool {
    1 <= m <= 12 && 1 <= d <= days_in_month(y, m)
}

/// Days from 1 January 1970 to the date `y`-`m`-`d`.
pub open spec fn days_since_epoch(y: int, m: int, d: int) -> int {
    days_before_year(y) + days_before_month(y, m) + d - 1 - 719162
}

/// Dates follow one another: of two valid dates the earlier one, by year, then
/// month, then day, has the smaller day count.
pub proof fn day_counts_follow_the_calendar(y1: int, m1: int, d1: int, y2: int, m2: int, d2: int)
    requires
        valid_date(y1, m1, d1),
        valid_date(y2, m2, d2),
        y1 < y2 || (y1 == y2 && (m1 < m2 || (m1 == m2 && d1 < d2))),
    ensures
        days_since_epoch(y1, m1, d1) < days_since_epoch(y2, m2, d2),
{
    if y1 < y2 {
        assert(days_before_month(y1, m1) + d1 <= 365 + if leap_year(y1) { 1int } else { 0int });
        assert(days_before_year(y1 + 1) == days_before_year(y1) + 365 + if leap_year(y1) {
            1int
        } else {
            0int
        }) by {
            lemma_year_length(y1);
        }
        assert(days_before_year(y1 + 1) <= days_before_year(y2));
    }
}

proof fn lemma_year_length(y: int)
    ensures
        days_before_year(y + 1) == days_before_year(y) + 365 + if leap_year(y) {
            1int
        } else {
            0int
        },
{
    assert(y / 4 == (y - 1) / 4 + if y % 4 == 0 { 1int } else { 0int });
    assert(y / 100 == (y - 1) / 100 + if y % 100 == 0 { 1int } else { 0int });
    assert(y / 400 == (y - 1) / 400 + if y % 400 == 0 { 1int } else { 0int });
}

/// The calendar date of a day count: the one valid date with that count.
pub open spec fn civil(days: int) -> (int, int, int) {
    choose|t: (int, int, int)| #[trigger]
        valid_date(t.0, t.1, t.2) && days_since_epoch(t.0, t.1, t.2) == days
}

/// A day count belongs to at most one date.
pub proof fn civil_date_is_unique(y: int, m: int, d: int)
    requires
        valid_date(y, m, d),
    ensures
        civil(days_since_epoch(y, m, d)) == (y, m, d),
{
    let days = days_since_epoch(y, m, d);
    let t0 = (y, m, d);
    assert(valid_date(t0.0, t0.1, t0.2) && days_since_epoch(t0.0, t0.1, t0.2) == days);
    let t = civil(days);
    assert(valid_date(t.0, t.1, t.2) && days_since_epoch(t.0, t.1, t.2) == days);
    if t != t0 {
        if t.0 < y || (t.0 == y && (t.1 < m || (t.1 == m && t.2 < d))) {
            day_counts_follow_the_calendar(t.0, t.1, t.2, y, m, d);
        } else {
            day_counts_follow_the_calendar(y, m, d, t.0, t.1, t.2);
        }
    }
}

/// Days from 1 March of year 0 to 1 March of year `y`.
spec fn march_start(y: int) -> int {
    365 * y + y / 4 - y / 100 + y / 400
}

/// The year of era that the closed formula finds, and the day within it.
proof fn lemma_year_of_era(doe: int, yoe: int, doy: int)
    requires
        0 <= doe < 146_097,
        yoe == (doe - doe / 1460 + doe / 36_524 - doe / 146_096) / 365,
        doy == doe - (365 * yoe + yoe / 4 - yoe / 100),
    ensures
        0 <= yoe <= 399,
        0 <= doy <= 365,
        doy == 365 ==> leap_year(yoe + 1),
{
    let c = if doe / 36_524 > 3 { 3int } else { doe / 36_524 };
    let r = doe - 36_524 * c;
    let k = r / 1461;
    let s = r - 1461 * k;
    assert(0 <= c <= 3);
    assert(0 <= r <= 36_524);
    assert(0 <= k <= 24) by {
        assert(r < 1461 * 25);
    }
    assert(0 <= s <= 1460);
    let e = if 24 * c + k + s >= 1460 { 1int } else { 0int };
    if doe == 146_096 {
        assert(c == 3 && r == 36_524 && k == 24 && s == 1460);
        assert(doe / 1460 == 100 && doe / 36_524 == 4 && doe / 146_096 == 1);
        assert(yoe == 399);
    } else {
        assert(doe / 36_524 == c);
        assert(doe / 146_096 == 0);
        assert(doe / 1460 == 25 * c + k + e) by {
            assert(doe == 1460 * (25 * c + k) + (24 * c + k + s));
        }
        assert(doe - doe / 1460 + doe / 36_524 - doe / 146_096 == 365 * (100 * c + 4 * k) + s - e);
        let j = if s >= 1095 { 3int } else { s / 365 };
        assert(0 <= s - e - 365 * j < 365);
        assert(yoe == 100 * c + 4 * k + j);
        assert(yoe / 4 == 25 * c + k);
        assert(yoe / 100 == c);
        assert(doy == s - 365 * j);
        if doy == 365 {
            assert(j == 3 && s == 1460);
            assert(k < 24);
            assert((yoe + 1) % 4 == 0) by {
                assert(yoe + 1 == 4 * (25 * c + k + 1));
            }
            assert((yoe + 1) % 100 != 0) by {
                assert(yoe + 1 == 100 * c + 4 * (k + 1));
            }
        }
    }
}

/// The month, counted from March, that a day of a March-based year falls in.
proof fn lemma_march_month(y: int, doy: int, mp: int)
    requires
        0 <= doy <= 365,
        doy == 365 ==> leap_year(y + 1),
        mp == (5 * doy + 2) / 153,
    ensures
        0 <= mp <= 11,
        ({
            let d = doy - (153 * mp + 2) / 5 + 1;
            if mp < 10 {
                &&& valid_date(y, mp + 3, d)
                &&& days_before_month(y, mp + 3) + d - 1 == doy + days_before_month(y, 3)
            } else {
                &&& valid_date(y + 1, mp - 9, d)
                &&& days_before_month(y + 1, mp - 9) + d - 1 == doy - 306
            }
        }),
{
    assert(mp == 0 || mp == 1 || mp == 2 || mp == 3 || mp == 4 || mp == 5 || mp == 6 || mp == 7
        || mp == 8 || mp == 9 || mp == 10 || mp == 11);
}

/// Putting the pieces of the closed formula together again.
proof fn lemma_civil(z: int, era: int, doe: int, yoe: int, doy: int, mp: int, year: int, m: int, d: int)
    requires
        z + 719_468 == 146_097 * era + doe,
        0 <= doe < 146_097,
        yoe == (doe - doe / 1460 + doe / 36_524 - doe / 146_096) / 365,
        doy == doe - (365 * yoe + yoe / 4 - yoe / 100),
        mp == (5 * doy + 2) / 153,
        d == doy - (153 * mp + 2) / 5 + 1,
        m == if mp < 10 { mp + 3 } else { mp - 9 },
        year == yoe + era * 400 + if m <= 2 { 1int } else { 0int },
    ensures
        0 <= yoe <= 399,
        0 <= doy <= 365,
        0 <= mp <= 11,
        valid_date(year, m, d),
        days_since_epoch(year, m, d) == z,
{
    lemma_year_of_era(doe, yoe, doy);
    let y = yoe + era * 400;
    assert(y / 4 == yoe / 4 + 100 * era);
    assert(y / 100 == yoe / 100 + 4 * era);
    assert(y / 400 == era);
    assert(z + 719_468 == march_start(y) + doy);
    assert(leap_year(y + 1) == leap_year(yoe + 1)) by {
        assert((y + 1) % 400 == (yoe + 1) % 400);
        assert((y + 1) % 100 == (yoe + 1) % 100);
        assert((y + 1) % 4 == (yoe + 1) % 4);
    }
    lemma_march_month(y, doy, mp);
    lemma_year_length(y);
    assert(days_before_year(y + 1) == march_start(y));
}

/// Every day count has a date.
pub proof fn every_day_has_a_date(days: int)
    ensures
        valid_date(civil(days).0, civil(days).1, civil(days).2),
        days_since_epoch(civil(days).0, civil(days).1, civil(days).2) == days,
{
    let era = (days + 719_468) / 146_097;
    let doe = days + 719_468 - era * 146_097;
    let yoe = (doe - doe / 1460 + doe / 36_524 - doe / 146_096) / 365;
    let doy = doe - (365 * yoe + yoe / 4 - yoe / 100);
    let mp = (5 * doy + 2) / 153;
    let d = doy - (153 * mp + 2) / 5 + 1;
    let m = if mp < 10 { mp + 3 } else { mp - 9 };
    let year = yoe + era * 400 + if m <= 2 { 1int } else { 0int };
    lemma_civil(days, era, doe, yoe, doy, mp, year, m, d);
    civil_date_is_unique(year, m, d);
}

/// The date after `y`-`m`-`d` in the proleptic Gregorian calendar.
pub open spec fn day_after(y: int, m: int, d: int) -> (int, int, int) {
    if d < days_in_month(y, m) {
        (y, m, d + 1)
    } else if m < 12 {
        (y, m + 1, 1)
    } else {
        (y + 1, 1, 1)
    }
}

/// Day zero is 1 January 1970, and each day count, before it and after, has the
/// date after that of the count before.
pub proof fn dates_count_up(days: int)
    ensures
        civil(0) == (1970int, 1int, 1int),
        civil(days + 1) == day_after(civil(days).0, civil(days).1, civil(days).2),
{
    civil_date_is_unique(1970, 1, 1);
    every_day_has_a_date(days);
    let (y, m, d) = civil(days);
    let (y2, m2, d2) = day_after(y, m, d);
    lemma_year_length(y);
    civil_date_is_unique(y2, m2, d2);
}

/// `(year, month, day)` for a count of days since the Unix epoch, negative
/// before it.
pub fn civil_from_days(z: i64) -> (r: (i64, u32, u32))
    requires
        z <= i64::MAX - 719_468,
    ensures
        z >= 0 ==> r.0 >= 1970,
        valid_date(r.0 as int, r.1 as int, r.2 as int),
        days_since_epoch(r.0 as int, r.1 as int, r.2 as int) == z,
        (r.0 as int, r.1 as int, r.2 as int) == civil(z as int),
{
    let z0: i64 = z + 719_468;
    let era: i64 = if z0 >= 0 { z0 / 146_097 } else { -((146_096 - z0) / 146_097) };
    let doe: i64 = z0 - era * 146_097;
    let yoe: i64 = (doe - doe / 1460 + doe / 36_524 - doe / 146_096) / 365;
    let ghost doyi = doe as int - (365 * yoe + yoe as int / 4 - yoe as int / 100);
    let ghost mpi = (5 * doyi + 2) / 153;
    let ghost mi = if mpi < 10 { mpi + 3 } else { mpi - 9 };
    let ghost di = doyi - (153 * mpi + 2) / 5 + 1;
    let ghost yi = yoe + era * 400 + if mi <= 2 { 1int } else { 0int };
    proof {
        lemma_civil(z as int, era as int, doe as int, yoe as int, doyi, mpi, yi, mi, di);
        civil_date_is_unique(yi, mi, di);
        if z >= 0 && yi < 1970 {
            day_counts_follow_the_calendar(yi, mi, di, 1970, 1, 1);
        }
    }
    let y: i64 = yoe + era * 400;
    let doy: i64 = doe - (365 * yoe + yoe / 4 - yoe / 100);
    let mp: i64 = (5 * doy + 2) / 153;
    let d: u32 = (doy - (153 * mp + 2) / 5 + 1) as u32;
    let m: u32 = if mp < 10 { (mp + 3) as u32 } else { (mp - 9) as u32 };
    let year: i64 = if m <= 2 { y + 1 } else { y };
    (year, m, d)
}

/// `"YYYY-MM-DD HH:MM:SS"` of a count of seconds since the Unix epoch.
pub open spec fn clock_text(secs: int) -> Seq<char> {
    let date = civil(secs / 86_400);
    let sod = secs % 86_400;
    (pad_left(decimal(date.0 as nat), 4, '0').push('-') + two_digits(date.1)).push('-')
        + two_digits(date.2) + seq![' '] + two_digits(sod / 3600) + seq![':'] + two_digits(
        sod % 3600 / 60,
    ) + seq![':'] + two_digits(sod % 60)
}

/// What [`utc_millis`] renders.
pub open spec fn utc_text(ms: int) -> Seq<char> {
    if ms <= 0 {
        "—"@
    } else {
        clock_text(ms / 1000).push('Z')
    }
}

/// What [`log_timestamp`] renders.
pub open spec fn log_timestamp_text(ms: int) -> Seq<char> {
    let t = if ms < 0 { 0 } else { ms };
    clock_text(t / 1000).push('.') + three_digits(t % 1000)
}

/// Appends the date and time of day of `secs`.
pub fn append_clock(out: &mut String, secs: i64)
    requires
        0 <= secs <= 9_223_372_036_854_775,
    ensures
        final(out)@ == old(out)@ + clock_text(secs as int),
{
    let days: i64 = secs / 86_400;
    let sod: i64 = secs % 86_400;
    let date = civil_from_days(days);
    let year = nat_string(date.0 as u128);
    append_pad_left(out, year.as_str(), 4, '0');
    out.push('-');
    append_two(out, date.1 as u8);
    out.push('-');
    append_two(out, date.2 as u8);
    out.push(' ');
    append_two(out, (sod / 3600) as u8);
    out.push(':');
    append_two(out, ((sod % 3600) / 60) as u8);
    out.push(':');
    append_two(out, (sod % 60) as u8);
    assert(out@ =~= old(out)@ + clock_text(secs as int));
}

/// Epoch-millis as `"YYYY-MM-DD HH:MM:SSZ"` (UTC). Non-positive input (an
/// unset timestamp) renders as an em dash.
pub fn utc_millis(ms: i64) -> (r: String)
    ensures
        r@ == utc_text(ms as int),
{
    if ms <= 0 {
        return "—".to_owned();
    }
    let mut out = String::new();
    append_clock(&mut out, ms / 1000);
    out.push('Z');
    assert(out@ =~= utc_text(ms as int));
    out
}

/// Epoch-millis as `"YYYY-MM-DD HH:MM:SS.mmm"` (UTC). Negative input clamps to
/// the epoch.
pub fn log_timestamp(ms: i64) -> (r: String)
    ensures
        r@ == log_timestamp_text(ms as int),
{
    let t: i64 = if ms < 0 { 0 } else { ms };
    let mut out = String::new();
    append_clock(&mut out, t / 1000);
    out.push('.');
    append_three(&mut out, (t % 1000) as u16);
    assert(out@ =~= log_timestamp_text(ms as int));
    out
}

/// What [`duration_ms`] renders: the top two units.
pub open spec fn duration_text(ms: int) -> Seq<char> {
    let secs = ms / 1000;
    let d = secs / 86_400;
    let h = secs % 86_400 / 3600;
    let m = secs % 3600 / 60;
    let s = secs % 60;
    if ms <= 0 {
        "0s"@
    } else if d > 0 {
        int_decimal(d) + "d "@ + int_decimal(h) + "h"@
    } else if h > 0 {
        int_decimal(h) + "h "@ + int_decimal(m) + "m"@
    } else if m > 0 {
        int_decimal(m) + "m "@ + int_decimal(s) + "s"@
    } else {
        int_decimal(s) + "s"@
    }
}

/// Coarse human duration from millis, top two units: `"3d 2h"`, `"5m 12s"`,
/// `"4s"`. Non-positive renders as `"0s"`.
pub fn duration_ms(ms: i64) -> (r: String)
    ensures
        r@ == duration_text(ms as int),
{
    if ms <= 0 {
        return "0s".to_owned();
    }
    let secs: i64 = ms / 1000;
    let d: i64 = secs / 86_400;
    let h: i64 = (secs % 86_400) / 3600;
    let m: i64 = (secs % 3600) / 60;
    let s: i64 = secs % 60;
    let mut out = String::new();
    if d > 0 {
        append_int(&mut out, d);
        out.append("d ");
        append_int(&mut out, h);
        out.append("h");
    } else if h > 0 {
        append_int(&mut out, h);
        out.append("h ");
        append_int(&mut out, m);
        out.append("m");
    } else if m > 0 {
        append_int(&mut out, m);
        out.append("m ");
        append_int(&mut out, s);
        out.append("s");
    } else {
        append_int(&mut out, s);
        out.append("s");
    }
    assert(out@ =~= duration_text(ms as int));
    out
}

/// A duration in its two greatest units that are not zero from the top.
pub proof fn durations_show_the_top_units(d: int, h: int, m: int, s: int, ms: int)
    requires
        0 <= d,
        0 <= h < 24,
        0 <= m < 60,
        0 <= s < 60,
        0 <= ms < 1_000,
    ensures
        ({
            let t = (((d * 24 + h) * 60 + m) * 60 + s) * 1_000 + ms;
            &&& d > 0 ==> duration_text(t) == int_decimal(d) + "d "@ + int_decimal(h) + "h"@
            &&& d == 0 && h > 0 ==> duration_text(t) == int_decimal(h) + "h "@ + int_decimal(m)
                + "m"@
            &&& d == 0 && h == 0 && m > 0 ==> duration_text(t) == int_decimal(m) + "m "@
                + int_decimal(s) + "s"@
            &&& d == 0 && h == 0 && m == 0 && t > 0 ==> duration_text(t) == int_decimal(s) + "s"@
        }),
        duration_text(0) == "0s"@,
        duration_text(-1 - ms) == "0s"@,
{
    let t = (((d * 24 + h) * 60 + m) * 60 + s) * 1_000 + ms;
    let secs = ((d * 24 + h) * 60 + m) * 60 + s;
    assert(t / 1000 == secs);
    assert(secs / 86_400 == d);
    assert(secs % 86_400 == (h * 60 + m) * 60 + s);
    assert(((h * 60 + m) * 60 + s) / 3600 == h);
    assert(secs % 3600 == m * 60 + s);
    assert((m * 60 + s) / 60 == m);
    assert(secs % 60 == s);
}

/// A moment is shown by its date and its time of day.
pub proof fn moments_are_shown_by_the_clock(
    y: int,
    mo: int,
    day: int,
    h: int,
    mi: int,
    s: int,
    ms: int,
)
    requires
        y >= 1970,
        valid_date(y, mo, day),
        0 <= h < 24,
        0 <= mi < 60,
        0 <= s < 60,
        0 <= ms < 1_000,
        days_since_epoch(y, mo, day) >= 0,
    ensures
        ({
            let secs = days_since_epoch(y, mo, day) * 86_400 + (h * 60 + mi) * 60 + s;
            let shown = pad_left(decimal(y as nat), 4, '0') + seq!['-'] + two_digits(mo) + seq!['-']
                + two_digits(day) + seq![' '] + two_digits(h) + seq![':'] + two_digits(mi)
                + seq![':'] + two_digits(s);
            &&& clock_text(secs) == shown
            &&& log_timestamp_text(secs * 1_000 + ms) == shown + seq!['.'] + three_digits(ms)
            &&& secs * 1_000 + ms > 0 ==> utc_text(secs * 1_000 + ms) == shown + seq!['Z']
        }),
{
    let days = days_since_epoch(y, mo, day);
    let sod = (h * 60 + mi) * 60 + s;
    let secs = days * 86_400 + sod;
    civil_date_is_unique(y, mo, day);
    assert(secs / 86_400 == days);
    assert(secs % 86_400 == sod);
    assert(sod / 3600 == h);
    assert(sod % 3600 / 60 == mi);
    assert(sod % 60 == s);
    let t = secs * 1_000 + ms;
    assert(t / 1000 == secs && t % 1000 == ms);
    let shown = pad_left(decimal(y as nat), 4, '0') + seq!['-'] + two_digits(mo) + seq!['-']
        + two_digits(day) + seq![' '] + two_digits(h) + seq![':'] + two_digits(mi) + seq![':']
        + two_digits(s);
    assert(clock_text(secs) =~= shown);
    assert(log_timestamp_text(t) =~= shown + seq!['.'] + three_digits(ms));
    if t > 0 {
        assert(utc_text(t) =~= shown + seq!['Z']);
    }
}

} // verus!
