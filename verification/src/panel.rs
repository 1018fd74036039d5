//! The drawing vocabulary of the terminal dashboards: colours, lines and
//! columns, compact amounts, bars and sparklines.

use vstd::prelude::*;
use vstd::string::*;

use crate::binary64::{
    divide, double_of, multiply, nearest, nearest_double, of_nat, product, quotient, rounded,
    rounded_to, scaled, scaled_of, Double,
};
use crate::bytes::{be_number, be_value};
use crate::logfmt::{append_clock, append_grouped, clock_text, grouped, grouped_int};
use crate::text::{
    append_digit, append_int, append_nat, append_repeated, append_two, chars_of, decimal,
    digit_char, hex_text, int_decimal, repeated, slice_string, two_digits,
};

verus! {

pub const RST: &'static str = "\x1b[0m";

pub const BOLD: &'static str = "\x1b[1m";

pub const DIM: &'static str = "\x1b[2m";

pub const RED: &'static str = "\x1b[38;5;203m";

pub const GRN: &'static str = "\x1b[38;5;47m";

pub const YEL: &'static str = "\x1b[38;5;221m";

pub const CYN: &'static str = "\x1b[38;5;87m";

pub const MAG: &'static str = "\x1b[38;5;213m";

pub const GRY: &'static str = "\x1b[38;5;245m";

pub const ORG: &'static str = "\x1b[38;5;215m";

/// One TRX in sun.
pub const SUN_PER_TRX: u128 = 1_000_000;

/// One dollar in USDT base units.
pub const USDT_UNITS_PER_DOLLAR: u128 = 1_000_000;

/// Selector of `transfer(address,uint256)`.
pub const SEL_TRANSFER: [u8; 4] = [0xa9, 0x05, 0x9c, 0xbb];

/// Selector of `transferFrom(address,address,uint256)`.
pub const SEL_TRANSFER_FROM: [u8; 4] = [0x23, 0xb8, 0x72, 0xdd];

/// The USDT contract's address in hexadecimal.
pub const USDT_ADDRESS_HEX: &'static str = "41a614f803b6fd780986a42c78ec9c7f77e6ded13c";

/// Appends each piece in turn.
pub fn join(a: &str, b: &str) -> (r: String)
    ensures
        r@ == a@ + b@,
{
    let mut s = a.to_owned();
    s.append(b);
    s
}

// ---------------------------------------------------------------------------
// Lines
// ---------------------------------------------------------------------------

/// A dashboard line: the rest of the row is cleared.
pub open spec fn line_text(content: Seq<char>) -> Seq<char> {
    content + "\x1b[K\r\n"@
}

/// A dashboard line.
pub fn line(content: &str) -> (r: String)
    ensures
        r@ == line_text(content@),
{
    join(content, "\x1b[K\r\n")
}

/// An empty dashboard line.
pub fn blank() -> (r: String)
    ensures
        r@ == "\x1b[K\r\n"@,
{
    "\x1b[K\r\n".to_owned()
}

/// A horizontal rule of `w` cells.
pub open spec fn rule_text(w: nat) -> Seq<char> {
    line_text(GRY@ + repeated('━', w) + RST@)
}

/// A horizontal rule of `w` cells.
pub fn rule(w: usize) -> (r: String)
    ensures
        r@ == rule_text(w as nat),
{
    let mut s = GRY.to_owned();
    append_repeated(&mut s, '━', w);
    s.append(RST);
    line(s.as_str())
}

/// A section heading, filled with dashes to the width `w`.
pub open spec fn section_text(title: Seq<char>, w: nat) -> Seq<char> {
    let taken = vstd::utf8::encode_utf8(title).len() + 6;
    let dashes = if w > taken {
        (w - taken) as nat
    } else {
        0
    };
    line_text("  "@ + BOLD@ + GRY@ + "── "@ + title + " "@ + repeated('─', dashes) + RST@)
}

/// A section heading.
pub fn section(title: &str, w: usize) -> (r: String)
    ensures
        r@ == section_text(title@, w as nat),
{
    let len: usize = title.as_bytes().len();
    let dashes: usize = if w > 6 && w - 6 > len { w - 6 - len } else { 0 };
    let mut s = "  ".to_owned();
    s.append(BOLD);
    s.append(GRY);
    s.append("── ");
    s.append(title);
    s.append(" ");
    append_repeated(&mut s, '─', dashes);
    s.append(RST);
    line(s.as_str())
}

/// How many cells a character takes: two for pictographs and symbols.
pub open spec fn cells(c: char) -> nat {
    if c as int >= 0x1F000 || '\u{2190}' <= c <= '\u{2BFF}' {
        2
    } else {
        1
    }
}

/// The cells that the rest of a text takes, escape sequences left out.
pub open spec fn visible_from(s: Seq<char>, in_escape: bool) -> nat
    decreases s.len(),
{
    if s.len() == 0 {
        0
    } else if in_escape {
        visible_from(s.skip(1), s[0] != 'm')
    } else if s[0] == '\x1b' {
        visible_from(s.skip(1), true)
    } else {
        cells(s[0]) + visible_from(s.skip(1), false)
    }
}

/// The cells that a text takes, escape sequences left out.
pub open spec fn visible(s: Seq<char>) -> nat {
    visible_from(s, false)
}

proof fn lemma_visible_bound(s: Seq<char>, in_escape: bool)
    ensures
        visible_from(s, in_escape) <= 2 * s.len(),
    decreases s.len(),
{
    if s.len() > 0 {
        lemma_visible_bound(s.skip(1), true);
        lemma_visible_bound(s.skip(1), false);
    }
}

/// The cells that a text takes, escape sequences left out.
pub fn visible_len(s: &str) -> (r: usize)
    requires
        2 * s@.len() <= usize::MAX,
    ensures
        r == visible(s@),
{
    let v = chars_of(s);
    let mut n: usize = 0;
    let mut in_esc = false;
    let mut i: usize = 0;
    assert(v@.skip(0) =~= v@);
    while i < v.len()
        invariant
            i <= v@.len(),
            2 * v@.len() <= usize::MAX,
            n + visible_from(v@.skip(i as int), in_esc) == visible(v@),
        decreases v@.len() - i,
    {
        let ghost rest = v@.skip(i as int);
        let c: char = v[i];
        assert(rest[0] == c);
        assert(rest.skip(1) =~= v@.skip(i + 1));
        proof {
            lemma_visible_bound(v@, false);
            lemma_visible_bound(rest, in_esc);
        }
        if in_esc {
            if c == 'm' {
                in_esc = false;
            }
        } else if c == '\x1b' {
            in_esc = true;
        } else if c >= '\u{1F000}' || ('\u{2190}' <= c && c <= '\u{2BFF}') {
            n = n + 2;
        } else {
            n = n + 1;
        }
        i = i + 1;
    }
    assert(v@.skip(i as int).len() == 0);
    n
}

/// One half of a two-column row.
pub open spec fn cell_text(icon: Seq<char>, label: Seq<char>, value: Seq<char>) -> Seq<char> {
    icon + " "@ + GRY@ + label + RST@ + " "@ + BOLD@ + value + RST@
}

fn cell(icon: &str, label: &str, value: &str) -> (r: String)
    ensures
        r@ == cell_text(icon@, label@, value@),
{
    let mut s = icon.to_owned();
    s.append(" ");
    s.append(GRY);
    s.append(label);
    s.append(RST);
    s.append(" ");
    s.append(BOLD);
    s.append(value);
    s.append(RST);
    s
}

/// A row of two cells, the second starting `colw` cells after the first.
pub open spec fn row_text(colw: nat, left: Seq<char>, right: Seq<char>) -> Seq<char> {
    let pad = if colw > visible(left) {
        (colw - visible(left)) as nat
    } else {
        0
    };
    line_text("   "@ + left + repeated(' ', pad) + right)
}

/// A row of two labelled values.
pub fn row2(colw: usize, i1: &str, l1: &str, v1: &str, i2: &str, l2: &str, v2: &str) -> (r: String)
    ensures
        r@ == row_text(
            colw as nat,
            cell_text(i1@, l1@, v1@),
            cell_text(i2@, l2@, v2@),
        ),
{
    let left = cell(i1, l1, v1);
    let right = cell(i2, l2, v2);
    let pad: usize = padding(colw, left.as_str());
    let mut s = "   ".to_owned();
    s.append(left.as_str());
    append_repeated(&mut s, ' ', pad);
    s.append(right.as_str());
    line(s.as_str())
}

/// How far `left` falls short of `colw` cells.
pub fn padding(colw: usize, left: &str) -> (r: usize)
    ensures
        r == (if colw > visible(left@) {
            colw - visible(left@)
        } else {
            0
        }),
{
    let v = chars_of(left);
    let mut n: usize = 0;
    let mut in_esc = false;
    let mut i: usize = 0;
    assert(v@.skip(0) =~= v@);
    while i < v.len() && n < colw
        invariant
            i <= v@.len(),
            n <= colw + 1,
            v@ == left@,
            n + visible_from(v@.skip(i as int), in_esc) == visible(v@),
        decreases v@.len() - i,
    {
        let ghost rest = v@.skip(i as int);
        let c: char = v[i];
        assert(rest[0] == c);
        assert(rest.skip(1) =~= v@.skip(i + 1));
        if in_esc {
            if c == 'm' {
                in_esc = false;
            }
        } else if c == '\x1b' {
            in_esc = true;
        } else if c >= '\u{1F000}' || ('\u{2190}' <= c && c <= '\u{2BFF}') {
            if colw - n <= 1 {
                return 0;
            }
            n = n + 2;
        } else {
            n = n + 1;
        }
        i = i + 1;
    }
    if n >= colw {
        0
    } else {
        assert(v@.skip(i as int).len() == 0);
        colw - n
    }
}

// ---------------------------------------------------------------------------
// Amounts and times
// ---------------------------------------------------------------------------

/// Thousands-separated integer.
pub fn commas(n: i64) -> (r: String)
    ensures
        r@ == grouped_int(n as int),
{
    crate::logfmt::commas(n)
}

/// A binary64 with two decimals.
pub open spec fn fixed2(x: (nat, int)) -> Seq<char> {
    let h = scaled(x, 100);
    decimal(h / 100) + "."@ + two_digits((h % 100) as int)
}

/// A binary64 with one decimal.
pub open spec fn fixed1(x: (nat, int)) -> Seq<char> {
    let h = scaled(x, 10);
    decimal(h / 10) + "."@ + seq![digit_char((h % 10) as int)]
}

/// A binary64 with no decimals.
pub open spec fn fixed0(x: (nat, int)) -> Seq<char> {
    decimal(scaled(x, 1))
}

/// A whole number divided by another, as binary64 does.
pub open spec fn over(n: nat, unit: nat) -> (nat, int) {
    nearest(of_nat(n).0, unit, of_nat(n).1)
}

/// Compact human count: `8,412`, `12.4K`, `850K`, `1.94M`, `1.92B`.
pub open spec fn compact_text(n: nat) -> Seq<char> {
    if n >= 1_000_000_000 {
        fixed2(over(n, 1_000_000_000)) + "B"@
    } else if n >= 1_000_000 {
        fixed2(over(n, 1_000_000)) + "M"@
    } else if n >= 100_000 {
        fixed0(over(n, 1_000)) + "K"@
    } else if n >= 10_000 {
        fixed1(over(n, 1_000)) + "K"@
    } else {
        grouped(n)
    }
}

/// Appends a binary64 with two decimals.
pub fn append_fixed2(out: &mut String, x: &Double)
    requires
        x.wf(),
        -4200 <= x.exp <= 68,
    ensures
        final(out)@ == old(out)@ + fixed2(x@),
{
    let h: u128 = scaled_of(x, 100);
    append_nat(out, h / 100);
    out.append(".");
    append_two(out, (h % 100) as u8);
    assert(out@ =~= old(out)@ + fixed2(x@));
}

/// Appends a binary64 with one decimal.
pub fn append_fixed1(out: &mut String, x: &Double)
    requires
        x.wf(),
        -4200 <= x.exp <= 68,
    ensures
        final(out)@ == old(out)@ + fixed1(x@),
{
    let h: u128 = scaled_of(x, 10);
    append_nat(out, h / 10);
    out.append(".");
    append_digit(out, (h % 10) as u8);
    assert(out@ =~= old(out)@ + fixed1(x@));
}

/// Appends a binary64 with no decimals.
pub fn append_fixed0(out: &mut String, x: &Double)
    requires
        x.wf(),
        -4200 <= x.exp <= 68,
    ensures
        final(out)@ == old(out)@ + fixed0(x@),
{
    append_nat(out, scaled_of(x, 1));
}

/// Compact human count: grouped digits below ten thousand, a unit from there on.
pub fn compact(n: u128) -> (r: String)
    ensures
        r@ == compact_text(n as nat),
{
    let mut out = String::new();
    if n >= 10_000 {
        let x = double_of(n);
        if n >= 1_000_000_000 {
            let d = nearest_double(x.mant as u128, 1_000_000_000, x.exp);
            append_fixed2(&mut out, &d);
            out.append("B");
        } else if n >= 1_000_000 {
            let d = nearest_double(x.mant as u128, 1_000_000, x.exp);
            append_fixed2(&mut out, &d);
            out.append("M");
        } else {
            let d = nearest_double(x.mant as u128, 1_000, x.exp);
            if n >= 100_000 {
                append_fixed0(&mut out, &d);
            } else {
                append_fixed1(&mut out, &d);
            }
            out.append("K");
        }
    } else {
        append_grouped(&mut out, n);
    }
    assert(out@ =~= compact_text(n as nat));
    out
}

/// A TRX amount, from sun.
pub open spec fn trx_text(sun: nat) -> Seq<char> {
    compact_text(sun / 1_000_000)
}

/// A TRX amount, from sun, as a compact human string.
pub fn human_trx(sun: u128) -> (r: String)
    ensures
        r@ == trx_text(sun as nat),
{
    compact(sun / SUN_PER_TRX)
}

/// A dollar amount, from USDT base units.
pub open spec fn usd_text(units: nat) -> Seq<char> {
    "$"@ + compact_text(units / 1_000_000)
}

/// A dollar amount, from USDT base units.
pub fn usd(units: u128) -> (r: String)
    ensures
        r@ == usd_text(units as nat),
{
    let c = compact(units / USDT_UNITS_PER_DOLLAR);
    join("$", c.as_str())
}

/// Milliseconds in whole seconds, the fraction cut off.
pub open spec fn whole_seconds(ms: int) -> int {
    if ms >= 0 {
        ms / 1000
    } else {
        -(-ms / 1000)
    }
}

/// Milliseconds in whole seconds.
pub fn seconds_of(ms: i64) -> (r: i64)
    ensures
        r == whole_seconds(ms as int),
        -9_223_372_036_854_775 <= r <= 9_223_372_036_854_775,
{
    if ms >= 0 {
        ms / 1000
    } else {
        -((-(ms as i128) / 1000) as i64)
    }
}

/// A duration in its top two units, from milliseconds.
pub open spec fn dur_text(ms: int) -> Seq<char> {
    let s = whole_seconds(ms);
    if s >= 3600 {
        int_decimal(s / 3600) + "h "@ + int_decimal(s % 3600 / 60) + "m"@
    } else if s >= 60 {
        int_decimal(s / 60) + "m "@ + int_decimal(s % 60) + "s"@
    } else {
        int_decimal(s) + "s"@
    }
}

/// A duration in its top two units, from milliseconds.
pub fn dur(ms: i64) -> (r: String)
    ensures
        r@ == dur_text(ms as int),
{
    let s: i64 = seconds_of(ms);
    let mut out = String::new();
    if s >= 3600 {
        append_int(&mut out, s / 3600);
        out.append("h ");
        append_int(&mut out, (s % 3600) / 60);
        out.append("m");
    } else if s >= 60 {
        append_int(&mut out, s / 60);
        out.append("m ");
        append_int(&mut out, s % 60);
        out.append("s");
    } else {
        append_int(&mut out, s);
        out.append("s");
    }
    assert(out@ =~= dur_text(ms as int));
    out
}

/// `s` cut to `max` characters, the last one an ellipsis where it was cut.
pub open spec fn trunc_text(s: Seq<char>, max: nat) -> Seq<char> {
    if s.len() <= max {
        s
    } else {
        s.take(if max > 0 {
            max - 1
        } else {
            0
        }) + "…"@
    }
}

/// `s` cut to `max` characters.
pub fn trunc(s: &str, max: usize) -> (r: String)
    ensures
        r@ == trunc_text(s@, max as nat),
{
    let v = chars_of(s);
    if v.len() <= max {
        s.to_owned()
    } else {
        let keep: usize = if max > 0 { max - 1 } else { 0 };
        let mut out = slice_string(&v, 0, keep);
        assert(out@ =~= s@.take(keep as int));
        out.append("…");
        out
    }
}

/// A millisecond unix timestamp as `YYYY-MM-DD HH:MM:SS UTC`.
pub open spec fn utc_stamp(ms: int) -> Seq<char> {
    if ms <= 0 {
        "—"@
    } else {
        clock_text(ms / 1000) + " UTC"@
    }
}

/// A millisecond unix timestamp as `YYYY-MM-DD HH:MM:SS UTC`.
pub fn utc(ms: i64) -> (r: String)
    ensures
        r@ == utc_stamp(ms as int),
{
    if ms <= 0 {
        return "—".to_owned();
    }
    let mut out = String::new();
    append_clock(&mut out, ms / 1000);
    out.append(" UTC");
    assert(out@ =~= utc_stamp(ms as int));
    out
}

// ---------------------------------------------------------------------------
// Bars
// ---------------------------------------------------------------------------

/// The sum of the counts.
pub open spec fn total(parts: Seq<(u64, Seq<char>)>) -> nat
    decreases parts.len(),
{
    if parts.len() == 0 {
        0
    } else {
        total(parts.drop_last()) + parts.last().0 as nat
    }
}

/// The cells of the part at `i` of a bar of `width` cells of which `used` are
/// taken: its share of the sum, the last part taking what is left.
pub open spec fn segment(parts: Seq<(u64, Seq<char>)>, i: int, used: nat, width: nat) -> nat {
    let left = (width - used) as nat;
    if i == parts.len() - 1 {
        left
    } else {
        rounded(
            product(
                quotient(of_nat(parts[i].0 as nat), of_nat(total(parts))),
                of_nat(width),
            ),
            left,
        )
    }
}

/// The bar from the part at `i` on.
pub open spec fn bar_from(parts: Seq<(u64, Seq<char>)>, i: int, used: nat, width: nat) -> Seq<char>
    decreases parts.len() - i,
{
    if i < 0 || i >= parts.len() {
        Seq::empty()
    } else {
        let n = segment(parts, i, used, width);
        (if n > 0 {
            parts[i].1 + repeated('█', n)
        } else {
            Seq::empty()
        }) + bar_from(parts, i + 1, used + n, width)
    }
}

/// A stacked proportion bar of `width` cells.
pub open spec fn bar_text(parts: Seq<(u64, Seq<char>)>, width: nat) -> Seq<char> {
    if total(parts) == 0 {
        DIM@ + repeated('░', width) + RST@
    } else {
        bar_from(parts, 0, 0, width) + RST@
    }
}

/// The parts of a bar as plain values.
pub open spec fn parts_view(parts: Seq<(u64, &'static str)>) -> Seq<(u64, Seq<char>)> {
    parts.map_values(|p: (u64, &'static str)| (p.0, p.1@))
}

/// The cells drawn from the part at `i` on.
pub open spec fn cells_from(parts: Seq<(u64, Seq<char>)>, i: int, used: nat, width: nat) -> nat
    decreases parts.len() - i,
{
    if i < 0 || i >= parts.len() {
        0
    } else {
        let n = segment(parts, i, used, width);
        n + cells_from(parts, i + 1, used + n, width)
    }
}

/// The bar is always exactly as wide as asked for: the last part absorbs what
/// rounding left over.
pub proof fn bar_fills_its_width(parts: Seq<(u64, Seq<char>)>, i: int, used: nat, width: nat)
    requires
        0 <= i < parts.len(),
        used <= width,
    ensures
        used + cells_from(parts, i, used, width) == width,
    decreases parts.len() - i,
{
    let n = segment(parts, i, used, width);
    if i < parts.len() - 1 {
        bar_fills_its_width(parts, i + 1, used + n, width);
    } else {
        assert(cells_from(parts, i + 1, used + n, width) == 0);
    }
}

/// A stacked, coloured proportion bar: each part gets its share of `width`
/// cells, and the last one what is left.
pub fn mix_bar(parts: &Vec<(u64, &'static str)>, width: usize) -> (r: String)
    requires
        total(parts_view(parts@)) <= u64::MAX,
    ensures
        r@ == bar_text(parts_view(parts@), width as nat),
{
    let ghost pv = parts_view(parts@);
    let mut sum: u64 = 0;
    let mut i: usize = 0;
    while i < parts.len()
        invariant
            i <= parts@.len(),
            pv == parts_view(parts@),
            total(pv) <= u64::MAX,
            sum == total(pv.take(i as int)),
        decreases parts@.len() - i,
    {
        proof {
            let next = pv.take(i + 1);
            assert(next.drop_last() =~= pv.take(i as int));
            assert(next.last() == (parts@[i as int].0, parts@[i as int].1@));
            lemma_total_prefix(pv, i + 1);
        }
        sum = sum + parts[i].0;
        i = i + 1;
    }
    assert(pv.take(i as int) =~= pv);
    if sum == 0 {
        let mut s = DIM.to_owned();
        append_repeated(&mut s, '░', width);
        s.append(RST);
        return s;
    }
    let sum_d = double_of(sum as u128);
    let width_d = double_of(width as u128);
    let mut bar = String::new();
    let mut used: usize = 0;
    let mut k: usize = 0;
    while k < parts.len()
        invariant
            k <= parts@.len(),
            pv == parts_view(parts@),
            used <= width,
            sum == total(pv),
            sum > 0,
            sum_d.wf(),
            sum_d.mant > 0,
            sum_d@ == of_nat(sum as nat),
            -52 <= sum_d.exp <= 76,
            width_d.wf(),
            width_d@ == of_nat(width as nat),
            -52 <= width_d.exp <= 76,
            bar@ + bar_from(pv, k as int, used as nat, width as nat) == bar_from(
                pv,
                0,
                0,
                width as nat,
            ),
        decreases parts@.len() - k,
    {
        let ghost before = bar@;
        let left: usize = width - used;
        assert(pv[k as int] == (parts@[k as int].0, parts@[k as int].1@));
        let seg: usize = if k == parts.len() - 1 {
            left
        } else {
            let c = double_of(parts[k].0 as u128);
            let q = divide(&c, &sum_d);
            let x = multiply(&q, &width_d);
            rounded_to(&x, left)
        };
        if seg > 0 {
            bar.append(parts[k].1);
            append_repeated(&mut bar, '█', seg);
        }
        assert(seg == segment(pv, k as int, used as nat, width as nat));
        let ghost tail = bar_from(pv, k + 1, (used + seg) as nat, width as nat);
        assert(bar@ + tail =~= before + bar_from(pv, k as int, used as nat, width as nat));
        used = used + seg;
        k = k + 1;
    }
    assert(bar@ =~= bar_from(pv, 0, 0, width as nat));
    bar.append(RST);
    bar
}

proof fn lemma_total_prefix(parts: Seq<(u64, Seq<char>)>, n: int)
    requires
        0 <= n <= parts.len(),
    ensures
        total(parts.take(n)) <= total(parts),
    decreases parts.len() - n,
{
    if n < parts.len() {
        lemma_total_prefix(parts, n + 1);
        assert(parts.take(n + 1).drop_last() =~= parts.take(n));
    } else {
        assert(parts.take(n) =~= parts);
    }
}

/// The greatest of the values, zero of none.
pub open spec fn greatest(v: Seq<u64>) -> u64
    decreases v.len(),
{
    if v.len() == 0 {
        0
    } else {
        let g = greatest(v.drop_last());
        if v.len() == 1 || v.last() > g {
            v.last()
        } else {
            g
        }
    }
}

/// The least of the values, zero of none.
pub open spec fn least(v: Seq<u64>) -> u64
    decreases v.len(),
{
    if v.len() == 0 {
        0
    } else {
        let l = least(v.drop_last());
        if v.len() == 1 || v.last() < l {
            v.last()
        } else {
            l
        }
    }
}

proof fn lemma_least_is_least(v: Seq<u64>, i: int)
    requires
        0 <= i < v.len(),
    ensures
        least(v) <= v[i] <= greatest(v),
    decreases v.len(),
{
    if i < v.len() - 1 {
        lemma_least_is_least(v.drop_last(), i);
    }
}

/// The eight bars of a sparkline.
pub open spec fn bar_char(level: nat) -> char {
    if level == 0 {
        '▁'
    } else if level == 1 {
        '▂'
    } else if level == 2 {
        '▃'
    } else if level == 3 {
        '▄'
    } else if level == 4 {
        '▅'
    } else if level == 5 {
        '▆'
    } else if level == 6 {
        '▇'
    } else {
        '█'
    }
}

/// The bar of `v` in a series from `lo` to `hi`.
pub open spec fn spark_char(v: u64, lo: u64, hi: u64) -> char {
    let span = if hi > lo {
        (hi - lo) as nat
    } else {
        1
    };
    bar_char(
        rounded(product(quotient(of_nat((v - lo) as nat), of_nat(span)), of_nat(7)), 7),
    )
}

/// Eight-level sparkline of a series of counts.
pub open spec fn sparkline_text(v: Seq<u64>) -> Seq<char> {
    v.map_values(|x: u64| spark_char(x, least(v), greatest(v)))
}

fn level_char(level: usize) -> (r: char)
    ensures
        r == bar_char(level as nat),
{
    if level == 0 {
        '▁'
    } else if level == 1 {
        '▂'
    } else if level == 2 {
        '▃'
    } else if level == 3 {
        '▄'
    } else if level == 4 {
        '▅'
    } else if level == 5 {
        '▆'
    } else if level == 6 {
        '▇'
    } else {
        '█'
    }
}

/// Eight-level sparkline of a series of counts.
pub fn sparkline(vals: &Vec<u64>) -> (r: String)
    ensures
        r@ == sparkline_text(vals@),
{
    let mut hi: u64 = 0;
    let mut lo: u64 = 0;
    let mut i: usize = 0;
    while i < vals.len()
        invariant
            i <= vals@.len(),
            hi == greatest(vals@.take(i as int)),
            lo == least(vals@.take(i as int)),
        decreases vals@.len() - i,
    {
        assert(vals@.take(i + 1).drop_last() =~= vals@.take(i as int));
        if i == 0 || vals[i] > hi {
            hi = vals[i];
        }
        if i == 0 || vals[i] < lo {
            lo = vals[i];
        }
        i = i + 1;
    }
    assert(vals@.take(i as int) =~= vals@);
    let span: u64 = if hi > lo { hi - lo } else { 1 };
    let span_d = double_of(span as u128);
    let seven = double_of(7);
    let mut out = String::new();
    let mut k: usize = 0;
    while k < vals.len()
        invariant
            k <= vals@.len(),
            lo == least(vals@),
            hi == greatest(vals@),
            span == (if hi > lo { (hi - lo) as u64 } else { 1 }),
            span_d.wf(),
            span_d.mant > 0,
            span_d@ == of_nat(span as nat),
            -52 <= span_d.exp <= 76,
            seven.wf(),
            seven@ == of_nat(7),
            -52 <= seven.exp <= 76,
            out@ == sparkline_text(vals@).take(k as int),
        decreases vals@.len() - k,
    {
        proof {
            lemma_least_is_least(vals@, k as int);
        }
        let v = double_of((vals[k] - lo) as u128);
        let q = divide(&v, &span_d);
        let x = multiply(&q, &seven);
        let level: usize = rounded_to(&x, 7);
        out.push(level_char(level));
        k = k + 1;
        assert(out@ =~= sparkline_text(vals@).take(k as int));
    }
    assert(sparkline_text(vals@).take(k as int) =~= sparkline_text(vals@));
    out
}

// ---------------------------------------------------------------------------
// Token calls
// ---------------------------------------------------------------------------

/// Whether an address is the USDT contract's.
pub open spec fn is_usdt(address: Seq<u8>) -> bool {
    hex_text(address) == USDT_ADDRESS_HEX@
}

/// The amount that a token call's data carries, in base units: the low 128
/// bits of the amount word of `transfer` and `transferFrom`.
pub open spec fn token_amount(data: Seq<u8>) -> Option<nat> {
    let at: int = if data.len() >= 4 && data.take(4) == SEL_TRANSFER@ {
        36
    } else if data.len() >= 4 && data.take(4) == SEL_TRANSFER_FROM@ {
        68
    } else {
        -1
    };
    if at < 0 || data.len() < at + 32 {
        None
    } else {
        Some(be_value(data.subrange(at + 16, at + 32)))
    }
}

/// The transfer amount that a token call's data carries.
pub fn usdt_amount(data: &[u8]) -> (r: Option<u128>)
    ensures
        match r {
            Some(v) => token_amount(data@) == Some(v as nat),
            None => token_amount(data@) is None,
        },
{
    if data.len() < 4 {
        return None;
    }
    let sel: [u8; 4] = [data[0], data[1], data[2], data[3]];
    assert(sel@ =~= data@.take(4));
    let at: usize = if sel[0] == 0xa9 && sel[1] == 0x05 && sel[2] == 0x9c && sel[3] == 0xbb {
        assert(sel@ =~= SEL_TRANSFER@);
        36
    } else if sel[0] == 0x23 && sel[1] == 0xb8 && sel[2] == 0x72 && sel[3] == 0xdd {
        assert(sel@ =~= SEL_TRANSFER_FROM@);
        assert(sel@[0] != SEL_TRANSFER@[0]);
        68
    } else {
        assert(sel@ != SEL_TRANSFER@) by {
            assert(SEL_TRANSFER@[0] == 0xa9 && SEL_TRANSFER@[1] == 0x05 && SEL_TRANSFER@[2] == 0x9c
                && SEL_TRANSFER@[3] == 0xbb);
        }
        assert(sel@ != SEL_TRANSFER_FROM@) by {
            assert(SEL_TRANSFER_FROM@[0] == 0x23 && SEL_TRANSFER_FROM@[1] == 0xb8
                && SEL_TRANSFER_FROM@[2] == 0x72 && SEL_TRANSFER_FROM@[3] == 0xdd);
        }
        return None;
    };
    if data.len() < at + 32 {
        return None;
    }
    Some(be_number(data, at + 16, 16))
}

/// Where a token call keeps its amount: the second word of `transfer`, the
/// third of `transferFrom`, of which the lower half counts. Any other call, and
/// one that breaks off before the end of that word, carries none.
pub proof fn amounts_stand_in_the_last_word(
    first: Seq<u8>,
    second: Seq<u8>,
    high: Seq<u8>,
    low: Seq<u8>,
    rest: Seq<u8>,
)
    requires
        first.len() == 32,
        second.len() == 32,
        high.len() == 16,
        low.len() == 16,
    ensures
        token_amount(seq![0xa9u8, 0x05u8, 0x9cu8, 0xbbu8] + first + high + low + rest) == Some(
            be_value(low),
        ),
        token_amount(seq![0x23u8, 0xb8u8, 0x72u8, 0xddu8] + first + second + high + low + rest)
            == Some(be_value(low)),
        token_amount(seq![0xa9u8, 0x05u8, 0x9cu8, 0xbbu8] + first + high + low.drop_last()) is None,
        token_amount(
            seq![0x23u8, 0xb8u8, 0x72u8, 0xddu8] + first + second + high + low.drop_last(),
        ) is None,
{
    let t = seq![0xa9u8, 0x05u8, 0x9cu8, 0xbbu8];
    let f = seq![0x23u8, 0xb8u8, 0x72u8, 0xddu8];
    assert(SEL_TRANSFER@ =~= t);
    assert(SEL_TRANSFER_FROM@ =~= f);
    assert(t[0] != f[0]);
    let a = t + first + high + low + rest;
    assert(a.take(4) =~= t);
    assert(a.subrange(52, 68) =~= low);
    let b = f + first + second + high + low + rest;
    assert(b.take(4) =~= f);
    assert(b.subrange(84, 100) =~= low);
    let c = t + first + high + low.drop_last();
    assert(c.take(4) =~= t);
    let d = f + first + second + high + low.drop_last();
    assert(d.take(4) =~= f);
}

/// Only the two transfer methods carry an amount.
pub proof fn other_calls_carry_no_amount(data: Seq<u8>)
    requires
        data.len() >= 4 ==> data[0] != 0xa9 && data[0] != 0x23,
    ensures
        token_amount(data) is None,
{
    if data.len() >= 4 {
        assert(data.take(4)[0] == data[0]);
        assert(SEL_TRANSFER@[0] == 0xa9);
        assert(SEL_TRANSFER_FROM@[0] == 0x23);
    }
}

/// A count is shown in full below ten thousand, in thousands below a million,
/// and then in millions and billions; an amount is counted in whole coins.
pub proof fn counts_are_shortened_by_size(n: nat, fraction: nat)
    requires
        fraction < 1_000_000,
    ensures
        n < 10_000 ==> compact_text(n) == grouped(n),
        10_000 <= n < 100_000 ==> compact_text(n) == fixed1(over(n, 1_000)) + "K"@,
        100_000 <= n < 1_000_000 ==> compact_text(n) == fixed0(over(n, 1_000)) + "K"@,
        1_000_000 <= n < 1_000_000_000 ==> compact_text(n) == fixed2(over(n, 1_000_000)) + "M"@,
        1_000_000_000 <= n ==> compact_text(n) == fixed2(over(n, 1_000_000_000)) + "B"@,
        trx_text(n * 1_000_000 + fraction) == compact_text(n),
        usd_text(n * 1_000_000 + fraction) == "$"@ + compact_text(n),
{
    vstd::arithmetic::div_mod::lemma_fundamental_div_mod_converse(
        (n * 1_000_000 + fraction) as int,
        1_000_000,
        n as int,
        fraction as int,
    );
}

/// A duration in its two greatest units.
pub proof fn durations_show_two_units(h: int, m: int, s: int, ms: int)
    requires
        0 <= h,
        0 <= m < 60,
        0 <= s < 60,
        0 <= ms < 1_000,
    ensures
        ({
            let t = ((h * 60 + m) * 60 + s) * 1_000 + ms;
            &&& whole_seconds(t) == (h * 60 + m) * 60 + s
            &&& h > 0 ==> dur_text(t) == int_decimal(h) + "h "@ + int_decimal(m) + "m"@
            &&& h == 0 && m > 0 ==> dur_text(t) == int_decimal(m) + "m "@ + int_decimal(s) + "s"@
            &&& h == 0 && m == 0 ==> dur_text(t) == int_decimal(s) + "s"@
        }),
        whole_seconds(-1_000 * s - ms) == -s,
{
    let t = ((h * 60 + m) * 60 + s) * 1_000 + ms;
    let w = (h * 60 + m) * 60 + s;
    assert(whole_seconds(t) == w);
    assert(w / 3600 == h);
    assert(w % 3600 / 60 == m);
}

/// A text is cut to the width asked for, and only where it is longer.
pub proof fn cut_texts_fit(s: Seq<char>, max: nat)
    requires
        max > 0,
    ensures
        s.len() <= max ==> trunc_text(s, max) == s,
        s.len() > max ==> trunc_text(s, max).len() == max && trunc_text(s, max).last() == '…',
        s.len() > max ==> trunc_text(s, max).drop_last() == s.take(max - 1),
{
    reveal_strlit("…");
    if s.len() > max {
        assert(trunc_text(s, max).drop_last() =~= s.take(max - 1));
    }
}

/// The cells of a text add up, colours take none, and a pictograph takes two.
pub proof fn cells_add_up(a: Seq<char>, c: char, b: Seq<char>)
    requires
        forall|i: int| 0 <= i < a.len() ==> #[trigger] a[i] != '\x1b',
    ensures
        visible(a + b) == visible(a) + visible(b),
        visible(Seq::empty()) == 0,
        c != '\x1b' ==> visible(seq![c] + b) == cells(c) + visible(b),
        c as int >= 0x1F000 ==> cells(c) == 2,
        '\u{2190}' <= c <= '\u{2BFF}' ==> cells(c) == 2,
        (c as int) < 0x2190 ==> cells(c) == 1,
        0x2BFF < c as int && (c as int) < 0x1F000 ==> cells(c) == 1,
    decreases a.len(),
{
    assert((seq![c] + b).skip(1) =~= b);
    assert((seq![c] + b)[0] == c);
    if a.len() == 0 {
        assert(a + b =~= b);
    } else {
        let t = a.skip(1);
        assert((a + b).skip(1) =~= t + b);
        assert forall|i: int| 0 <= i < t.len() implies #[trigger] t[i] != '\x1b' by {
            assert(t[i] == a[i + 1]);
        }
        cells_add_up(t, c, b);
    }
}

/// The greatest and the least value of a series are of it, and bound it.
pub proof fn series_lie_between_their_ends(v: Seq<u64>, i: int)
    requires
        0 <= i < v.len(),
    ensures
        least(v) <= v[i] <= greatest(v),
        v.contains(least(v)),
        v.contains(greatest(v)),
    decreases v.len(),
{
    lemma_least_is_least(v, i);
    if v.len() == 1 {
        assert(v[0] == least(v) && v[0] == greatest(v));
    } else {
        let w = v.drop_last();
        series_lie_between_their_ends(w, 0);
        let a = choose|a: int| 0 <= a < w.len() && w[a] == least(w);
        let b = choose|b: int| 0 <= b < w.len() && w[b] == greatest(w);
        assert(v[a] == least(w) && v[b] == greatest(w));
        assert(v[v.len() - 1] == v.last());
    }
}

/// The second value of a row starts as many cells after the first as asked for,
/// and right behind it where the first is wider; a heading is filled up to its
/// width.
pub proof fn columns_line_up(colw: nat, left: Seq<char>, right: Seq<char>, title: Seq<char>, w: nat)
    ensures
        visible(left) <= colw ==> row_text(colw, left, right) == line_text(
            "   "@ + left + repeated(' ', (colw - visible(left)) as nat) + right,
        ),
        visible(left) > colw ==> row_text(colw, left, right) == line_text(
            "   "@ + left + repeated(' ', 0) + right,
        ),
        vstd::utf8::encode_utf8(title).len() + 6 <= w ==> section_text(title, w) == line_text(
            "  "@ + BOLD@ + GRY@ + "── "@ + title + " "@ + repeated(
                '─',
                (w - 6 - vstd::utf8::encode_utf8(title).len()) as nat,
            ) + RST@,
        ),
{
}

} // verus!
