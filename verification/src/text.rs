//! Text building blocks: decimal and hexadecimal renderings, number parsing,
//! and the few string operations the rest of the library leans on.

use vstd::prelude::*;
use vstd::string::*;

verus! {

/// `String::push`: appends one character to the end of the string.
pub assume_specification[ String::push ](s: &mut String, c: char)
    ensures
        final(s)@ == old(s)@.push(c),
;

/// Whether two strings hold the same characters: `str`'s `==`.
#[verifier::external_body]
pub(crate) fn str_eq(a: &str, b: &str) -> (r: bool)
    ensures
        r == (a@ == b@),
{
    a == b
}

/// The character of a decimal digit.
pub open spec fn digit_char(d: int) -> char {
    ((48 + d) as u8) as char
}

/// The decimal rendering of a natural number, without leading zeros.
pub open spec fn decimal(n: nat) -> Seq<char>
    decreases n,
{
    if n < 10 {
        seq![digit_char(n as int)]
    } else {
        decimal(n / 10).push(digit_char((n % 10) as int))
    }
}

/// The decimal rendering of an integer: a minus sign before a negative one.
pub open spec fn int_decimal(i: int) -> Seq<char> {
    if i < 0 {
        seq!['-'] + decimal((-i) as nat)
    } else {
        decimal(i as nat)
    }
}

/// `c` repeated `n` times.
pub open spec fn repeated(c: char, n: nat) -> Seq<char> {
    Seq::new(n, |i: int| c)
}

/// `s` right-aligned in a field of `width` characters, filled with `c`.
pub open spec fn pad_left(s: Seq<char>, width: nat, c: char) -> Seq<char> {
    if s.len() < width {
        repeated(c, (width - s.len()) as nat) + s
    } else {
        s
    }
}

/// Two decimal digits of a number below one hundred.
pub open spec fn two_digits(n: int) -> Seq<char> {
    seq![digit_char(n / 10), digit_char(n % 10)]
}

/// Three decimal digits of a number below one thousand.
pub open spec fn three_digits(n: int) -> Seq<char> {
    seq![digit_char(n / 100), digit_char(n / 10 % 10), digit_char(n % 10)]
}

/// Appends one decimal digit.
pub fn append_digit(out: &mut String, d: u8)
    requires
        d < 10,
    ensures
        final(out)@ == old(out)@.push(digit_char(d as int)),
{
    out.push((48u8 + d) as char);
}

/// Appends the decimal rendering of `n`.
pub fn append_nat(out: &mut String, n: u128)
    ensures
        final(out)@ == old(out)@ + decimal(n as nat),
    decreases n,
{
    if n >= 10 {
        append_nat(out, n / 10);
    }
    append_digit(out, (n % 10) as u8);
    assert(out@ =~= old(out)@ + decimal(n as nat));
}

/// Appends the decimal rendering of `i`.
pub fn append_int(out: &mut String, i: i64)
    ensures
        final(out)@ == old(out)@ + int_decimal(i as int),
{
    if i < 0 {
        out.push('-');
        let m: u128 = (-(i as i128)) as u128;
        append_nat(out, m);
        assert(out@ =~= old(out)@ + int_decimal(i as int));
    } else {
        append_nat(out, i as u128);
    }
}

/// The decimal rendering of `n` as a fresh string.
pub fn nat_string(n: u128) -> (r: String)
    ensures
        r@ == decimal(n as nat),
{
    let mut out = String::new();
    append_nat(&mut out, n);
    assert(out@ =~= decimal(n as nat));
    out
}

/// Appends two decimal digits.
pub fn append_two(out: &mut String, n: u8)
    requires
        n < 100,
    ensures
        final(out)@ == old(out)@ + two_digits(n as int),
{
    append_digit(out, n / 10);
    append_digit(out, n % 10);
    assert(out@ =~= old(out)@ + two_digits(n as int));
}

/// Appends three decimal digits.
pub fn append_three(out: &mut String, n: u16)
    requires
        n < 1000,
    ensures
        final(out)@ == old(out)@ + three_digits(n as int),
{
    append_digit(out, (n / 100) as u8);
    append_digit(out, (n / 10 % 10) as u8);
    append_digit(out, (n % 10) as u8);
    assert(out@ =~= old(out)@ + three_digits(n as int));
}

/// Appends `c` `n` times.
pub fn append_repeated(out: &mut String, c: char, n: usize)
    ensures
        final(out)@ == old(out)@ + repeated(c, n as nat),
{
    let mut i: usize = 0;
    while i < n
        invariant
            i <= n,
            out@ == old(out)@ + repeated(c, i as nat),
        decreases n - i,
    {
        out.push(c);
        i = i + 1;
        assert(out@ =~= old(out)@ + repeated(c, i as nat));
    }
    assert(out@ =~= old(out)@ + repeated(c, n as nat));
}

/// Appends `s`, right-aligned in `width` characters filled with `c`.
pub fn append_pad_left(out: &mut String, s: &str, width: usize, c: char)
    ensures
        final(out)@ == old(out)@ + pad_left(s@, width as nat, c),
{
    let n: usize = s.unicode_len();
    if n < width {
        append_repeated(out, c, width - n);
    }
    out.append(s);
    assert(out@ =~= old(out)@ + pad_left(s@, width as nat, c));
}

/// The character of a lower-case hexadecimal digit.
pub open spec fn hex_digit(d: int) -> char {
    if d < 10 {
        ((48 + d) as u8) as char
    } else {
        ((87 + d) as u8) as char
    }
}

/// Two lower-case hexadecimal digits of a byte.
pub open spec fn hex_byte(b: u8) -> Seq<char> {
    seq![hex_digit(b as int / 16), hex_digit(b as int % 16)]
}

/// The lower-case hexadecimal rendering of a byte sequence, two digits each.
pub open spec fn hex_text(b: Seq<u8>) -> Seq<char> {
    Seq::new(2 * b.len(), |i: int| hex_byte(b[i / 2])[i % 2])
}

/// Appends one lower-case hexadecimal digit.
pub fn append_hex_digit(out: &mut String, d: u8)
    requires
        d < 16,
    ensures
        final(out)@ == old(out)@.push(hex_digit(d as int)),
{
    if d < 10 {
        out.push((48u8 + d) as char);
    } else {
        out.push((87u8 + d) as char);
    }
}

/// Appends a byte as two lower-case hexadecimal digits.
pub fn append_hex_byte(out: &mut String, b: u8)
    ensures
        final(out)@ == old(out)@ + hex_byte(b),
{
    append_hex_digit(out, b / 16);
    append_hex_digit(out, b % 16);
    assert(out@ =~= old(out)@ + hex_byte(b));
}

/// `hex::encode`: the lower-case hexadecimal rendering of `data`, each byte
/// as two digits, the high half first.
#[verifier::external_body]
pub(crate) fn hex_encode(data: &[u8]) -> (r: String)
    ensures
        r@ == hex_text(data@),
{
    hex::encode(data)
}

/// The value of a hexadecimal digit in ASCII, of either case.
pub open spec fn hex_digit_value(c: u8) -> Option<int> {
    if 48 <= c <= 57 {
        Some(c - 48)
    } else if 65 <= c <= 70 {
        Some(c - 55)
    } else if 97 <= c <= 102 {
        Some(c - 87)
    } else {
        None
    }
}

/// Whether `s` is an even number of hexadecimal digits in ASCII.
pub open spec fn is_hex(s: Seq<u8>) -> bool {
    s.len() % 2 == 0 && forall|i: int|
        0 <= i < s.len() ==> hex_digit_value(#[trigger] s[i]) is Some
}

/// The bytes that a sequence of hexadecimal digits spells.
pub open spec fn hex_value(s: Seq<u8>) -> Seq<u8> {
    Seq::new(
        s.len() / 2,
        |i: int| (16 * hex_digit_value(s[2 * i])->0 + hex_digit_value(s[2 * i + 1])->0) as u8,
    )
}

/// The words in which `hex::decode` refuses a byte sequence.
pub uninterp spec fn hex_refusal(s: Seq<u8>) -> Seq<char>;

/// `hex::decode`: succeeds exactly on an even number of hexadecimal digits of
/// either case, with the bytes they spell. The refusal is the error's display
/// text, a function of the input's bytes.
#[verifier::external_body]
pub(crate) fn hex_decode(s: &str) -> (r: Result<Vec<u8>, String>)
    ensures
        match r {
            Ok(v) => is_hex(s.spec_bytes()) && v@ == hex_value(s.spec_bytes()),
            Err(e) => !is_hex(s.spec_bytes()) && e@ == hex_refusal(s.spec_bytes()),
        },
{
    hex::decode(s).map_err(|e| e.to_string())
}

/// Unicode's `White_Space` property.
pub open spec fn white_space(c: char) -> bool {
    let n = c as int;
    ||| 0x09 <= n <= 0x0d
    ||| n == 0x20
    ||| n == 0x85
    ||| n == 0xa0
    ||| n == 0x1680
    ||| 0x2000 <= n <= 0x200a
    ||| n == 0x2028
    ||| n == 0x2029
    ||| n == 0x202f
    ||| n == 0x205f
    ||| n == 0x3000
}

/// `s` without the white space at its front.
pub open spec fn trimmed_front(s: Seq<char>) -> Seq<char>
    decreases s.len(),
{
    if s.len() > 0 && white_space(s[0]) {
        trimmed_front(s.skip(1))
    } else {
        s
    }
}

/// `s` without the white space at its end.
pub open spec fn trimmed_end(s: Seq<char>) -> Seq<char>
    decreases s.len(),
{
    if s.len() > 0 && white_space(s.last()) {
        trimmed_end(s.drop_last())
    } else {
        s
    }
}

/// `s` without white space at its front and end.
pub open spec fn trimmed(s: Seq<char>) -> Seq<char> {
    trimmed_end(trimmed_front(s))
}

/// `str::trim`: the string without leading and trailing white space, in the
/// sense of Unicode's `White_Space` property.
#[verifier::external_body]
pub(crate) fn trim(s: &str) -> (r: &str)
    ensures
        r@ == trimmed(s@),
{
    s.trim()
}

/// `c` with an ASCII capital letter made small.
pub open spec fn ascii_lower(c: char) -> char {
    if 'A' <= c <= 'Z' {
        ((c as u8) + 32) as u8 as char
    } else {
        c
    }
}

/// Whether two strings are the same but for the case of ASCII letters.
pub open spec fn same_ignoring_case(a: Seq<char>, b: Seq<char>) -> bool {
    a.map_values(|c: char| ascii_lower(c)) == b.map_values(|c: char| ascii_lower(c))
}

/// `str::eq_ignore_ascii_case`: equality after making ASCII capitals small.
#[verifier::external_body]
pub(crate) fn eq_ignoring_case(a: &str, b: &str) -> (r: bool)
    ensures
        r == same_ignoring_case(a@, b@),
{
    a.eq_ignore_ascii_case(b)
}

/// Whether `s` is one or more decimal digits.
pub open spec fn all_digits(s: Seq<char>) -> bool {
    s.len() > 0 && forall|i: int| 0 <= i < s.len() ==> '0' <= #[trigger] s[i] <= '9'
}

/// The number that decimal digits spell.
pub open spec fn digits_value(s: Seq<char>) -> nat
    decreases s.len(),
{
    if s.len() == 0 {
        0
    } else {
        10 * digits_value(s.drop_last()) + (s.last() as int - 48) as nat
    }
}

/// The number that decimal digits with an optional plus sign spell.
pub open spec fn unsigned_decimal(s: Seq<char>) -> Option<int> {
    if all_digits(s) {
        Some(digits_value(s) as int)
    } else if s.len() > 0 && s[0] == '+' && all_digits(s.skip(1)) {
        Some(digits_value(s.skip(1)) as int)
    } else {
        None
    }
}

/// The number that decimal digits with an optional sign spell.
pub open spec fn signed_decimal(s: Seq<char>) -> Option<int> {
    if s.len() > 0 && s[0] == '-' && all_digits(s.skip(1)) {
        Some(-(digits_value(s.skip(1)) as int))
    } else {
        unsigned_decimal(s)
    }
}

/// `v` where it lies between `lo` and `hi`.
pub open spec fn within(v: Option<int>, lo: int, hi: int) -> Option<int> {
    match v {
        Some(n) => if lo <= n <= hi {
            Some(n)
        } else {
            None
        },
        None => None,
    }
}

/// The words in which `str::parse::<i64>` refuses a string.
pub uninterp spec fn i64_refusal(s: Seq<char>) -> Seq<char>;

/// `str::parse::<i64>`: decimal digits with an optional sign, in range. The
/// refusal is the error's display text.
#[verifier::external_body]
pub(crate) fn parse_i64(s: &str) -> (r: Result<i64, String>)
    ensures
        match r {
            Ok(v) => within(signed_decimal(s@), i64::MIN as int, i64::MAX as int) == Some(v as int),
            Err(e) => within(signed_decimal(s@), i64::MIN as int, i64::MAX as int) is None && e@
                == i64_refusal(s@),
        },
{
    s.parse::<i64>().map_err(|e| e.to_string())
}

/// The words in which `str::parse::<u16>` refuses a string.
pub uninterp spec fn u16_refusal(s: Seq<char>) -> Seq<char>;

/// `str::parse::<u16>`: decimal digits with an optional plus sign, in range.
/// The refusal is the error's display text.
#[verifier::external_body]
pub(crate) fn parse_u16(s: &str) -> (r: Result<u16, String>)
    ensures
        match r {
            Ok(v) => within(unsigned_decimal(s@), 0, u16::MAX as int) == Some(v as int),
            Err(e) => within(unsigned_decimal(s@), 0, u16::MAX as int) is None && e@
                == u16_refusal(s@),
        },
{
    s.parse::<u16>().map_err(|e| e.to_string())
}

/// The words in which `str::parse::<u64>` refuses a string.
pub uninterp spec fn u64_refusal(s: Seq<char>) -> Seq<char>;

/// `str::parse::<u64>`: decimal digits with an optional plus sign, in range.
/// The refusal is the error's display text.
#[verifier::external_body]
pub(crate) fn parse_u64(s: &str) -> (r: Result<u64, String>)
    ensures
        match r {
            Ok(v) => within(unsigned_decimal(s@), 0, u64::MAX as int) == Some(v as int),
            Err(e) => within(unsigned_decimal(s@), 0, u64::MAX as int) is None && e@
                == u64_refusal(s@),
        },
{
    s.parse::<u64>().map_err(|e| e.to_string())
}

/// The words in which `str::parse::<usize>` refuses a string.
pub uninterp spec fn usize_refusal(s: Seq<char>) -> Seq<char>;

/// `str::parse::<usize>`: decimal digits with an optional plus sign, in range.
/// The refusal is the error's display text.
#[verifier::external_body]
pub(crate) fn parse_usize(s: &str) -> (r: Result<usize, String>)
    ensures
        match r {
            Ok(v) => within(unsigned_decimal(s@), 0, usize::MAX as int) == Some(v as int),
            Err(e) => within(unsigned_decimal(s@), 0, usize::MAX as int) is None && e@
                == usize_refusal(s@),
        },
{
    s.parse::<usize>().map_err(|e| e.to_string())
}

/// The quoted, escaped form that `str`'s `Debug` gives.
pub uninterp spec fn quoted_text(s: Seq<char>) -> Seq<char>;

/// `<str as Debug>`: the string in quotes with its special characters escaped.
#[verifier::external_body]
pub(crate) fn quoted(s: &str) -> (r: String)
    ensures
        r@ == quoted_text(s@),
{
    format!("{:?}", s)
}

proof fn lemma_decimal_digits(n: nat)
    ensures
        all_digits(decimal(n)),
        digits_value(decimal(n)) == n,
    decreases n,
{
    let d = decimal(n);
    if n < 10 {
        assert(d == seq![digit_char(n as int)]);
        assert(d.drop_last() =~= Seq::<char>::empty());
        assert(d.last() as int == 48 + n);
        assert(digits_value(d) == n) by {
            reveal_with_fuel(digits_value, 2);
        }
    } else {
        lemma_decimal_digits(n / 10);
        let head = decimal(n / 10);
        let c = digit_char((n % 10) as int);
        assert(d == head.push(c));
        assert(d.drop_last() =~= head);
        assert(c as int == 48 + n % 10);
        assert(digits_value(d) == 10 * digits_value(head) + n % 10);
        assert forall|i: int| 0 <= i < d.len() implies '0' <= #[trigger] d[i] <= '9' by {
            if i < head.len() {
                assert(d[i] == head[i]);
            }
        }
    }
}

/// A number reads back from its decimal rendering.
pub proof fn decimal_reads_back(i: int)
    ensures
        signed_decimal(int_decimal(i)) == Some(i),
        i >= 0 ==> unsigned_decimal(int_decimal(i)) == Some(i),
        trimmed(int_decimal(i)) == int_decimal(i),
        int_decimal(i).len() > 0,
        int_decimal(i)[0] == '-' || '0' <= int_decimal(i)[0] <= '9',
{
    let s = int_decimal(i);
    if i < 0 {
        lemma_decimal_digits((-i) as nat);
        assert(s.skip(1) =~= decimal((-i) as nat));
        assert(s.last() == decimal((-i) as nat).last());
    } else {
        lemma_decimal_digits(i as nat);
        assert('0' <= s[0]);
    }
    assert(!white_space(s[0]) && !white_space(s.last()));
}

/// The characters of `s`.
pub fn chars_of(s: &str) -> (r: Vec<char>)
    ensures
        r@ == s@,
{
    let mut v: Vec<char> = Vec::new();
    let n: usize = s.unicode_len();
    let mut i: usize = 0;
    while i < n
        invariant
            i <= n,
            n == s@.len(),
            v@ == s@.take(i as int),
        decreases n - i,
    {
        v.push(s.get_char(i));
        i = i + 1;
        assert(v@ =~= s@.take(i as int));
    }
    assert(v@ =~= s@);
    v
}

/// The characters `from..to` of `v` as a string.
pub fn slice_string(v: &Vec<char>, from: usize, to: usize) -> (r: String)
    requires
        from <= to <= v@.len(),
    ensures
        r@ == v@.subrange(from as int, to as int),
{
    let mut out = String::new();
    let mut i: usize = from;
    while i < to
        invariant
            from <= i <= to <= v@.len(),
            out@ == v@.subrange(from as int, i as int),
        decreases to - i,
    {
        out.push(v[i]);
        i = i + 1;
        assert(out@ =~= v@.subrange(from as int, i as int));
    }
    out
}

/// The first position of `c` in `s`, or its length.
pub open spec fn first_position(s: Seq<char>, c: char) -> nat
    decreases s.len(),
{
    if s.len() == 0 || s[0] == c {
        0
    } else {
        1 + first_position(s.skip(1), c)
    }
}

/// The first position of `c` in `v`, or its length.
pub fn find_char(v: &Vec<char>, c: char) -> (r: usize)
    ensures
        r == first_position(v@, c),
        r <= v@.len(),
{
    let mut i: usize = 0;
    assert(v@.skip(0) =~= v@);
    while i < v.len()
        invariant
            i <= v@.len(),
            first_position(v@, c) == i + first_position(v@.skip(i as int), c),
        decreases v@.len() - i,
    {
        let ghost rest = v@.skip(i as int);
        assert(rest[0] == v@[i as int]);
        if v[i] == c {
            return i;
        }
        assert(rest.skip(1) =~= v@.skip(i + 1));
        i = i + 1;
    }
    i
}

proof fn lemma_trimmed_front(s: Seq<char>) -> (k: int)
    ensures
        0 <= k <= s.len(),
        trimmed_front(s) == s.skip(k),
        forall|i: int| 0 <= i < k ==> white_space(#[trigger] s[i]),
        k < s.len() ==> !white_space(s[k]),
    decreases s.len(),
{
    if s.len() > 0 && white_space(s[0]) {
        let j = lemma_trimmed_front(s.skip(1));
        assert(s.skip(1).skip(j) =~= s.skip(j + 1));
        assert forall|i: int| 0 <= i < j + 1 implies white_space(#[trigger] s[i]) by {
            if i > 0 {
                assert(s[i] == s.skip(1)[i - 1]);
            }
        }
        j + 1
    } else {
        assert(s.skip(0) =~= s);
        0
    }
}

proof fn lemma_trimmed_end(s: Seq<char>) -> (k: int)
    ensures
        0 <= k <= s.len(),
        trimmed_end(s) == s.take(k),
        forall|i: int| k <= i < s.len() ==> white_space(#[trigger] s[i]),
        k > 0 ==> !white_space(s[k - 1]),
    decreases s.len(),
{
    if s.len() > 0 && white_space(s.last()) {
        let j = lemma_trimmed_end(s.drop_last());
        assert(s.drop_last().take(j) =~= s.take(j));
        assert forall|i: int| j <= i < s.len() implies white_space(#[trigger] s[i]) by {
            if i < s.len() - 1 {
                assert(s[i] == s.drop_last()[i]);
            }
        }
        j
    } else {
        assert(s.take(s.len() as int) =~= s);
        s.len() as int
    }
}

/// Trimming takes the white space off both ends and nothing else: what is left
/// starts and ends with other characters, and what goes is white space.
pub proof fn trimming_takes_the_ends(s: Seq<char>) -> (r: (int, int))
    ensures
        0 <= r.0 <= r.1 <= s.len(),
        trimmed(s) == s.subrange(r.0, r.1),
        forall|i: int| 0 <= i < r.0 ==> white_space(#[trigger] s[i]),
        forall|i: int| r.1 <= i < s.len() ==> white_space(#[trigger] s[i]),
        r.0 < r.1 ==> !white_space(s[r.0]) && !white_space(s[r.1 - 1]),
{
    let a = lemma_trimmed_front(s);
    let t = s.skip(a);
    let b = lemma_trimmed_end(t);
    assert(t.take(b) =~= s.subrange(a, a + b));
    assert forall|i: int| a + b <= i < s.len() implies white_space(#[trigger] s[i]) by {
        assert(t[i - a] == s[i]);
    }
    if b > 0 {
        assert(t[0] == s[a]);
        assert(t[b - 1] == s[a + b - 1]);
        if white_space(t[0]) {
            assert(a < s.len());
        }
    }
    (a, a + b)
}

/// Two hexadecimal digits spell a byte, the higher one first, in small letters.
pub proof fn bytes_are_written_in_two_digits(b: Seq<u8>, i: int)
    requires
        0 <= i < b.len(),
    ensures
        hex_text(b).len() == 2 * b.len(),
        hex_text(b)[2 * i] == hex_digit((b[i] / 16) as int),
        hex_text(b)[2 * i + 1] == hex_digit((b[i] % 16) as int),
        hex_digit(0) == '0',
        hex_digit(9) == '9',
        hex_digit(10) == 'a',
        hex_digit(15) == 'f',
{
}

/// Digits spell a number in base ten, and a leading sign is allowed.
pub proof fn digits_spell_numbers(s: Seq<char>, c: char)
    requires
        '0' <= c <= '9',
    ensures
        digits_value(s.push(c)) == 10 * digits_value(s) + (c as int - '0' as int),
        digits_value(Seq::empty()) == 0,
        all_digits(s) ==> signed_decimal(s) == Some(digits_value(s) as int) && unsigned_decimal(s)
            == Some(digits_value(s) as int),
        all_digits(s) ==> signed_decimal(seq!['+'] + s) == Some(digits_value(s) as int),
        all_digits(s) ==> signed_decimal(seq!['-'] + s) == Some(-(digits_value(s) as int)),
        all_digits(s) ==> unsigned_decimal(seq!['-'] + s) is None,
        signed_decimal(Seq::empty()) is None,
{
    assert(s.push(c).drop_last() =~= s);
    assert((seq!['+'] + s).skip(1) =~= s);
    assert((seq!['-'] + s).skip(1) =~= s);
    let m = seq!['-'] + s;
    assert(m[0] == '-');
    let p = seq!['+'] + s;
    assert(p[0] == '+');
    if all_digits(s) {
        assert('0' <= s[0]);
    }
}

/// Padding fills up in front, to the width and no further.
pub proof fn padding_fills_up_in_front(s: Seq<char>, width: nat, c: char, i: int)
    ensures
        s.len() >= width ==> pad_left(s, width, c) == s,
        s.len() < width ==> pad_left(s, width, c).len() == width && pad_left(s, width, c).skip(
            width - s.len(),
        ) == s,
        s.len() < width && 0 <= i < width - s.len() ==> pad_left(s, width, c)[i] == c,
        repeated(c, width).len() == width,
        0 <= i < width ==> repeated(c, width)[i] == c,
{
    if s.len() < width {
        assert(pad_left(s, width, c).skip(width - s.len()) =~= s);
    }
}

} // verus!
