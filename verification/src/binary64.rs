//! Fractions as binary64 holds them: rounded to 53 significant bits, halves to
//! the even neighbour. The dashboards' rates, shares and compact amounts go
//! through this arithmetic, so that they round where a binary64 quotient does.

use vstd::arithmetic::div_mod::lemma_fundamental_div_mod;
use vstd::prelude::*;

verus! {

/// `2^52`, the least mantissa.
pub const P52: u128 = 0x10_0000_0000_0000;

/// `2^53`, one past the greatest mantissa.
pub const P53: u128 = 0x20_0000_0000_0000;

/// `2^n`.
pub open spec fn two_pow(n: nat) -> nat
    decreases n,
{
    if n == 0 {
        1
    } else {
        2 * two_pow((n - 1) as nat)
    }
}

/// `num / den` rounded to the nearest whole number, a half to the even one.
pub open spec fn half_even(num: nat, den: nat) -> nat {
    let q = num / den;
    let r = num % den;
    if 2 * r < den {
        q
    } else if 2 * r > den {
        q + 1
    } else if q % 2 == 0 {
        q
    } else {
        q + 1
    }
}

/// Halves `num / den` until its whole part fits in 53 bits, then rounds it.
pub open spec fn shrink(num: nat, den: nat, exp: int) -> (nat, int)
    decreases
            if num > den {
                num - den
            } else {
                0
            },
{
    if den > 0 && num / 0x20_0000_0000_0000 >= den {
        shrink(num, 2 * den, exp + 1)
    } else {
        (half_even(num, den), exp)
    }
}

/// Doubles `num / den` until its whole part takes 53 bits, then rounds it.
pub open spec fn grow(num: nat, den: nat, exp: int) -> (nat, int)
    decreases
            if 0x10_0000_0000_0000 * den > num {
                0x10_0000_0000_0000 * den - num
            } else {
                0
            },
{
    if num > 0 && num / 0x10_0000_0000_0000 < den {
        grow(2 * num, den, exp - 1)
    } else {
        (half_even(num, den), exp)
    }
}

/// The binary64 nearest to `num / den * 2^exp`, as a mantissa of 53 bits and an
/// exponent.
pub open spec fn nearest(num: nat, den: nat, exp: int) -> (nat, int) {
    if num == 0 || den == 0 {
        (0, 0)
    } else {
        let r = if num / 0x20_0000_0000_0000 >= den {
            shrink(num, den, exp)
        } else {
            grow(num, den, exp)
        };
        if r.0 >= 0x20_0000_0000_0000 {
            (0x10_0000_0000_0000, r.1 + 1)
        } else {
            r
        }
    }
}

/// A non-negative binary64: `mant * 2^exp`.
#[derive(Debug, Clone, Copy, PartialEq, Eq, Structural)]
pub struct Double {
    pub mant: u64,
    pub exp: i32,
}

impl View for Double {
    type V = (nat, int);

    open spec fn view(&self) -> (nat, int) {
        (self.mant as nat, self.exp as int)
    }
}

impl Double {
    /// A zero, or a full mantissa.
    pub open spec fn wf(&self) -> bool {
        self.mant < 0x20_0000_0000_0000 && (self.mant >= 0x10_0000_0000_0000 || (self.mant == 0
            && self.exp == 0))
    }

    /// Zero.
    pub fn zero() -> (r: Double)
        ensures
            r@ == (0nat, 0int),
            r.wf(),
    {
        Double { mant: 0, exp: 0 }
    }

    /// Whether the number is greater than another.
    pub open spec fn exceeds(x: (nat, int), y: (nat, int)) -> bool {
        if x.0 == 0 || y.0 == 0 {
            x.0 > y.0
        } else {
            x.1 > y.1 || (x.1 == y.1 && x.0 > y.0)
        }
    }

    /// Whether `self` is greater than `other`.
    pub fn above(&self, other: &Double) -> (r: bool)
        requires
            self.wf(),
            other.wf(),
        ensures
            r == Double::exceeds(self@, other@),
    {
        if self.mant == 0 || other.mant == 0 {
            self.mant > other.mant
        } else {
            self.exp > other.exp || (self.exp == other.exp && self.mant > other.mant)
        }
    }
}

proof fn lemma_two_pow_monotone(a: nat, b: nat)
    requires
        a <= b,
    ensures
        two_pow(a) <= two_pow(b),
        two_pow(a) >= 1,
    decreases b,
{
    if a < b {
        lemma_two_pow_monotone(a, (b - 1) as nat);
    } else if a > 0 {
        lemma_two_pow_monotone((a - 1) as nat, (a - 1) as nat);
    }
}

proof fn lemma_two_pow_values()
    ensures
        two_pow(11) == 0x800,
        two_pow(52) == 0x10_0000_0000_0000,
        two_pow(62) == 0x4000_0000_0000_0000,
        two_pow(68) == 0x10_0000_0000_0000_0000,
        two_pow(75) == 0x800_0000_0000_0000_0000,
        two_pow(117) == 0x20_0000_0000_0000_0000_0000_0000_0000,
{
    reveal_with_fuel(two_pow, 14);
    assert(two_pow(11) == 0x800);
    assert(two_pow(13) == 0x2000);
    assert(two_pow(26) == 0x4000000);
    assert(two_pow(39) == 0x8000000000);
    assert(two_pow(52) == 0x10000000000000);
    assert(two_pow(62) == 0x4000000000000000);
    assert(two_pow(68) == 0x100000000000000000);
    assert(two_pow(75) == 0x8000000000000000000);
    assert(two_pow(88) == 0x10000000000000000000000);
    assert(two_pow(101) == 0x20000000000000000000000000);
    assert(two_pow(114) == 0x40000000000000000000000000000);
    assert(two_pow(117) == 0x200000000000000000000000000000);
}

/// A mantissa over a large divisor is doubled at least ten times.
proof fn lemma_grow_ten(num: nat, den: nat, exp: int)
    requires
        0 < num < 0x20_0000_0000_0000,
        den >= 0x800,
    ensures
        grow(num, den, exp).1 <= exp - 10,
{
    reveal_with_fuel(grow, 11);
    lemma_grow_only_lowers(1024 * num, den, exp - 10);
}

proof fn lemma_grow_only_lowers(num: nat, den: nat, exp: int)
    ensures
        grow(num, den, exp).1 <= exp,
    decreases
            if 0x10_0000_0000_0000 * den > num {
                0x10_0000_0000_0000 * den - num
            } else {
                0
            },
{
    if num > 0 && num / 0x10_0000_0000_0000 < den {
        lemma_grow_only_lowers(2 * num, den, exp - 1);
    }
}

fn half_even_of(num: u128, den: u128) -> (r: u128)
    requires
        den > 0,
        num < u128::MAX || den > 1,
    ensures
        r == half_even(num as nat, den as nat),
{
    let q: u128 = num / den;
    let m: u128 = num % den;
    proof {
        lemma_fundamental_div_mod(num as int, den as int);
        assert(q <= num && (den > 1 ==> q < u128::MAX)) by (nonlinear_arith)
            requires
                num == den * q + m,
                num <= u128::MAX,
                den >= 1,
                m >= 0,
                q >= 0,
        ;
    }
    let rest: u128 = den - m;
    if m < rest {
        q
    } else if m > rest {
        q + 1
    } else if q % 2 == 0 {
        q
    } else {
        q + 1
    }
}

/// The binary64 nearest to `num / den * 2^exp`.
pub fn nearest_double(num: u128, den: u128, exp: i32) -> (r: Double)
    requires
        0 < den <= 0x1_0000_0000_0000_0000,
        -4000 <= exp <= 4000,
    ensures
        r@ == nearest(num as nat, den as nat, exp as int),
        r.wf(),
        num > 0 ==> r.mant > 0,
        -4200 <= r.exp <= 4200,
        num == 0 ==> r.exp == 0,
        num > 0 ==> r.exp >= exp - 118,
        num >= den ==> r.exp >= exp - 52,
        num > 0 && num / P53 < den ==> r.exp <= exp + 1,
        den == 1 && num > 0 ==> r.exp <= exp + 76,
        den == 1 && 0 < num <= u64::MAX ==> r.exp <= exp + 12,
        num / P53 < 1 && den >= 0x800 && num > 0 ==> r.exp <= exp - 9,
{
    if num == 0 {
        return Double { mant: 0, exp: 0 };
    }
    let mut n: u128 = num;
    let mut d: u128 = den;
    let mut e: i32 = exp;
    assert(two_pow(0) == 1);
    assert(den * 1 == den && num * 1 == num);
    if num / P53 >= den {
        let ghost mut k: nat = 0;
        while n / P53 >= d
            invariant
                n == num,
                0 < den <= d,
                d == den * two_pow(k),
                e == exp + k,
                -4000 <= exp <= 4000,
                k <= 75,
                den == 1 && num <= u64::MAX ==> k <= 11,
                shrink(num as nat, den as nat, exp as int) == shrink(n as nat, d as nat, e as int),
                n / P52 >= d,
            decreases n - d,
        {
            proof {
                assert(two_pow(k + 1) == 2 * two_pow(k));
                assert(2 * d == den * two_pow(k + 1)) by (nonlinear_arith)
                    requires
                        d == den * two_pow(k),
                        two_pow(k + 1) == 2 * two_pow(k),
                ;
                assert(d >= two_pow(k)) by (nonlinear_arith)
                    requires
                        d == den * two_pow(k),
                        den >= 1,
                ;
                lemma_two_pow_values();
                if k >= 75 {
                    lemma_two_pow_monotone(75, k);
                }
                if k >= 11 {
                    lemma_two_pow_monotone(11, k);
                }
                k = k + 1;
            }
            d = 2 * d;
            e = e + 1;
        }
    } else {
        let ghost mut k: nat = 0;
        while n / P52 < d
            invariant
                d == den,
                0 < d <= 0x1_0000_0000_0000_0000,
                0 < n,
                num > 0,
                n == num * two_pow(k),
                e == exp - k,
                -4000 <= exp <= 4000,
                k <= 117,
                num >= den ==> k <= 52,
                n / P53 < d,
                grow(num as nat, den as nat, exp as int) == grow(n as nat, d as nat, e as int),
            decreases P53 * d - n,
        {
            proof {
                assert(two_pow(k + 1) == 2 * two_pow(k));
                assert(2 * n == num * two_pow(k + 1)) by (nonlinear_arith)
                    requires
                        n == num * two_pow(k),
                        two_pow(k + 1) == 2 * two_pow(k),
                ;
                lemma_two_pow_values();
                assert(n >= two_pow(k)) by (nonlinear_arith)
                    requires
                        n == num * two_pow(k),
                        num >= 1,
                ;
                if k >= 117 {
                    lemma_two_pow_monotone(117, k);
                }
                if num >= den {
                    assert(two_pow(k) < P52) by (nonlinear_arith)
                        requires
                            n == num * two_pow(k),
                            n < P52 * d,
                            d <= num,
                            num >= 1,
                    ;
                    if k >= 52 {
                        lemma_two_pow_monotone(52, k);
                    }
                }
                k = k + 1;
            }
            n = 2 * n;
            e = e - 1;
        }
    }
    let m: u128 = half_even_of(n, d);
    proof {
        if num / P53 < 1 && den >= 0x800 {
            lemma_grow_ten(num as nat, den as nat, exp as int);
        }
        lemma_fundamental_div_mod(n as int, d as int);
        let q = n as int / d as int;
        let r = n as int % d as int;
        assert(P52 <= q < P53) by (nonlinear_arith)
            requires
                n == d * q + r,
                0 <= r < d,
                n < P53 * d,
                n >= P52 * d,
                d > 0,
                P52 == 0x10_0000_0000_0000,
                P53 == 0x20_0000_0000_0000,
        ;
    }
    if m >= P53 {
        Double { mant: P52 as u64, exp: e + 1 }
    } else {
        Double { mant: m as u64, exp: e }
    }
}

/// The binary64 of a whole number.
pub open spec fn of_nat(n: nat) -> (nat, int) {
    nearest(n, 1, 0)
}

/// The binary64 of a whole number.
pub fn double_of(n: u128) -> (r: Double)
    ensures
        r@ == of_nat(n as nat),
        r.wf(),
        n > 0 ==> r.mant > 0,
        -52 <= r.exp <= 76,
        n < P53 ==> r.exp <= 1,
        n <= u64::MAX ==> r.exp <= 12,
{
    nearest_double(n, 1, 0)
}

proof fn lemma_grow_is_exact(num: nat, exp: int)
    requires
        0 < num < 0x20_0000_0000_0000,
    ensures
        ({
            let r = grow(num, 1, exp);
            r.1 <= exp && r.0 == num * two_pow((exp - r.1) as nat) && r.0 < 0x20_0000_0000_0000
        }),
    decreases 0x20_0000_0000_0000 - num,
{
    if num / 0x10_0000_0000_0000 < 1 {
        lemma_grow_is_exact(2 * num, exp - 1);
        let r = grow(num, 1, exp);
        let k = (exp - 1 - r.1) as nat;
        assert(two_pow((exp - r.1) as nat) == 2 * two_pow(k));
        assert((2 * num) * two_pow(k) == num * (2 * two_pow(k))) by (nonlinear_arith);
    } else {
        assert(half_even(num, 1) == num);
        assert(two_pow(0) == 1);
        assert(num * 1 == num);
    }
}

/// Whole numbers of up to 53 bits are held exactly.
pub proof fn small_whole_numbers_are_exact(n: nat)
    requires
        n < 0x20_0000_0000_0000,
    ensures
        of_nat(n).1 <= 0,
        of_nat(n).0 == n * two_pow((-of_nat(n).1) as nat),
{
    if n > 0 {
        lemma_grow_is_exact(n, 0);
    } else {
        assert(0 * two_pow(0) == 0);
    }
}

/// The quotient of two binary64 numbers.
pub open spec fn quotient(x: (nat, int), y: (nat, int)) -> (nat, int) {
    nearest(x.0, y.0, x.1 - y.1)
}

/// The product of two binary64 numbers.
pub open spec fn product(x: (nat, int), y: (nat, int)) -> (nat, int) {
    nearest(x.0 * y.0, 1, x.1 + y.1)
}

/// The quotient of two binary64 numbers.
pub fn divide(x: &Double, y: &Double) -> (r: Double)
    requires
        x.wf(),
        y.wf(),
        y.mant > 0,
        -2000 <= x.exp - y.exp <= 2000,
    ensures
        r@ == quotient(x@, y@),
        r.wf(),
        -4200 <= r.exp <= 4200,
        r.mant > 0 ==> x.exp - y.exp - 118 <= r.exp <= x.exp - y.exp + 1,
        r.mant == 0 ==> r.exp == 0,
{
    nearest_double(x.mant as u128, y.mant as u128, x.exp - y.exp)
}

/// The product of two binary64 numbers.
pub fn multiply(x: &Double, y: &Double) -> (r: Double)
    requires
        x.wf(),
        y.wf(),
        -2000 <= x.exp + y.exp <= 2000,
    ensures
        r@ == product(x@, y@),
        r.wf(),
        -4200 <= r.exp <= 4200,
        r.mant > 0 ==> x.exp + y.exp - 52 <= r.exp <= x.exp + y.exp + 76,
{
    assert(0 <= x.mant * y.mant < u128::MAX) by (nonlinear_arith)
        requires
            0 <= x.mant < 0x20_0000_0000_0000,
            0 <= y.mant < 0x20_0000_0000_0000,
    ;
    let p: u128 = x.mant as u128 * y.mant as u128;
    nearest_double(p, 1, x.exp + y.exp)
}

/// A binary64 times a whole scale, rounded to a whole number, a half to the
/// even one.
pub open spec fn scaled(x: (nat, int), scale: nat) -> nat {
    if x.1 >= 0 {
        x.0 * scale * two_pow(x.1 as nat)
    } else {
        half_even(x.0 * scale, two_pow((-x.1) as nat))
    }
}

fn power_of_two(n: u32) -> (r: u128)
    requires
        n <= 68,
    ensures
        r == two_pow(n as nat),
        1 <= r <= 0x10_0000_0000_0000_0000,
{
    let mut p: u128 = 1;
    let mut i: u32 = 0;
    while i < n
        invariant
            i <= n <= 68,
            p == two_pow(i as nat),
            1 <= p <= 0x10_0000_0000_0000_0000,
        decreases n - i,
    {
        proof {
            lemma_two_pow_monotone((i + 1) as nat, 68);
            lemma_two_pow_values();
            assert(two_pow((i + 1) as nat) == 2 * two_pow(i as nat));
        }
        p = 2 * p;
        i = i + 1;
    }
    p
}

/// A binary64 times 1, 10 or 100, rounded as a fixed number of decimals is.
pub fn scaled_of(x: &Double, scale: u64) -> (r: u128)
    requires
        x.wf(),
        1 <= scale <= 100,
        x.exp <= 68,
        x.exp > i32::MIN,
    ensures
        r == scaled(x@, scale as nat),
{
    assert(0 <= x.mant * scale <= 900_719_925_474_099_200) by (nonlinear_arith)
        requires
            0 <= x.mant < 0x20_0000_0000_0000,
            0 <= scale <= 100,
    ;
    let num: u128 = x.mant as u128 * scale as u128;
    if x.exp >= 0 {
        let p: u128 = power_of_two(x.exp as u32);
        assert(0 <= num * p < u128::MAX) by (nonlinear_arith)
            requires
                0 <= num <= 900_719_925_474_099_200,
                0 <= p <= 0x10_0000_0000_0000_0000,
        ;
        num * p
    } else if x.exp > -62 {
        let p: u128 = power_of_two((-x.exp) as u32);
        half_even_of(num, p)
    } else {
        proof {
            let den = two_pow((-x.exp) as nat);
            lemma_two_pow_monotone(62, (-x.exp) as nat);
            lemma_two_pow_values();
            vstd::arithmetic::div_mod::lemma_small_mod(num as nat, den);
            vstd::arithmetic::div_mod::lemma_basic_div(num as int, den as int);
        }
        0
    }
}

/// A binary64 rounded to a whole number, a half away from zero, and held to
/// `limit`.
pub open spec fn rounded(x: (nat, int), limit: nat) -> nat {
    let whole = if x.1 >= 0 {
        x.0 * two_pow(x.1 as nat)
    } else {
        (2 * x.0 + two_pow((-x.1) as nat)) / (2 * two_pow((-x.1) as nat))
    };
    if whole > limit {
        limit
    } else {
        whole
    }
}

/// A binary64 rounded to a whole number of at most `limit`.
pub fn rounded_to(x: &Double, limit: usize) -> (r: usize)
    requires
        x.wf(),
        x.exp > i32::MIN,
    ensures
        r == rounded(x@, limit as nat),
        r <= limit,
{
    if x.mant == 0 {
        assert(two_pow(0) == 1);
        assert(0 * two_pow(0) == 0);
        return 0;
    }
    if x.exp >= 12 {
        proof {
            lemma_two_pow_monotone(12, x.exp as nat);
            assert(two_pow(12) == 2 * two_pow(11));
            lemma_two_pow_values();
            assert(x.mant * two_pow(x.exp as nat) >= 0x1_0000_0000_0000_0000) by (nonlinear_arith)
                requires
                    x.mant >= 0x10_0000_0000_0000,
                    two_pow(x.exp as nat) >= 0x1000,
            ;
        }
        limit
    } else if x.exp >= 0 {
        let p: u128 = power_of_two(x.exp as u32);
        assert(0 <= x.mant * p < u128::MAX) by (nonlinear_arith)
            requires
                0 <= x.mant < 0x20_0000_0000_0000,
                0 <= p <= 0x10_0000_0000_0000_0000,
        ;
        let whole: u128 = x.mant as u128 * p;
        if whole > limit as u128 {
            limit
        } else {
            whole as usize
        }
    } else if x.exp > -62 {
        let p: u128 = power_of_two((-x.exp) as u32);
        let whole: u128 = (2 * x.mant as u128 + p) / (2 * p);
        if whole > limit as u128 {
            limit
        } else {
            whole as usize
        }
    } else {
        proof {
            let p = two_pow((-x.exp) as nat);
            lemma_two_pow_monotone(62, (-x.exp) as nat);
            lemma_two_pow_values();
            vstd::arithmetic::div_mod::lemma_basic_div((2 * x.mant + p) as int, (2 * p) as int);
        }
        0
    }
}

/// A binary64 without its fraction, held to `limit`.
pub open spec fn truncated(x: (nat, int), limit: nat) -> nat {
    let whole = if x.1 >= 0 {
        x.0 * two_pow(x.1 as nat)
    } else {
        x.0 / two_pow((-x.1) as nat)
    };
    if whole > limit {
        limit
    } else {
        whole
    }
}

/// A binary64 without its fraction, at most `limit`.
pub fn truncated_to(x: &Double, limit: u64) -> (r: u64)
    requires
        x.wf(),
        x.exp > i32::MIN,
    ensures
        r == truncated(x@, limit as nat),
        r <= limit,
{
    if x.mant == 0 {
        assert(two_pow(0) == 1);
        assert(0 * two_pow(0) == 0);
        return 0;
    }
    if x.exp >= 12 {
        proof {
            lemma_two_pow_monotone(12, x.exp as nat);
            assert(two_pow(12) == 2 * two_pow(11));
            lemma_two_pow_values();
            assert(x.mant * two_pow(x.exp as nat) >= 0x1_0000_0000_0000_0000) by (nonlinear_arith)
                requires
                    x.mant >= 0x10_0000_0000_0000,
                    two_pow(x.exp as nat) >= 0x1000,
            ;
        }
        limit
    } else if x.exp >= 0 {
        let p: u128 = power_of_two(x.exp as u32);
        assert(0 <= x.mant * p < u128::MAX) by (nonlinear_arith)
            requires
                0 <= x.mant < 0x20_0000_0000_0000,
                0 <= p <= 0x10_0000_0000_0000_0000,
        ;
        let whole: u128 = x.mant as u128 * p;
        if whole > limit as u128 {
            limit
        } else {
            whole as u64
        }
    } else if x.exp > -62 {
        let p: u128 = power_of_two((-x.exp) as u32);
        let whole: u128 = x.mant as u128 / p;
        proof {
            assert(whole <= x.mant) by (nonlinear_arith)
                requires
                    whole == x.mant as int / p as int,
                    p >= 1,
                    x.mant >= 0,
            ;
        }
        if whole > limit as u128 {
            limit
        } else {
            whole as u64
        }
    } else {
        proof {
            let den = two_pow((-x.exp) as nat);
            lemma_two_pow_monotone(62, (-x.exp) as nat);
            lemma_two_pow_values();
            vstd::arithmetic::div_mod::lemma_basic_div(x.mant as int, den as int);
        }
        0
    }
}

/// The sum of two binary64 numbers.
pub open spec fn sum(x: (nat, int), y: (nat, int)) -> (nat, int) {
    if x.0 == 0 {
        y
    } else if y.0 == 0 {
        x
    } else if x.1 >= y.1 {
        nearest(x.0 * two_pow((x.1 - y.1) as nat) + y.0, 1, y.1)
    } else {
        nearest(y.0 * two_pow((y.1 - x.1) as nat) + x.0, 1, x.1)
    }
}

/// One less a binary64 that is below one.
pub open spec fn one_less(x: (nat, int)) -> (nat, int) {
    if x.0 == 0 {
        one_value()
    } else {
        nearest((two_pow((-x.1) as nat) - x.0) as nat, 1, x.1)
    }
}

/// The binary64 one.
pub open spec fn one_value() -> (nat, int) {
    (0x10_0000_0000_0000, -52)
}

/// Halving starts over a power of two at every step.
proof fn lemma_shrink_to(num: nat, k: nat, d: nat, exp: int)
    requires
        k <= d,
        num / 0x20_0000_0000_0000 < two_pow(d),
        d > 0 ==> num >= 0x20_0000_0000_0000 * two_pow((d - 1) as nat),
    ensures
        shrink(num, two_pow(k), exp + k) == (half_even(num, two_pow(d)), exp + d),
    decreases d - k,
{
    lemma_two_pow_monotone(k, k);
    if k < d {
        lemma_two_pow_monotone(k, (d - 1) as nat);
        let p = two_pow(k);
        let top = two_pow((d - 1) as nat);
        assert(num / 0x20_0000_0000_0000 >= p) by (nonlinear_arith)
            requires
                num >= 0x20_0000_0000_0000 * top,
                top >= p,
        ;
        assert(two_pow((k + 1) as nat) == 2 * p);
        lemma_shrink_to(num, (k + 1) as nat, d, exp);
    }
}

/// A number that is rounded after exactly `d` halvings.
proof fn lemma_nearest_after(num: nat, d: nat, exp: int)
    requires
        num > 0,
        d > 0 ==> 0x20_0000_0000_0000 * two_pow((d - 1) as nat) <= num,
        d == 0 ==> 0x10_0000_0000_0000 <= num,
        num < 0x20_0000_0000_0000 * two_pow(d),
    ensures
        ({
            let h = half_even(num, two_pow(d));
            nearest(num, 1, exp) == if h >= 0x20_0000_0000_0000 {
                (0x10_0000_0000_0000nat, exp + d + 1)
            } else {
                (h, exp + d)
            }
        }),
{
    let p = two_pow(d);
    assert(two_pow(0) == 1);
    assert(num / 0x20_0000_0000_0000 < p) by (nonlinear_arith)
        requires
            num < 0x20_0000_0000_0000 * p,
    ;
    if d > 0 {
        lemma_two_pow_monotone(0, (d - 1) as nat);
        lemma_shrink_to(num, 0, d, exp);
    } else {
        assert(grow(num, 1, exp) == (half_even(num, 1), exp));
    }
}

/// Which halvings a sum takes: as many as lie between the exponents, or one
/// more.
proof fn lemma_sum_rounds(m: nat, s: nat, d: nat, exp: int)
    requires
        0x10_0000_0000_0000 <= m < 0x20_0000_0000_0000,
        0 < s < 0x20_0000_0000_0000,
    ensures
        ({
            let r = nearest(m * two_pow(d) + s, 1, exp);
            &&& exp + d <= r.1 <= exp + d + 2
            &&& d > 64 ==> r == (m, exp + d)
        }),
{
    let p = two_pow(d);
    let num = m * p + s;
    lemma_two_pow_monotone(d, d);
    assert(two_pow((d + 1) as nat) == 2 * p);
    assert(num > 0 && 0x10_0000_0000_0000 * p <= num) by (nonlinear_arith)
        requires
            num == m * p + s,
            m >= 0x10_0000_0000_0000,
            s > 0,
            p >= 1,
    ;
    if d > 0 {
        assert(p == 2 * two_pow((d - 1) as nat));
    }
    assert(num < 0x40_0000_0000_0000 * p) by (nonlinear_arith)
        requires
            num == m * p + s,
            m < 0x20_0000_0000_0000,
            s < 0x20_0000_0000_0000,
            p >= 1,
    ;
    if num < 0x20_0000_0000_0000 * p {
        lemma_nearest_after(num, d, exp);
    } else {
        lemma_nearest_after(num, (d + 1) as nat, exp);
    }
    if d > 64 {
        lemma_two_pow_monotone(62, d);
        lemma_two_pow_values();
        assert(num < 0x20_0000_0000_0000 * p) by (nonlinear_arith)
            requires
                num == m * p + s,
                m + 1 <= 0x20_0000_0000_0000,
                s < p,
        ;
        vstd::arithmetic::div_mod::lemma_fundamental_div_mod_converse(
            num as int,
            p as int,
            m as int,
            s as int,
        );
    }
}

/// The sum of two binary64 numbers.
pub fn plus(x: &Double, y: &Double) -> (r: Double)
    requires
        x.wf(),
        y.wf(),
        -3500 <= x.exp <= 3500,
        -3500 <= y.exp <= 3500,
    ensures
        r@ == sum(x@, y@),
        r.wf(),
        r.mant > 0 ==> (x.mant > 0 || y.mant > 0),
        x.mant > 0 ==> r.mant > 0 && r.exp >= x.exp,
        y.mant > 0 ==> r.mant > 0 && r.exp >= y.exp,
        r.exp <= (if x.exp >= y.exp {
            x.exp
        } else {
            y.exp
        }) + 2 || r.mant == 0,
{
    if x.mant == 0 {
        return Double { mant: y.mant, exp: y.exp };
    }
    if y.mant == 0 {
        return Double { mant: x.mant, exp: x.exp };
    }
    if x.exp >= y.exp {
        plus_aligned(x, y)
    } else {
        plus_aligned(y, x)
    }
}

fn plus_aligned(big: &Double, small: &Double) -> (r: Double)
    requires
        big.wf(),
        small.wf(),
        big.mant > 0,
        small.mant > 0,
        -3500 <= small.exp <= big.exp <= 3500,
    ensures
        r@ == nearest(
            big.mant as nat * two_pow((big.exp - small.exp) as nat) + small.mant as nat,
            1,
            small.exp as int,
        ),
        r.wf(),
        r.mant > 0,
        big.exp <= r.exp <= big.exp + 2,
{
    let d: i32 = big.exp - small.exp;
    proof {
        lemma_sum_rounds(big.mant as nat, small.mant as nat, d as nat, small.exp as int);
    }
    if d > 64 {
        return Double { mant: big.mant, exp: big.exp };
    }
    let p: u128 = power_of_two(d as u32);
    proof {
        lemma_two_pow_monotone(d as nat, 64);
        assert(two_pow(64) == 0x1_0000_0000_0000_0000) by {
            lemma_two_pow_values();
            assert(two_pow(64) == 2 * two_pow(63));
            assert(two_pow(63) == 2 * two_pow(62));
        }
        assert(0 <= big.mant * p <= 0x20_0000_0000_0000 * 0x1_0000_0000_0000_0000)
            by (nonlinear_arith)
            requires
                0 <= big.mant < 0x20_0000_0000_0000,
                0 <= p <= 0x1_0000_0000_0000_0000,
        ;
    }
    let num: u128 = big.mant as u128 * p + small.mant as u128;
    nearest_double(num, 1, small.exp)
}

/// How one less a small number rounds.
proof fn lemma_one_less_of_little(m: nat, n: nat)
    requires
        0x10_0000_0000_0000 <= m < 0x20_0000_0000_0000,
        n > 117,
    ensures
        nearest((two_pow(n) - m) as nat, 1, -(n as int)) == one_value(),
{
    let d: nat = (n - 53) as nat;
    let p = two_pow(d);
    lemma_two_pow_sum(53, d);
    assert(two_pow(53) == 2 * two_pow(52));
    lemma_two_pow_values();
    assert(two_pow(n) == 0x20_0000_0000_0000 * p);
    assert(p == 2 * two_pow((d - 1) as nat));
    assert(two_pow(63) == 2 * two_pow(62));
    assert(two_pow(64) == 2 * two_pow(63));
    lemma_two_pow_monotone(64, d);
    let num = (two_pow(n) - m) as nat;
    lemma_nearest_after(num, d, -(n as int));
    vstd::arithmetic::div_mod::lemma_fundamental_div_mod_converse(
        num as int,
        p as int,
        0x1f_ffff_ffff_ffff,
        p - m,
    );
}

proof fn lemma_two_pow_sum(a: nat, b: nat)
    ensures
        two_pow(a + b) == two_pow(a) * two_pow(b),
    decreases a,
{
    assert(two_pow(0) == 1);
    if a == 0 {
        assert(1 * two_pow(b) == two_pow(b));
    } else {
        let c = (a - 1) as nat;
        lemma_two_pow_sum(c, b);
        let p = two_pow(c);
        let q = two_pow(b);
        assert(two_pow(a) == 2 * p);
        assert((a + b - 1) as nat == c + b);
        assert(two_pow(a + b) == 2 * two_pow(c + b));
        assert(2 * (p * q) == (2 * p) * q) by (nonlinear_arith);
    }
}

/// One less a binary64 that is below one.
pub fn one_minus(x: &Double) -> (r: Double)
    requires
        x.wf(),
        -3500 <= x.exp,
        Double::exceeds(one_value(), x@),
    ensures
        r@ == one_less(x@),
        r.wf(),
        -200 <= r.exp <= 100,
{
    if x.mant == 0 {
        return Double { mant: 0x10_0000_0000_0000, exp: -52 };
    }
    let n: i32 = -x.exp;
    assert(n > 52);
    if n > 117 {
        proof {
            lemma_one_less_of_little(x.mant as nat, n as nat);
        }
        return Double { mant: 0x10_0000_0000_0000, exp: -52 };
    }
    let half: u32 = (n / 2) as u32;
    let p: u128 = power_of_two(half);
    let q: u128 = power_of_two(n as u32 - half);
    proof {
        lemma_two_pow_sum(half as nat, (n as u32 - half) as nat);
        lemma_two_pow_monotone(n as nat, 117);
        lemma_two_pow_monotone(53, n as nat);
        lemma_two_pow_values();
        assert(two_pow(53) == 2 * two_pow(52));
    }
    let top: u128 = p * q;
    nearest_double(top - x.mant as u128, 1, x.exp)
}

/// A binary64 in its 64-bit form: a sign, eleven bits of exponent, 52 bits of
/// fraction.
#[derive(Debug, Clone, Copy, PartialEq, Eq, Structural)]
pub struct Bits64 {
    pub bits: u64,
}

impl Bits64 {
    /// The number, None of one that is negative or not finite.
    pub open spec fn value(self) -> Option<(nat, int)> {
        let fraction = (self.bits % 0x10_0000_0000_0000) as nat;
        let exponent = self.bits as int / 0x10_0000_0000_0000 % 0x800;
        if exponent == 0x7ff {
            None
        } else if exponent == 0 && fraction == 0 {
            Some((0, 0))
        } else if self.bits >= 0x8000_0000_0000_0000 {
            None
        } else if exponent == 0 {
            Some(nearest(fraction, 1, -1074))
        } else {
            Some((0x10_0000_0000_0000 + fraction, exponent - 1075))
        }
    }

    /// The number, None of one that is negative or not finite.
    pub fn number(&self) -> (r: Option<Double>)
        ensures
            match (self.value(), r) {
                (Some(v), Some(d)) => d@ == v && d.wf() && -1126 <= d.exp <= 971,
                (None, None) => true,
                _ => false,
            },
    {
        let fraction: u64 = self.bits % 0x10_0000_0000_0000;
        let exponent: u64 = self.bits / 0x10_0000_0000_0000 % 0x800;
        if exponent == 0x7ff {
            return None;
        }
        if exponent == 0 && fraction == 0 {
            return Some(Double::zero());
        }
        if self.bits >= 0x8000_0000_0000_0000 {
            return None;
        }
        if exponent == 0 {
            return Some(nearest_double(fraction as u128, 1, -1074));
        }
        Some(Double { mant: 0x10_0000_0000_0000 + fraction, exp: exponent as i32 - 1075 })
    }
}

/// A whole number of up to 53 bits has a full mantissa after it was doubled.
proof fn lemma_of_nat_is_full(num: nat, exp: int)
    requires
        0 < num < 0x20_0000_0000_0000,
    ensures
        grow(num, 1, exp).0 >= 0x10_0000_0000_0000,
    decreases 0x20_0000_0000_0000 - num,
{
    if num / 0x10_0000_0000_0000 < 1 {
        lemma_of_nat_is_full(2 * num, exp - 1);
    }
}

/// Half of a whole number of up to 53 bits, without the fraction, is its
/// integer half.
pub proof fn halves_are_exact(n: nat, limit: nat)
    requires
        n < 0x20_0000_0000_0000,
        n / 2 <= limit,
    ensures
        truncated(product(of_nat(n), (0x10_0000_0000_0000, -53)), limit) == n / 2,
{
    let x = of_nat(n);
    if n > 0 {
        lemma_grow_is_exact(n, 0);
        lemma_of_nat_is_full(n, 0);
        let k = (-x.1) as nat;
        let m = x.0;
        assert(m == n * two_pow(k));
        let num = m * 0x10_0000_0000_0000;
        lemma_two_pow_values();
        assert(two_pow(52) == 2 * two_pow(51));
        lemma_nearest_after(num, 52, x.1 - 53);
        vstd::arithmetic::div_mod::lemma_fundamental_div_mod_converse(
            num as int,
            0x10_0000_0000_0000,
            m as int,
            0,
        );
        assert(half_even(num, two_pow(52)) == m);
        let y = product(x, (0x10_0000_0000_0000, -53));
        assert(y == (m, x.1 - 1));
        let p = two_pow(k);
        assert(two_pow((k + 1) as nat) == 2 * p);
        lemma_two_pow_monotone(0, k);
        assert(m / (2 * p) == n / 2) by {
            let q = (n / 2) as int;
            let r = n % 2;
            assert(m as int == q * (2 * p) + r * p && 0 <= r * p < 2 * p) by (nonlinear_arith)
                requires
                    m == n * p,
                    n == 2 * q + r,
                    0 <= r < 2,
                    p >= 1,
            ;
            vstd::arithmetic::div_mod::lemma_fundamental_div_mod_converse(
                m as int,
                (2 * p) as int,
                q,
                (r * p) as int,
            );
        }
    } else {
        assert(two_pow(0) == 1);
        assert(0 * 0x10_0000_0000_0000 == 0);
        assert(0 * two_pow(0) == 0);
    }
}

/// Rounding goes to a whole number at most a half away, and of two such to the
/// even one.
pub proof fn rounding_is_to_the_nearest(num: nat, den: nat)
    requires
        den > 0,
    ensures
        -(den as int) <= 2 * num - 2 * (half_even(num, den) * den) <= den,
        2 * num - 2 * (half_even(num, den) * den) == den ==> half_even(num, den) % 2 == 0,
        2 * num - 2 * (half_even(num, den) * den) == -(den as int) ==> half_even(num, den) % 2 == 0,
{
    lemma_fundamental_div_mod(num as int, den as int);
    let q = num / den;
    assert((q + 1) * den == q * den + den) by (nonlinear_arith);
    assert(q * den == den * q) by (nonlinear_arith);
}

proof fn lemma_shrink_error(num: nat, den: nat, exp: int)
    requires
        den > 0,
        num >= 0x10_0000_0000_0000 * den,
    ensures
        ({
            let r = shrink(num, den, exp);
            let w = den * two_pow((r.1 - exp) as nat);
            &&& r.1 >= exp
            &&& 0x10_0000_0000_0000 <= r.0 <= 0x20_0000_0000_0000
            &&& -(w as int) <= 2 * num - 2 * (r.0 * w) <= w
        }),
    decreases
            if num > den {
                num - den
            } else {
                0
            },
{
    if num / 0x20_0000_0000_0000 >= den {
        lemma_shrink_error(num, 2 * den, exp + 1);
        let r = shrink(num, den, exp);
        let k = (r.1 - exp - 1) as nat;
        assert(two_pow((r.1 - exp) as nat) == 2 * two_pow(k));
        assert((2 * den) * two_pow(k) == den * (2 * two_pow(k))) by (nonlinear_arith);
    } else {
        rounding_is_to_the_nearest(num, den);
        lemma_whole_part(num, den);
        assert(two_pow(0) == 1);
        assert(den * 1 == den);
    }
}

proof fn lemma_whole_part(num: nat, den: nat)
    requires
        den > 0,
        0x10_0000_0000_0000 * den <= num,
        num / 0x20_0000_0000_0000 < den,
    ensures
        0x10_0000_0000_0000 <= half_even(num, den) <= 0x20_0000_0000_0000,
{
    lemma_fundamental_div_mod(num as int, den as int);
    let q = num / den;
    let r = num % den;
    assert(0x10_0000_0000_0000 <= q < 0x20_0000_0000_0000) by (nonlinear_arith)
        requires
            num == den * q + r,
            0 <= r < den,
            num < 0x20_0000_0000_0000 * den,
            num >= 0x10_0000_0000_0000 * den,
            den > 0,
    ;
}

proof fn lemma_grow_error(num: nat, den: nat, exp: int)
    requires
        den > 0,
        num > 0,
        num / 0x20_0000_0000_0000 < den,
    ensures
        ({
            let r = grow(num, den, exp);
            let n = num * two_pow((exp - r.1) as nat);
            &&& r.1 <= exp
            &&& 0x10_0000_0000_0000 <= r.0 <= 0x20_0000_0000_0000
            &&& -(den as int) <= 2 * n - 2 * (r.0 * den) <= den
        }),
    decreases
            if 0x10_0000_0000_0000 * den > num {
                0x10_0000_0000_0000 * den - num
            } else {
                0
            },
{
    if num / 0x10_0000_0000_0000 < den {
        lemma_grow_error(2 * num, den, exp - 1);
        let r = grow(num, den, exp);
        let k = (exp - 1 - r.1) as nat;
        assert(two_pow((exp - r.1) as nat) == 2 * two_pow(k));
        assert((2 * num) * two_pow(k) == num * (2 * two_pow(k))) by (nonlinear_arith);
    } else {
        rounding_is_to_the_nearest(num, den);
        lemma_whole_part(num, den);
        assert(two_pow(0) == 1);
        assert(num * 1 == num);
    }
}

/// A binary64 is the nearest one: it has a full mantissa, and the true value
/// `num / den * 2^exp` lies at most half a unit of its last place away from it.
pub proof fn nearest_is_within_half_a_unit(num: nat, den: nat, exp: int)
    requires
        num > 0,
        den > 0,
    ensures
        ({
            let r = nearest(num, den, exp);
            &&& 0x10_0000_0000_0000 <= r.0 < 0x20_0000_0000_0000
            &&& r.1 >= exp ==> {
                let unit = den * two_pow((r.1 - exp) as nat);
                -(unit as int) <= 2 * num - 2 * (r.0 * unit) <= unit
            }
            &&& r.1 < exp ==> {
                let raised = num * two_pow((exp - r.1) as nat);
                -(den as int) <= 2 * raised - 2 * (r.0 * den) <= den
            }
        }),
{
    assert(two_pow(0) == 1);
    assert(den * 1 == den && num * 1 == num);
    if num / 0x20_0000_0000_0000 >= den {
        lemma_shrink_error(num, den, exp);
        let r = shrink(num, den, exp);
        if r.0 >= 0x20_0000_0000_0000 {
            let k = (r.1 - exp) as nat;
            let w = den * two_pow(k);
            assert(r.0 * w == 0x20_0000_0000_0000 * w) by (nonlinear_arith)
                requires
                    r.0 == 0x20_0000_0000_0000,
            ;
            assert(two_pow((k + 1) as nat) == 2 * two_pow(k));
            assert(den * (2 * two_pow(k)) == 2 * (den * two_pow(k))) by (nonlinear_arith);
            let z = nearest(num, den, exp);
            assert(z == (0x10_0000_0000_0000nat, r.1 + 1));
            assert((z.1 - exp) as nat == k + 1);
            let unit = den * two_pow((z.1 - exp) as nat);
            assert(unit == 2 * w);
            assert(z.0 * unit == 0x20_0000_0000_0000 * w) by (nonlinear_arith)
                requires
                    z.0 == 0x10_0000_0000_0000,
                    unit == 2 * w,
            ;
            assert(-(unit as int) <= 2 * num - 2 * (z.0 * unit) <= unit);
        } else {
            assert(nearest(num, den, exp) == r);
        }
    } else {
        lemma_grow_error(num, den, exp);
        let r = grow(num, den, exp);
        assert(den * two_pow(0) == den);
        assert(num * two_pow(0) == num);
        if r.0 >= 0x20_0000_0000_0000 {
            assert(r.0 * den == 0x20_0000_0000_0000 * den) by (nonlinear_arith)
                requires
                    r.0 == 0x20_0000_0000_0000,
            ;
            if r.1 == exp {
                assert(two_pow(1) == 2);
                assert(den * two_pow(1) == 2 * den) by (nonlinear_arith)
                    requires
                        two_pow(1) == 2,
                ;
                let z = nearest(num, den, exp);
                assert(z == (0x10_0000_0000_0000nat, exp + 1));
                assert((z.1 - exp) as nat == 1);
                let unit = den * two_pow((z.1 - exp) as nat);
                assert(unit == 2 * den);
                assert(-(unit as int) <= 2 * num - 2 * (z.0 * unit) <= unit);
            } else {
                let k = (exp - r.1 - 1) as nat;
                assert(two_pow((k + 1) as nat) == 2 * two_pow(k));
                assert(num * (2 * two_pow(k)) == 2 * (num * two_pow(k))) by (nonlinear_arith);
                let z = nearest(num, den, exp);
                assert(z == (0x10_0000_0000_0000nat, r.1 + 1));
                assert((exp - z.1) as nat == k);
                let raised = num * two_pow(k);
                assert(-(den as int) <= 2 * raised - 2 * (z.0 * den) <= den);
            }
        } else {
            assert(nearest(num, den, exp) == r);
            let raised = num * two_pow((exp - r.1) as nat);
            assert(-(den as int) <= 2 * raised - 2 * (r.0 * den) <= den);
        }
    }
}

/// Of two full mantissas the one of the higher exponent is the greater number,
/// and at the same exponent the greater mantissa.
pub proof fn greater_means_greater(x: (nat, int), y: (nat, int))
    requires
        0x10_0000_0000_0000 <= x.0 < 0x20_0000_0000_0000,
        0x10_0000_0000_0000 <= y.0 < 0x20_0000_0000_0000,
        x.1 >= y.1,
    ensures
        Double::exceeds(x, y) <==> x.0 * two_pow((x.1 - y.1) as nat) > y.0,
        Double::exceeds(x, (0, 0)),
        !Double::exceeds((0, 0), y),
{
    assert(two_pow(0) == 1);
    assert(x.0 * 1 == x.0);
    if x.1 == y.1 {
        assert(x.0 * two_pow(0) == x.0);
    }
    if x.1 > y.1 {
        let k = (x.1 - y.1) as nat;
        let p = two_pow(k);
        lemma_two_pow_monotone(1, k);
        assert(two_pow(1) == 2);
        assert(x.0 * p >= 0x20_0000_0000_0000) by (nonlinear_arith)
            requires
                x.0 >= 0x10_0000_0000_0000,
                p >= 2,
        ;
    }
}

} // verus!
