//! Fixed-width big-endian numbers and byte-sequence helpers.

use vstd::prelude::*;

verus! {

/// `256` to the power of `n`.
pub open spec fn pow256(n: nat) -> nat
    decreases n,
{
    if n == 0 {
        1
    } else {
        256 * pow256((n - 1) as nat)
    }
}

/// The number that `s` spells in base 256, most significant byte first.
pub open spec fn be_value(s: Seq<u8>) -> nat
    decreases s.len(),
{
    if s.len() == 0 {
        0
    } else {
        256 * be_value(s.drop_last()) + s.last() as nat
    }
}

/// A number of `n` bytes lies below `256^n`.
pub proof fn be_value_is_bounded(s: Seq<u8>)
    ensures
        be_value(s) < pow256(s.len()),
    decreases s.len(),
{
    if s.len() > 0 {
        be_value_is_bounded(s.drop_last());
    }
}

proof fn lemma_pow256_monotone(a: nat, b: nat)
    requires
        a <= b,
    ensures
        pow256(a) <= pow256(b),
    decreases b,
{
    if a < b {
        lemma_pow256_monotone(a, (b - 1) as nat);
    }
}

/// Sixteen bytes hold a 128-bit number.
proof fn lemma_pow256_sixteen()
    ensures
        pow256(1) == 0x100,
        pow256(2) == 0x1_0000,
        pow256(4) == 0x1_0000_0000,
        pow256(8) == 0x1_0000_0000_0000_0000,
        pow256(16) == 0x1_0000_0000_0000_0000_0000_0000_0000_0000,
{
    reveal_with_fuel(pow256, 17);
}

/// Up to eight bytes hold a 64-bit number.
pub proof fn eight_bytes_fit(n: nat)
    requires
        n <= 8,
    ensures
        pow256(n) <= 0x1_0000_0000_0000_0000,
{
    lemma_pow256_monotone(n, 8);
    lemma_pow256_sixteen();
}

/// The number in `len` bytes of `b` from `start` on.
pub fn be_number(b: &[u8], start: usize, len: usize) -> (r: u128)
    requires
        len <= 16,
        start + len <= b@.len(),
    ensures
        r == be_value(b@.subrange(start as int, start + len)),
        r < pow256(len as nat),
{
    let total: usize = b.len();
    let mut acc: u128 = 0;
    let mut i: usize = 0;
    assert(b@.subrange(start as int, start + 0) =~= Seq::<u8>::empty());
    while i < len
        invariant
            i <= len,
            len <= 16,
            start + len <= b@.len(),
            total == b@.len(),
            acc == be_value(b@.subrange(start as int, start + i)),
            acc < pow256(i as nat),
        decreases len - i,
    {
        proof {
            lemma_pow256_monotone((i + 1) as nat, 16);
            lemma_pow256_sixteen();
            let next = b@.subrange(start as int, start + i + 1);
            assert(next.drop_last() =~= b@.subrange(start as int, start + i));
            assert(next.last() == b@[start + i]);
        }
        acc = acc * 256 + b[start + i] as u128;
        i = i + 1;
    }
    acc
}

/// A big-endian 64-bit number at `start`.
pub fn be_u64(b: &[u8], start: usize) -> (r: u64)
    requires
        start + 8 <= b@.len(),
    ensures
        r == be_value(b@.subrange(start as int, start + 8)),
{
    let n: u128 = be_number(b, start, 8);
    proof {
        lemma_pow256_sixteen();
    }
    n as u64
}

/// A big-endian 32-bit number at `start`.
pub fn be_u32(b: &[u8], start: usize) -> (r: u32)
    requires
        start + 4 <= b@.len(),
    ensures
        r == be_value(b@.subrange(start as int, start + 4)),
{
    let n: u128 = be_number(b, start, 4);
    proof {
        lemma_pow256_sixteen();
    }
    n as u32
}

/// A big-endian 16-bit number at `start`.
pub fn be_u16(b: &[u8], start: usize) -> (r: u16)
    requires
        start + 2 <= b@.len(),
    ensures
        r == be_value(b@.subrange(start as int, start + 2)),
{
    let n: u128 = be_number(b, start, 2);
    proof {
        lemma_pow256_sixteen();
    }
    n as u16
}

/// The 64-bit pattern of `n` read as a signed number.
pub open spec fn signed64(n: nat) -> int {
    if n >= 0x8000_0000_0000_0000 {
        n - 0x1_0000_0000_0000_0000
    } else {
        n as int
    }
}

/// The bits of `n` read as a signed number.
pub fn to_signed64(n: u64) -> (r: i64)
    ensures
        r == signed64(n as nat),
{
    if n <= 0x7fff_ffff_ffff_ffff {
        n as i64
    } else {
        -1 - ((u64::MAX - n) as i64)
    }
}

/// Whether two byte sequences are the same.
pub fn bytes_eq(a: &[u8], b: &[u8]) -> (r: bool)
    ensures
        r == (a@ == b@),
{
    if a.len() != b.len() {
        return false;
    }
    let mut i: usize = 0;
    while i < a.len()
        invariant
            i <= a@.len(),
            a@.len() == b@.len(),
            forall|j: int| 0 <= j < i ==> a@[j] == b@[j],
        decreases a@.len() - i,
    {
        if a[i] != b[i] {
            return false;
        }
        i = i + 1;
    }
    assert(a@ =~= b@);
    true
}

/// The bytes `from..to` of `b`, copied.
pub fn copy_range(b: &[u8], from: usize, to: usize) -> (r: Vec<u8>)
    requires
        from <= to <= b@.len(),
    ensures
        r@ == b@.subrange(from as int, to as int),
{
    let mut v: Vec<u8> = Vec::new();
    let mut i: usize = from;
    while i < to
        invariant
            from <= i <= to <= b@.len(),
            v@ == b@.subrange(from as int, i as int),
        decreases to - i,
    {
        v.push(b[i]);
        i = i + 1;
        assert(v@ =~= b@.subrange(from as int, i as int));
    }
    v
}

/// All of `b`, copied.
pub fn copy_all(b: &[u8]) -> (r: Vec<u8>)
    ensures
        r@ == b@,
{
    let v = copy_range(b, 0, b.len());
    assert(b@.subrange(0, b@.len() as int) =~= b@);
    v
}

/// Bytes spell a number in base 256, each byte worth 256 times the one behind
/// it; from half the range on the signed reading is negative.
pub proof fn bytes_spell_numbers(s: Seq<u8>, b: u8, v: nat)
    ensures
        be_value(s.push(b)) == 256 * be_value(s) + b,
        be_value(Seq::empty()) == 0,
        v < 0x8000_0000_0000_0000 ==> signed64(v) == v,
        0x8000_0000_0000_0000 <= v < 0x1_0000_0000_0000_0000 ==> signed64(v) == v
            - 0x1_0000_0000_0000_0000,
{
    assert(s.push(b).drop_last() =~= s);
}

} // verus!
