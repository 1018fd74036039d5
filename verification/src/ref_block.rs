//! Replay protection: a transaction's `ref_block_bytes` / `ref_block_hash`
//! checked against the chain's recent history.
//!
//! A transaction binds itself to a block by the low 16 bits of its number and
//! by bytes `8..16` of its id. Both must match a block among the last
//! [`REF_BLOCK_WINDOW`] ones.

use vstd::prelude::*;
use vstd::string::*;

use crate::bytes::{be_u16, be_value, bytes_eq, copy_all};
use crate::chain::{BlockId, BlockIndex};
use crate::text::{append_hex_byte, append_int, append_nat, decimal, hex_byte, int_decimal};

verus! {

/// The recent-block window: the key space of the two-byte reference.
pub const REF_BLOCK_WINDOW: i64 = 65_536;

/// The two reference fields of a transaction's raw data.
#[derive(Debug, Clone)]
pub struct RefBlockFields {
    pub ref_block_bytes: Vec<u8>,
    pub ref_block_hash: Vec<u8>,
}

/// Why a transaction's block reference is refused.
#[derive(Debug, Clone, PartialEq, Eq)]
pub enum RefBlockError {
    /// `ref_block_bytes` was not exactly 2 bytes.
    InvalidRefBlockBytesLength(usize),
    /// `ref_block_hash` was not exactly 8 bytes.
    InvalidRefBlockHashLength(usize),
    /// No block in the window matches the low 16 bits.
    UnknownReferencedBlock { ref_low16: u16, head_num: i64 },
    /// The referenced block has another hash tail: a different fork.
    HashMismatch { block_num: i64, expected: [u8; 8], actual: Vec<u8> },
}

/// A byte list as `[aa, bb]`, two hexadecimal digits each.
pub open spec fn hex_list(b: Seq<u8>) -> Seq<char> {
    hex_items(b).insert(0, '[').push(']')
}

/// Two-digit hexadecimal items, separated by a comma and a blank.
pub open spec fn hex_items(b: Seq<u8>) -> Seq<char>
    decreases b.len(),
{
    if b.len() == 0 {
        Seq::empty()
    } else if b.len() == 1 {
        hex_byte(b[0])
    } else {
        hex_items(b.drop_last()) + ", "@ + hex_byte(b.last())
    }
}

fn append_hex_list(out: &mut String, b: &[u8])
    ensures
        final(out)@ == old(out)@ + hex_list(b@),
{
    out.push('[');
    let mut i: usize = 0;
    let ghost base = out@;
    assert(base + hex_items(b@.take(0)) =~= base);
    while i < b.len()
        invariant
            i <= b@.len(),
            out@ == base + hex_items(b@.take(i as int)),
        decreases b@.len() - i,
    {
        let ghost before = b@.take(i as int);
        let ghost after = b@.take(i + 1);
        assert(after.drop_last() =~= before);
        assert(after.last() == b@[i as int]);
        if i > 0 {
            out.append(", ");
        }
        append_hex_byte(out, b[i]);
        i = i + 1;
        assert(out@ =~= base + hex_items(after));
    }
    assert(b@.take(b@.len() as int) =~= b@);
    out.push(']');
    assert(out@ =~= old(out)@ + hex_list(b@));
}

impl RefBlockError {
    /// The refusal in words.
    pub open spec fn text(&self) -> Seq<char> {
        match *self {
            RefBlockError::InvalidRefBlockBytesLength(n) =>
                "ref_block_bytes must be 2 bytes, got "@ + decimal(n as nat),
            RefBlockError::InvalidRefBlockHashLength(n) =>
                "ref_block_hash must be 8 bytes, got "@ + decimal(n as nat),
            RefBlockError::UnknownReferencedBlock { ref_low16, head_num } =>
                "tx references block whose low-16-bits 0x"@ + hex_byte((ref_low16 / 256) as u8)
                    + hex_byte((ref_low16 % 256) as u8)
                    + " resolves outside the 65,536-block window at head "@ + int_decimal(
                    head_num as int,
                ),
            RefBlockError::HashMismatch { block_num, expected, actual } =>
                "ref_block_hash mismatch at block "@ + int_decimal(block_num as int)
                    + ": expected "@ + hex_list(expected@) + ", got "@ + hex_list(actual@),
        }
    }

    /// The refusal in words.
    pub fn message(&self) -> (r: String)
        ensures
            r@ == self.text(),
    {
        let mut out = String::new();
        match self {
            RefBlockError::InvalidRefBlockBytesLength(n) => {
                out.append("ref_block_bytes must be 2 bytes, got ");
                append_nat(&mut out, *n as u128);
            },
            RefBlockError::InvalidRefBlockHashLength(n) => {
                out.append("ref_block_hash must be 8 bytes, got ");
                append_nat(&mut out, *n as u128);
            },
            RefBlockError::UnknownReferencedBlock { ref_low16, head_num } => {
                out.append("tx references block whose low-16-bits 0x");
                append_hex_byte(&mut out, (*ref_low16 / 256) as u8);
                append_hex_byte(&mut out, (*ref_low16 % 256) as u8);
                out.append(" resolves outside the 65,536-block window at head ");
                append_int(&mut out, *head_num);
            },
            RefBlockError::HashMismatch { block_num, expected, actual } => {
                out.append("ref_block_hash mismatch at block ");
                append_int(&mut out, *block_num);
                out.append(": expected ");
                append_hex_list(&mut out, expected.as_slice());
                out.append(", got ");
                append_hex_list(&mut out, actual.as_slice());
            },
        }
        assert(out@ =~= self.text());
        out
    }
}

/// The most recent number at or before `head` whose low 16 bits are `low`.
pub open spec fn most_recent_match(head: int, low: int) -> int {
    head - (head - low) % 65_536
}

/// Among the numbers at or before `head` with the low 16 bits `low`, the
/// resolved one is the greatest.
pub proof fn resolved_reference_is_the_most_recent(head: int, low: int, n: int)
    requires
        0 <= low < 65_536,
    ensures
        most_recent_match(head, low) <= head,
        most_recent_match(head, low) % 65_536 == low,
        head - most_recent_match(head, low) < 65_536,
        n <= head && n % 65_536 == low ==> n <= most_recent_match(head, low),
{
    let q = (head - low) / 65_536;
    assert(head - low == 65_536 * q + (head - low) % 65_536);
    assert(most_recent_match(head, low) == 65_536 * q + low);
    if n <= head && n % 65_536 == low {
        assert(n == 65_536 * (n / 65_536) + low);
        assert(n / 65_536 <= q);
    }
}

/// Resolves the full block number behind a two-byte reference: the most recent
/// number at or before `head_num` with those low 16 bits. It may be negative;
/// the window check is [`validate_ref_block`]'s.
pub fn resolve_ref_block_candidate(head_num: i64, ref_low16: u16) -> (r: i64)
    requires
        most_recent_match(head_num as int, ref_low16 as int) >= i64::MIN,
    ensures
        r == most_recent_match(head_num as int, ref_low16 as int),
{
    let high_bits: i64 = head_num & !0xFFFF;
    let low: i64 = ref_low16 as i64;
    let block: i64 = head_num >> 16;
    assert(high_bits as int == 65_536 * (block as int) && high_bits <= head_num && head_num
        - high_bits < 65_536) by (bit_vector)
        requires
            high_bits == head_num & !0xFFFFi64,
            block == head_num >> 16,
    ;
    let joined: i64 = high_bits | low;
    assert(joined == high_bits + low) by (bit_vector)
        requires
            high_bits == head_num & !0xFFFFi64,
            joined == high_bits | low,
            0 <= low <= 0xFFFF,
    ;
    let mut candidate: i64 = joined;
    proof {
        let q = (head_num - ref_low16) as int / 65_536;
        assert(head_num - ref_low16 == 65_536 * q + (head_num - ref_low16) as int % 65_536);
        assert(most_recent_match(head_num as int, ref_low16 as int) == 65_536 * q + ref_low16);
        assert(joined == 65_536 * (block as int) + ref_low16);
        assert(q == block || q == block - 1);
    }
    if candidate > head_num {
        candidate = candidate - REF_BLOCK_WINDOW;
    }
    candidate
}

/// What [`validate_ref_block`] answers.
pub open spec fn ref_block_verdict(
    bytes: Seq<u8>,
    hash: Seq<u8>,
    head: int,
    index: Map<i64, BlockId>,
) -> RefBlockVerdict {
    let low = be_value(bytes) as int;
    let candidate = most_recent_match(head, low);
    if bytes.len() != 2 {
        RefBlockVerdict::BytesLength
    } else if hash.len() != 8 {
        RefBlockVerdict::HashLength
    } else if head < 0 || candidate < 0 || !index.contains_key(candidate as i64) {
        RefBlockVerdict::Unknown { low }
    } else if index[candidate as i64].raw@.subrange(8, 16) != hash {
        RefBlockVerdict::Mismatch { candidate }
    } else {
        RefBlockVerdict::Accepted
    }
}

/// The outcomes of the replay gate.
pub enum RefBlockVerdict {
    Accepted,
    BytesLength,
    HashLength,
    Unknown { low: int },
    Mismatch { candidate: int },
}

/// Validates a transaction's block reference against the height index.
///
/// `head_num` is the highest block number considered to be in the index. The
/// window is the last [`REF_BLOCK_WINDOW`] numbers up to it.
pub fn validate_ref_block(raw: &RefBlockFields, head_num: i64, block_index: &BlockIndex) -> (r:
    Result<(), RefBlockError>)
    ensures
        match ref_block_verdict(
            raw.ref_block_bytes@,
            raw.ref_block_hash@,
            head_num as int,
            block_index@,
        ) {
            RefBlockVerdict::Accepted => r is Ok,
            RefBlockVerdict::BytesLength => r matches Err(
                RefBlockError::InvalidRefBlockBytesLength(n),
            ) && n == raw.ref_block_bytes@.len(),
            RefBlockVerdict::HashLength => r matches Err(
                RefBlockError::InvalidRefBlockHashLength(n),
            ) && n == raw.ref_block_hash@.len(),
            RefBlockVerdict::Unknown { low } => r matches Err(
                RefBlockError::UnknownReferencedBlock { ref_low16, head_num: h },
            ) && ref_low16 == low && h == head_num,
            RefBlockVerdict::Mismatch { candidate } => r matches Err(
                RefBlockError::HashMismatch { block_num, expected, actual },
            ) && block_num == candidate && expected@ == block_index@[block_num].raw@.subrange(8, 16)
                && actual@ == raw.ref_block_hash@,
        },
{
    if raw.ref_block_bytes.len() != 2 {
        return Err(RefBlockError::InvalidRefBlockBytesLength(raw.ref_block_bytes.len()));
    }
    if raw.ref_block_hash.len() != 8 {
        return Err(RefBlockError::InvalidRefBlockHashLength(raw.ref_block_hash.len()));
    }
    let ref_low16: u16 = be_u16(raw.ref_block_bytes.as_slice(), 0);
    assert(raw.ref_block_bytes@.subrange(0, 2) =~= raw.ref_block_bytes@);
    if head_num < 0 {
        return Err(RefBlockError::UnknownReferencedBlock { ref_low16, head_num });
    }
    let candidate: i64 = resolve_ref_block_candidate(head_num, ref_low16);
    if candidate < 0 || head_num - candidate >= REF_BLOCK_WINDOW {
        return Err(RefBlockError::UnknownReferencedBlock { ref_low16, head_num });
    }
    let id = match block_index.get(candidate) {
        Some(id) => id,
        None => {
            return Err(RefBlockError::UnknownReferencedBlock { ref_low16, head_num });
        },
    };
    let b = id.raw;
    let expected: [u8; 8] = [b[8], b[9], b[10], b[11], b[12], b[13], b[14], b[15]];
    assert(expected@ =~= id.raw@.subrange(8, 16));
    if !bytes_eq(expected.as_slice(), raw.ref_block_hash.as_slice()) {
        return Err(
            RefBlockError::HashMismatch {
                block_num: candidate,
                expected,
                actual: copy_all(raw.ref_block_hash.as_slice()),
            },
        );
    }
    Ok(())
}

/// A reference to a recent block is accepted: any block from the head back
/// through the window, the head itself included, that the index holds may be named
/// by the low sixteen bits of its number and by eight bytes of its id.
pub proof fn recent_references_are_accepted(
    bytes: Seq<u8>,
    hash: Seq<u8>,
    head: int,
    index: Map<i64, BlockId>,
    n: i64,
)
    requires
        0 <= n <= head,
        head - n < 65_536,
        index.contains_key(n),
        bytes.len() == 2,
        bytes[0] * 256 + bytes[1] == n as int % 65_536,
        hash == index[n].raw@.subrange(8, 16),
    ensures
        ref_block_verdict(bytes, hash, head, index) == RefBlockVerdict::Accepted,
{
    lemma_two_bytes(bytes);
    resolved_reference_is_the_most_recent(head, bytes[0] * 256 + bytes[1], n as int);
    assert(hash.len() == 8);
}

/// A reference that is accepted names a block of the window that the index holds,
/// by its low sixteen bits and by eight bytes of its id; and it names only one.
pub proof fn accepted_references_are_recent(
    bytes: Seq<u8>,
    hash: Seq<u8>,
    head: int,
    index: Map<i64, BlockId>,
    other: int,
) -> (n: i64)
    requires
        head <= i64::MAX,
        ref_block_verdict(bytes, hash, head, index) == RefBlockVerdict::Accepted,
    ensures
        0 <= n <= head,
        head - n < 65_536,
        index.contains_key(n),
        bytes.len() == 2,
        bytes[0] * 256 + bytes[1] == n as int % 65_536,
        hash == index[n].raw@.subrange(8, 16),
        0 <= other <= head && head - other < 65_536 && other % 65_536 == bytes[0] * 256 + bytes[1]
            ==> other == n,
{
    lemma_two_bytes(bytes);
    let low = bytes[0] * 256 + bytes[1];
    let n = most_recent_match(head, low);
    resolved_reference_is_the_most_recent(head, low, other);
    n as i64
}

/// Each refusal has its reason: the lengths are checked first; a reference is
/// unknown exactly if the index holds no block of the window with its low sixteen
/// bits; and it is of another fork exactly if the block there has another id.
pub proof fn refused_references_have_a_reason(
    bytes: Seq<u8>,
    hash: Seq<u8>,
    head: int,
    index: Map<i64, BlockId>,
)
    requires
        head <= i64::MAX,
    ensures
        match ref_block_verdict(bytes, hash, head, index) {
            RefBlockVerdict::Accepted => bytes.len() == 2 && hash.len() == 8,
            RefBlockVerdict::BytesLength => bytes.len() != 2,
            RefBlockVerdict::HashLength => bytes.len() == 2 && hash.len() != 8,
            RefBlockVerdict::Unknown { low } => {
                &&& bytes.len() == 2 && hash.len() == 8
                &&& low == bytes[0] * 256 + bytes[1]
                &&& forall|n: i64|
                    0 <= n <= head && head - n < 65_536 && n as int % 65_536 == low
                        ==> !#[trigger] index.contains_key(n)
            },
            RefBlockVerdict::Mismatch { candidate } => {
                &&& bytes.len() == 2 && hash.len() == 8
                &&& 0 <= candidate <= head && head - candidate < 65_536
                &&& candidate % 65_536 == bytes[0] * 256 + bytes[1]
                &&& index.contains_key(candidate as i64)
                &&& index[candidate as i64].raw@.subrange(8, 16) != hash
            },
        },
{
    if bytes.len() == 2 {
        lemma_two_bytes(bytes);
        let low = bytes[0] * 256 + bytes[1];
        resolved_reference_is_the_most_recent(head, low, 0);
        let at = most_recent_match(head, low);
        assert forall|n: i64|
            0 <= n <= head && head - n < 65_536 && n as int % 65_536 == low && #[trigger]
                index.contains_key(n) implies n == at by {
            resolved_reference_is_the_most_recent(head, low, n as int);
        }
    }
}

proof fn lemma_two_bytes(b: Seq<u8>)
    requires
        b.len() == 2,
    ensures
        be_value(b) == b[0] * 256 + b[1],
        0 <= b[0] * 256 + b[1] < 65_536,
{
    reveal_with_fuel(be_value, 3);
}

/// A reference to a block of the window that the index holds is let through, and
/// a refusal tells what was wrong with it.
pub proof fn references_are_answered(
    raw: RefBlockFields,
    head: i64,
    index: BlockIndex,
    n: i64,
    r: Result<(), RefBlockError>,
)
    requires
        call_ensures(validate_ref_block, (&raw, head, &index), r),
    ensures
        raw.ref_block_bytes@.len() != 2 ==> r is Err && r->Err_0
            is InvalidRefBlockBytesLength,
        raw.ref_block_bytes@.len() == 2 && raw.ref_block_hash@.len() != 8 ==> r is Err && r->Err_0
            is InvalidRefBlockHashLength,
        0 <= n <= head && head - n < 65_536 && index@.contains_key(n) && raw.ref_block_bytes@.len()
            == 2 && raw.ref_block_bytes@[0] * 256 + raw.ref_block_bytes@[1] == n as int % 65_536
            && raw.ref_block_hash@ == index@[n].raw@.subrange(8, 16) ==> r is Ok,
        r is Ok ==> raw.ref_block_bytes@.len() == 2 && raw.ref_block_hash@.len() == 8,
        r is Err && r->Err_0 is HashMismatch ==> (r->Err_0->HashMismatch_actual)@
            == raw.ref_block_hash@ && index@.contains_key(r->Err_0->HashMismatch_block_num)
            && (r->Err_0->HashMismatch_expected)@
            == index@[r->Err_0->HashMismatch_block_num].raw@.subrange(8, 16),
        r is Err && r->Err_0 is UnknownReferencedBlock ==> r->Err_0->UnknownReferencedBlock_head_num
            == head,
{
    let bytes = raw.ref_block_bytes@;
    let hash = raw.ref_block_hash@;
    if 0 <= n <= head && head - n < 65_536 && index@.contains_key(n) && bytes.len() == 2 && bytes[0]
        * 256 + bytes[1] == n as int % 65_536 && hash == index@[n].raw@.subrange(8, 16) {
        recent_references_are_accepted(bytes, hash, head as int, index@, n);
        assert(hash.len() == 8);
    }
}

/// A list of bytes is shown in brackets, two digits each, with a comma and a
/// blank between every two.
pub proof fn byte_lists_are_shown(b: Seq<u8>, x: u8)
    ensures
        b.len() > 0 ==> hex_items(b.push(x)) == hex_items(b) + ", "@ + hex_byte(x),
        hex_items(seq![x]) == hex_byte(x),
        hex_items(Seq::empty()) == Seq::<char>::empty(),
        hex_list(b) == seq!['['] + hex_items(b) + seq![']'],
{
    assert(b.push(x).drop_last() =~= b);
    assert(hex_list(b) =~= seq!['['] + hex_items(b) + seq![']']);
}

} // verus!
