//! Whether a stopped node's head pointer agrees with its block stores.

use vstd::prelude::*;
use vstd::string::*;

use crate::bytes::{be_u64, be_value, copy_range, signed64, to_signed64};
use crate::chain::BlockId;
use crate::text::{append_int, hex_encode, hex_text, int_decimal};

verus! {

/// What the stores hold for the head's height and id.
#[derive(Debug)]
pub struct HeadReadings {
    /// The id that the index holds at the head's height, or why it cannot be
    /// read.
    pub indexed: Result<BlockId, String>,
    /// Why the head's block cannot be read, if so.
    pub body_fault: Option<String>,
    /// The greatest key of the index, if it holds any.
    pub top_key: Option<Vec<u8>>,
}

/// The first eight bytes of an id, in hexadecimal.
pub open spec fn short_id(id: BlockId) -> Seq<char> {
    hex_text(id.raw@.subrange(0, 8))
}

/// The verdict on the height index.
pub open spec fn index_line(head: int, id: BlockId, indexed: Result<BlockId, String>) -> Seq<char> {
    match indexed {
        Ok(x) => if x == id {
            "  block-index[#"@ + int_decimal(head) + "] == head hash  ✓\n"@
        } else {
            "  ✗ SKEW: block-index[#"@ + int_decimal(head) + "] = "@ + short_id(x)
                + " != head hash "@ + short_id(id) + "\n"@
        },
        Err(e) => "  ✗ SKEW: block-index[#"@ + int_decimal(head) + "] unreadable: "@ + e@ + "\n"@,
    }
}

/// The verdict on the block store.
pub open spec fn body_line(fault: Option<String>) -> Seq<char> {
    match fault {
        None => "  head block present in block store          ✓\n"@,
        Some(e) => "  ✗ SKEW: head block absent from block store: "@ + e@ + "\n"@,
    }
}

/// The height that a key of the index stands for; None of one that is no height.
pub open spec fn key_height(key: Option<Vec<u8>>) -> Option<int> {
    match key {
        Some(k) => if k@.len() == 8 {
            Some(signed64(be_value(k@)))
        } else {
            None
        },
        None => None,
    }
}

/// Where the index ends, and how far that is from the head.
pub open spec fn top_line(head: int, top: Option<int>) -> Seq<char> {
    match top {
        Some(t) => "  block-index max height: #"@ + int_decimal(t) + "  (head says #"@ + int_decimal(
            head,
        ) + "; delta "@ + int_decimal(t - head) + ")\n"@,
        None => ""@,
    }
}

/// The whole report. The head's number is zero where none is recorded.
pub open spec fn head_text(head: int, hash: Option<[u8; 32]>, r: HeadReadings) -> Seq<char> {
    "head pointer (properties): #"@ + int_decimal(head) + "\n"@ + match hash {
        None => "  no head hash in properties\n"@,
        Some(h) => index_line(head, BlockId { raw: h }, r.indexed) + body_line(r.body_fault)
            + top_line(head, key_height(r.top_key)),
    }
}

fn append_short_id(out: &mut String, id: &BlockId)
    ensures
        final(out)@ == old(out)@ + short_id(*id),
{
    let head = copy_range(id.raw.as_slice(), 0, 8);
    let hex = hex_encode(head.as_slice());
    out.append(hex.as_str());
}

fn top_height(key: &Option<Vec<u8>>) -> (r: Option<i64>)
    ensures
        match (r, key_height(*key)) {
            (Some(a), Some(b)) => a == b,
            (None, None) => true,
            _ => false,
        },
{
    match key {
        Some(k) => if k.len() == 8 {
            assert(k@.subrange(0, 8) =~= k@);
            Some(to_signed64(be_u64(k.as_slice(), 0)))
        } else {
            None
        },
        None => None,
    }
}

/// Whether the distance of the index's end from the head can be computed.
pub fn delta_fits(head: i64, readings: &HeadReadings) -> (r: bool)
    ensures
        r == (key_height(readings.top_key) matches Some(t) ==> i64::MIN <= t - head <= i64::MAX),
{
    match top_height(&readings.top_key) {
        Some(t) => t.checked_sub(head).is_some(),
        None => true,
    }
}

fn append_index_line(out: &mut String, head: i64, id: &BlockId, indexed: &Result<BlockId, String>)
    ensures
        final(out)@ == old(out)@ + index_line(head as int, *id, *indexed),
{
    match indexed {
        Ok(x) => if x.same(id) {
            out.append("  block-index[#");
            append_int(out, head);
            out.append("] == head hash  ✓\n");
        } else {
            out.append("  ✗ SKEW: block-index[#");
            append_int(out, head);
            out.append("] = ");
            append_short_id(out, x);
            out.append(" != head hash ");
            append_short_id(out, id);
            out.append("\n");
        },
        Err(e) => {
            out.append("  ✗ SKEW: block-index[#");
            append_int(out, head);
            out.append("] unreadable: ");
            out.append(e.as_str());
            out.append("\n");
        },
    }
    assert(out@ =~= old(out)@ + index_line(head as int, *id, *indexed));
}

fn append_body_line(out: &mut String, fault: &Option<String>)
    ensures
        final(out)@ == old(out)@ + body_line(*fault),
{
    match fault {
        None => {
            out.append("  head block present in block store          ✓\n");
        },
        Some(e) => {
            out.append("  ✗ SKEW: head block absent from block store: ");
            out.append(e.as_str());
            out.append("\n");
        },
    }
    assert(out@ =~= old(out)@ + body_line(*fault));
}

fn append_top_line(out: &mut String, head: i64, key: &Option<Vec<u8>>)
    requires
        key_height(*key) matches Some(t) ==> i64::MIN <= t - head <= i64::MAX,
    ensures
        final(out)@ == old(out)@ + top_line(head as int, key_height(*key)),
{
    match top_height(key) {
        Some(t) => {
            out.append("  block-index max height: #");
            append_int(out, t);
            out.append("  (head says #");
            append_int(out, head);
            out.append("; delta ");
            append_int(out, t - head);
            out.append(")\n");
        },
        None => {
            proof {
                reveal_strlit("");
            }
        },
    }
    assert(out@ =~= old(out)@ + top_line(head as int, key_height(*key)));
}

/// The report on the head: whether the index and the block store know it, and
/// where the index ends.
pub fn head_report(head: i64, hash: Option<[u8; 32]>, readings: &HeadReadings) -> (r: String)
    requires
        key_height(readings.top_key) matches Some(t) ==> i64::MIN <= t - head <= i64::MAX,
    ensures
        r@ == head_text(head as int, hash, *readings),
{
    let mut out = "head pointer (properties): #".to_owned();
    append_int(&mut out, head);
    out.append("\n");
    match hash {
        None => {
            out.append("  no head hash in properties\n");
        },
        Some(h) => {
            let id = BlockId::from_raw(h);
            append_index_line(&mut out, head, &id, &readings.indexed);
            append_body_line(&mut out, &readings.body_fault);
            append_top_line(&mut out, head, &readings.top_key);
        },
    }
    assert(out@ =~= head_text(head as int, hash, *readings));
    out
}

/// The index agrees exactly where it holds the head's own id; any other id and
/// any failure to read is a skew, and so is a block that cannot be read.
pub proof fn verdicts_follow_the_stores(head: int, id: BlockId, other: BlockId, fault: String)
    requires
        other != id,
    ensures
        index_line(head, id, Ok(id)) == "  block-index[#"@ + int_decimal(head)
            + "] == head hash  ✓\n"@,
        index_line(head, id, Ok(other)) == "  ✗ SKEW: block-index[#"@ + int_decimal(head) + "] = "@
            + hex_text(other.raw@.subrange(0, 8)) + " != head hash "@ + hex_text(
            id.raw@.subrange(0, 8),
        ) + "\n"@,
        index_line(head, id, Err(fault)) == "  ✗ SKEW: block-index[#"@ + int_decimal(head)
            + "] unreadable: "@ + fault@ + "\n"@,
        body_line(None) == "  head block present in block store          ✓\n"@,
        body_line(Some(fault)) == "  ✗ SKEW: head block absent from block store: "@ + fault@
            + "\n"@,
{
}

/// A key of the index is a height in eight bytes; the distance told is that of
/// the index's end from the head.
pub proof fn index_ends_are_told(head: int, key: Vec<u8>)
    ensures
        key@.len() == 8 ==> key_height(Some(key)) == Some(signed64(be_value(key@))),
        key@.len() != 8 ==> key_height(Some(key)) is None,
        key_height(None) is None,
        key@.len() == 8 ==> top_line(head, key_height(Some(key)))
            == "  block-index max height: #"@ + int_decimal(signed64(be_value(key@)))
            + "  (head says #"@ + int_decimal(head) + "; delta "@ + int_decimal(
            signed64(be_value(key@)) - head,
        ) + ")\n"@,
{
}

} // verus!
