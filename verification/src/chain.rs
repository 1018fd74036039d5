//! The plain chain data that the library's rules read: block ids and the
//! height index.

use std::collections::HashMap;

use vstd::prelude::*;

use crate::bytes::{be_u64, be_value, bytes_eq, signed64, to_signed64};

verus! {

broadcast use vstd::std_specs::hash::group_hash_axioms;

/// A 32-byte block id. Its first eight bytes are the block number,
/// big-endian; the rest is a hash tail.
#[derive(Clone, Copy, Debug, PartialEq, Eq)]
pub struct BlockId {
    pub raw: [u8; 32],
}

impl BlockId {
    /// The block number that the id carries.
    pub open spec fn number(self) -> nat {
        be_value(self.raw@.subrange(0, 8))
    }

    /// An id with these bytes.
    pub fn from_raw(raw: [u8; 32]) -> (r: BlockId)
        ensures
            r.raw == raw,
    {
        BlockId { raw }
    }

    /// The bytes of the id.
    pub fn as_bytes(&self) -> (r: &[u8; 32])
        ensures
            *r == self.raw,
    {
        &self.raw
    }

    /// The block number as the signed height the stores use. A number past
    /// `i64::MAX` wraps to a negative height.
    pub open spec fn spec_height(self) -> int {
        signed64(self.number())
    }

    /// Whether two ids are the same.
    pub fn same(&self, other: &BlockId) -> (r: bool)
        ensures
            r == (*self == *other),
    {
        let r = bytes_eq(self.raw.as_slice(), other.raw.as_slice());
        if r {
            assert(self.raw =~= other.raw);
        }
        r
    }

    /// The block number as a signed height.
    pub fn height(&self) -> (r: i64)
        ensures
            r == self.spec_height(),
    {
        to_signed64(self.num())
    }

    /// The block number that the id carries.
    pub fn num(&self) -> (r: u64)
        ensures
            r == self.number(),
    {
        be_u64(self.raw.as_slice(), 0)
    }
}

/// The parameters of a native transfer.
#[derive(Debug, Clone)]
pub struct TransferParams {
    pub owner_address: Vec<u8>,
    pub to_address: Vec<u8>,
    pub amount: i64,
}

/// The parameters of a token transfer.
#[derive(Debug, Clone)]
pub struct TransferAssetParams {
    pub to_address: Vec<u8>,
}

/// The parameters of a contract call.
#[derive(Debug, Clone)]
pub struct TriggerParams {
    pub owner_address: Vec<u8>,
    pub contract_address: Vec<u8>,
    pub call_value: i64,
    pub data: Vec<u8>,
}

/// The first contract of a transaction, by type. Where the type carries
/// parameters that are read, they are None when they do not decode.
#[derive(Debug, Clone)]
pub enum TxContract {
    /// No raw data, or no contract in it.
    Absent,
    Transfer(Option<TransferParams>),
    TransferAsset(Option<TransferAssetParams>),
    Trigger(Option<TriggerParams>),
    /// Contract creation, with the contract's name.
    Create(Option<String>),
    /// Token issue, with the token's name.
    AssetIssue(Option<String>),
    VoteWitness,
    FreezeBalance,
    FreezeBalanceV2,
    DelegateResource,
    /// Any other type, or an unknown one.
    Other,
}

/// A block as it streams in: its timestamp, zero where its header has none,
/// and its transactions.
#[derive(Debug, Clone)]
pub struct StreamedBlock {
    pub timestamp: i64,
    pub transactions: Vec<TxContract>,
}

/// The height index: the canonical block id at each height.
pub struct BlockIndex {
    ids: HashMap<i64, BlockId>,
}

impl View for BlockIndex {
    type V = Map<i64, BlockId>;

    closed spec fn view(&self) -> Map<i64, BlockId> {
        self.ids@
    }
}

impl BlockIndex {
    /// An index that holds no height.
    pub fn new() -> (r: BlockIndex)
        ensures
            r@ == Map::<i64, BlockId>::empty(),
            r.wf(),
    {
        BlockIndex { ids: HashMap::new() }
    }

    /// Each id stands at the height it carries.
    pub open spec fn wf(&self) -> bool {
        forall|h: i64| #[trigger] self@.contains_key(h) ==> self@[h].spec_height() == h
    }

    /// Records `id` at the height it carries.
    pub fn put(&mut self, id: &BlockId)
        ensures
            final(self)@ == old(self)@.insert(id.spec_height() as i64, *id),
            old(self).wf() ==> final(self).wf(),
    {
        let h: i64 = id.height();
        self.ids.insert(h, *id);
        proof {
            assert forall|k: i64| #[trigger]
                self@.contains_key(k) && old(self).wf() implies self@[k].spec_height() == k by {
                assert(k != h ==> old(self)@.contains_key(k));
            }
        }
    }

    /// The id at `height`, if the index holds one.
    pub fn get(&self, height: i64) -> (r: Option<BlockId>)
        ensures
            r == (if self@.contains_key(height) {
                Some(self@[height])
            } else {
                None::<BlockId>
            }),
    {
        match self.ids.get(&height) {
            Some(id) => Some(*id),
            None => None,
        }
    }

    /// Forgets `height`.
    pub fn remove(&mut self, height: i64)
        ensures
            final(self)@ == old(self)@.remove(height),
            old(self).wf() ==> final(self).wf(),
    {
        self.ids.remove(&height);
        proof {
            assert forall|k: i64| #[trigger]
                self@.contains_key(k) && old(self).wf() implies self@[k].spec_height() == k by {
                assert(old(self)@.contains_key(k));
            }
        }
    }
}

/// A block's number stands in the first eight bytes of its id, the most
/// significant first, and the rest does not count.
pub proof fn ids_carry_the_number(id: BlockId)
    ensures
        id.number() == id.raw@[0] * 0x100_0000_0000_0000 + id.raw@[1] * 0x1_0000_0000_0000
            + id.raw@[2] * 0x100_0000_0000 + id.raw@[3] * 0x1_0000_0000 + id.raw@[4] * 0x100_0000
            + id.raw@[5] * 0x1_0000 + id.raw@[6] * 0x100 + id.raw@[7],
        id.raw@[0] < 128 ==> id.spec_height() == id.number(),
        id.raw@[0] >= 128 ==> id.spec_height() == id.number() - 0x1_0000_0000_0000_0000,
{
    let s = id.raw@.subrange(0, 8);
    assert(s.drop_last() =~= id.raw@.subrange(0, 7));
    assert(id.raw@.subrange(0, 7).drop_last() =~= id.raw@.subrange(0, 6));
    assert(id.raw@.subrange(0, 6).drop_last() =~= id.raw@.subrange(0, 5));
    assert(id.raw@.subrange(0, 5).drop_last() =~= id.raw@.subrange(0, 4));
    assert(id.raw@.subrange(0, 4).drop_last() =~= id.raw@.subrange(0, 3));
    assert(id.raw@.subrange(0, 3).drop_last() =~= id.raw@.subrange(0, 2));
    assert(id.raw@.subrange(0, 2).drop_last() =~= id.raw@.subrange(0, 1));
    assert(id.raw@.subrange(0, 1).drop_last() =~= Seq::<u8>::empty());
    reveal_with_fuel(be_value, 9);
}

} // verus!
