//! Admission of a transaction to the pool: the checks against the chain's
//! state that a peer would make on receipt, in the order in which a peer makes
//! them, so that nothing is relayed that every peer refuses.

use vstd::prelude::*;
use vstd::string::*;

use crate::chain::{BlockId, BlockIndex};
use crate::ref_block::{
    accepted_references_are_recent, hex_list, recent_references_are_accepted, ref_block_verdict,
    validate_ref_block, RefBlockFields, RefBlockVerdict,
};
use crate::text::{append_int, append_nat, decimal, hex_byte, int_decimal};

verus! {

/// How far beyond the head's time a transaction may expire, in milliseconds.
pub const MAXIMUM_TIME_UNTIL_EXPIRATION_MS: i64 = 86_400_000;

/// The first contract of a transaction, as far as admission reads it.
#[derive(Debug, Clone, Copy, PartialEq, Eq, Structural)]
pub struct ContractHead {
    pub type_code: i32,
    /// Whether the code is one of a contract type.
    pub known: bool,
    pub has_parameter: bool,
}

/// The raw data of a transaction, as far as admission reads it.
#[derive(Debug, Clone)]
pub struct RawTransaction {
    pub contracts: Vec<ContractHead>,
    pub expiration: i64,
    pub ref_block: RefBlockFields,
    /// The memo.
    pub data: Vec<u8>,
}

/// A transaction, as far as admission reads it.
#[derive(Debug, Clone)]
pub struct CandidateTx {
    pub raw_data: Option<RawTransaction>,
    pub signatures: usize,
}

/// What admission reads of the chain.
pub struct ChainState {
    /// The head's timestamp, where it is known.
    pub head_time: Option<i64>,
    /// The head's number, where it is known.
    pub head_number: Option<i64>,
    /// The height index; without one the replay gate is skipped.
    pub block_index: Option<BlockIndex>,
    pub multi_sign_fee: i64,
    pub memo_fee: i64,
}

/// The flat fees that are debited before the contract's own check.
#[derive(Debug, Clone, Copy, PartialEq, Eq, Structural)]
pub struct FeePlan {
    pub multi_sign: Option<i64>,
    pub memo: Option<i64>,
}

/// Why the replay gate refuses a transaction, None where it does not.
pub open spec fn ref_block_refusal(
    bytes: Seq<u8>,
    hash: Seq<u8>,
    head: int,
    index: Map<i64, BlockId>,
) -> Option<Seq<char>> {
    match ref_block_verdict(bytes, hash, head, index) {
        RefBlockVerdict::Accepted => None,
        RefBlockVerdict::BytesLength => Some(
            "ref_block_bytes must be 2 bytes, got "@ + decimal(bytes.len()),
        ),
        RefBlockVerdict::HashLength => Some(
            "ref_block_hash must be 8 bytes, got "@ + decimal(hash.len()),
        ),
        RefBlockVerdict::Unknown { low } => Some(
            "tx references block whose low-16-bits 0x"@ + hex_byte((low / 256) as u8) + hex_byte(
                (low % 256) as u8,
            ) + " resolves outside the 65,536-block window at head "@ + int_decimal(head),
        ),
        RefBlockVerdict::Mismatch { candidate } => Some(
            "ref_block_hash mismatch at block "@ + int_decimal(candidate) + ": expected "@
                + hex_list(index[candidate as i64].raw@.subrange(8, 16)) + ", got "@ + hex_list(
                hash,
            ),
        ),
    }
}

/// The number that the replay gate is anchored at.
pub open spec fn anchor(s: ChainState) -> int {
    match s.head_number {
        Some(n) => n as int,
        None => 0,
    }
}

/// The fees that a transaction owes: one for more than one signature, one for
/// a memo, each where it is set.
pub open spec fn fees_owed(raw: RawTransaction, signatures: usize, s: ChainState) -> FeePlan {
    FeePlan {
        multi_sign: if signatures > 1 && s.multi_sign_fee > 0 {
            Some(s.multi_sign_fee)
        } else {
            None
        },
        memo: if raw.data@.len() > 0 && s.memo_fee > 0 {
            Some(s.memo_fee)
        } else {
            None
        },
    }
}

/// Why a transaction is refused before any fee is debited, None where it is
/// not.
pub open spec fn early_refusal(tx: CandidateTx, s: ChainState) -> Option<Seq<char>> {
    match tx.raw_data {
        None => Some("transaction has no raw_data"@),
        Some(raw) => if raw.contracts@.len() != 1 {
            Some("contract size should be exactly 1, actual: "@ + decimal(raw.contracts@.len()))
        } else if raw.expiration > 0 && s.head_time is Some && raw.expiration
            <= s.head_time->Some_0 {
            Some(
                "expiration "@ + int_decimal(raw.expiration as int) + " <= head block time "@
                    + int_decimal(s.head_time->Some_0 as int),
            )
        } else if raw.expiration > 0 && s.head_time is Some && raw.expiration > s.head_time->Some_0
            + 86_400_000 {
            Some(
                "expiration "@ + int_decimal(raw.expiration as int) + " > head block time "@
                    + int_decimal(s.head_time->Some_0 as int) + " + "@ + int_decimal(86_400_000),
            )
        } else if s.block_index is Some && ref_block_refusal(
            raw.ref_block.ref_block_bytes@,
            raw.ref_block.ref_block_hash@,
            anchor(s),
            s.block_index->Some_0@,
        ) is Some {
            Some(
                "ref_block: "@ + ref_block_refusal(
                    raw.ref_block.ref_block_bytes@,
                    raw.ref_block.ref_block_hash@,
                    anchor(s),
                    s.block_index->Some_0@,
                )->Some_0,
            )
        } else if !raw.contracts@[0].known {
            Some("unknown contract type "@ + int_decimal(raw.contracts@[0].type_code as int))
        } else {
            None
        },
    }
}

/// What the debits and the contract's own check came to. Each is None where it
/// went through, and only counts where it was owed.
#[derive(Debug, Clone)]
pub struct Outcomes {
    pub multi_sign: Option<String>,
    pub memo: Option<String>,
    pub contract: Option<String>,
}

/// Why a transaction is refused, None where it is admitted. Any early refusal
/// comes first; afterwards the debits, the missing parameter, and the
/// contract's own check, in that order.
pub open spec fn refusal(tx: CandidateTx, s: ChainState, o: Outcomes) -> Option<Seq<char>> {
    if early_refusal(tx, s) is Some {
        early_refusal(tx, s)
    } else {
        let raw = tx.raw_data->Some_0;
        let owed = fees_owed(raw, tx.signatures, s);
        if owed.multi_sign is Some && o.multi_sign is Some {
            Some("multi-sign fee: "@ + o.multi_sign->Some_0@)
        } else if owed.memo is Some && o.memo is Some {
            Some("memo fee: "@ + o.memo->Some_0@)
        } else if !raw.contracts@[0].has_parameter {
            Some("contract has no parameter"@)
        } else {
            match o.contract {
                Some(e) => Some(e@),
                None => None,
            }
        }
    }
}

/// Whether the machine can add the expiration window to the head's time.
pub open spec fn window_fits(s: ChainState) -> bool {
    s.head_time is Some ==> s.head_time->Some_0 <= i64::MAX - 86_400_000
}

fn check_expiration(expiration: i64, head_time: i64) -> (r: Option<String>)
    requires
        head_time <= i64::MAX - 86_400_000,
    ensures
        match r {
            None => !(expiration > 0 && (expiration <= head_time || expiration > head_time
                + 86_400_000)),
            Some(t) => expiration > 0 && if expiration <= head_time {
                t@ == "expiration "@ + int_decimal(expiration as int) + " <= head block time "@
                    + int_decimal(head_time as int)
            } else {
                expiration > head_time + 86_400_000 && t@ == "expiration "@ + int_decimal(
                    expiration as int,
                ) + " > head block time "@ + int_decimal(head_time as int) + " + "@ + int_decimal(
                    86_400_000,
                )
            },
        },
{
    if expiration <= 0 {
        return None;
    }
    if expiration <= head_time {
        let mut s = "expiration ".to_owned();
        append_int(&mut s, expiration);
        s.append(" <= head block time ");
        append_int(&mut s, head_time);
        return Some(s);
    }
    if expiration > head_time + MAXIMUM_TIME_UNTIL_EXPIRATION_MS {
        let mut s = "expiration ".to_owned();
        append_int(&mut s, expiration);
        s.append(" > head block time ");
        append_int(&mut s, head_time);
        s.append(" + ");
        append_int(&mut s, MAXIMUM_TIME_UNTIL_EXPIRATION_MS);
        return Some(s);
    }
    None
}

fn check_ref_block(raw: &RefBlockFields, head: i64, index: &BlockIndex) -> (r: Option<String>)
    ensures
        match ref_block_refusal(
            raw.ref_block_bytes@,
            raw.ref_block_hash@,
            head as int,
            index@,
        ) {
            None => r is None,
            Some(t) => r is Some && r->Some_0@ == "ref_block: "@ + t,
        },
{
    match validate_ref_block(raw, head, index) {
        Ok(()) => None,
        Err(e) => {
            let mut s = "ref_block: ".to_owned();
            s.append(e.message().as_str());
            Some(s)
        },
    }
}

/// Checks a transaction up to the point where fees are debited: the fees that
/// it owes, or why it is refused.
pub fn plan(tx: &CandidateTx, s: &ChainState) -> (r: Result<FeePlan, String>)
    requires
        window_fits(*s),
    ensures
        match early_refusal(*tx, *s) {
            Some(t) => r is Err && r->Err_0@ == t,
            None => r is Ok && r->Ok_0 == fees_owed(tx.raw_data->Some_0, tx.signatures, *s),
        },
{
    let raw = match &tx.raw_data {
        None => return Err("transaction has no raw_data".to_owned()),
        Some(raw) => raw,
    };
    if raw.contracts.len() != 1 {
        let mut t = "contract size should be exactly 1, actual: ".to_owned();
        append_nat(&mut t, raw.contracts.len() as u128);
        return Err(t);
    }
    if let Some(head_time) = s.head_time {
        if let Some(t) = check_expiration(raw.expiration, head_time) {
            return Err(t);
        }
    }
    if let Some(index) = &s.block_index {
        let head: i64 = match s.head_number {
            Some(n) => n,
            None => 0,
        };
        if let Some(t) = check_ref_block(&raw.ref_block, head, index) {
            return Err(t);
        }
    }
    if !raw.contracts[0].known {
        let mut t = "unknown contract type ".to_owned();
        append_int(&mut t, raw.contracts[0].type_code as i64);
        return Err(t);
    }
    Ok(
        FeePlan {
            multi_sign: if tx.signatures > 1 && s.multi_sign_fee > 0 {
                Some(s.multi_sign_fee)
            } else {
                None
            },
            memo: if raw.data.len() > 0 && s.memo_fee > 0 { Some(s.memo_fee) } else { None },
        },
    )
}

/// Admits a transaction or says why not, from what the debits and the
/// contract's own check came to.
pub fn validate(tx: &CandidateTx, s: &ChainState, o: &Outcomes) -> (r: Result<(), String>)
    requires
        window_fits(*s),
    ensures
        match refusal(*tx, *s, *o) {
            Some(t) => r is Err && r->Err_0@ == t,
            None => r is Ok,
        },
{
    let owed = match plan(tx, s) {
        Ok(p) => p,
        Err(e) => return Err(e),
    };
    if owed.multi_sign.is_some() {
        if let Some(e) = &o.multi_sign {
            let mut t = "multi-sign fee: ".to_owned();
            t.append(e.as_str());
            return Err(t);
        }
    }
    if owed.memo.is_some() {
        if let Some(e) = &o.memo {
            let mut t = "memo fee: ".to_owned();
            t.append(e.as_str());
            return Err(t);
        }
    }
    if let Some(raw) = &tx.raw_data {
        if !raw.contracts[0].has_parameter {
            return Err("contract has no parameter".to_owned());
        }
    }
    match &o.contract {
        Some(e) => Err(e.clone()),
        None => Ok(()),
    }
}

/// Only a transaction with exactly one contract, of a known type, with its
/// parameter, inside the expiration window and with a block reference that the
/// index confirms is ever admitted.
pub proof fn admitted_transactions_are_sound(tx: CandidateTx, s: ChainState, o: Outcomes)
    requires
        refusal(tx, s, o) is None,
    ensures
        tx.raw_data is Some,
        tx.raw_data->Some_0.contracts@.len() == 1,
        tx.raw_data->Some_0.contracts@[0].known,
        tx.raw_data->Some_0.contracts@[0].has_parameter,
        tx.raw_data->Some_0.expiration > 0 && s.head_time is Some ==> s.head_time->Some_0
            < tx.raw_data->Some_0.expiration <= s.head_time->Some_0 + 86_400_000,
        s.block_index is Some ==> ref_block_verdict(
            tx.raw_data->Some_0.ref_block.ref_block_bytes@,
            tx.raw_data->Some_0.ref_block.ref_block_hash@,
            anchor(s),
            s.block_index->Some_0@,
        ) == RefBlockVerdict::Accepted,
        o.contract is None,
{
}

/// A transaction that keeps the rules is admitted: one contract of a known type with
/// its parameter; an expiration, if any, after the head's time and at most a day
/// after it; a reference to any block that the index holds from the head back
/// through the window; and debits, where they are owed, and a contract check that
/// went through.
pub proof fn sound_transactions_are_admitted(
    tx: CandidateTx,
    s: ChainState,
    o: Outcomes,
    head: i64,
    n: i64,
)
    requires
        tx.raw_data is Some,
        tx.raw_data->Some_0.contracts@.len() == 1,
        tx.raw_data->Some_0.contracts@[0].known,
        tx.raw_data->Some_0.contracts@[0].has_parameter,
        tx.raw_data->Some_0.expiration > 0 && s.head_time is Some ==> 0
            < tx.raw_data->Some_0.expiration - s.head_time->Some_0 <= 86_400_000,
        s.head_number == Some(head) || (s.head_number is None && head == 0),
        s.block_index is Some ==> {
            let index = s.block_index->Some_0@;
            let fields = tx.raw_data->Some_0.ref_block;
            &&& 0 <= n <= head && head - n < 65_536
            &&& index.contains_key(n)
            &&& fields.ref_block_bytes@.len() == 2
            &&& fields.ref_block_bytes@[0] * 256 + fields.ref_block_bytes@[1] == n as int % 65_536
            &&& fields.ref_block_hash@ == index[n].raw@.subrange(8, 16)
        },
        tx.signatures <= 1 || s.multi_sign_fee <= 0 || o.multi_sign is None,
        tx.raw_data->Some_0.data@.len() == 0 || s.memo_fee <= 0 || o.memo is None,
        o.contract is None,
    ensures
        early_refusal(tx, s) is None,
        refusal(tx, s, o) is None,
{
    if s.block_index is Some {
        let fields = tx.raw_data->Some_0.ref_block;
        recent_references_are_accepted(
            fields.ref_block_bytes@,
            fields.ref_block_hash@,
            head as int,
            s.block_index->Some_0@,
            n,
        );
    }
}

/// What is admitted refers to a block of the window that the index holds, and every
/// debit that it owed went through.
pub proof fn admitted_transactions_refer_and_pay(
    tx: CandidateTx,
    s: ChainState,
    o: Outcomes,
    head: i64,
) -> (n: i64)
    requires
        refusal(tx, s, o) is None,
        s.head_number == Some(head) || (s.head_number is None && head == 0),
    ensures
        s.block_index is Some ==> {
            let index = s.block_index->Some_0@;
            let fields = tx.raw_data->Some_0.ref_block;
            &&& 0 <= n <= head && head - n < 65_536
            &&& index.contains_key(n)
            &&& fields.ref_block_bytes@.len() == 2
            &&& fields.ref_block_bytes@[0] * 256 + fields.ref_block_bytes@[1] == n as int % 65_536
            &&& fields.ref_block_hash@ == index[n].raw@.subrange(8, 16)
        },
        tx.signatures > 1 && s.multi_sign_fee > 0 ==> o.multi_sign is None,
        tx.raw_data->Some_0.data@.len() > 0 && s.memo_fee > 0 ==> o.memo is None,
        o.contract is None,
{
    if s.block_index is Some {
        let fields = tx.raw_data->Some_0.ref_block;
        accepted_references_are_recent(
            fields.ref_block_bytes@,
            fields.ref_block_hash@,
            head as int,
            s.block_index->Some_0@,
            0,
        )
    } else {
        0
    }
}

/// What a transaction owes: the multi-signature fee exactly if it has more than one
/// signature and the fee is set, the memo fee exactly if it has a memo and the fee is
/// set, each in full.
pub proof fn fees_are_owed_in_full(raw: RawTransaction, signatures: usize, s: ChainState)
    ensures
        fees_owed(raw, signatures, s).multi_sign is Some <==> signatures >= 2 && s.multi_sign_fee
            > 0,
        fees_owed(raw, signatures, s).multi_sign matches Some(f) ==> f == s.multi_sign_fee,
        fees_owed(raw, signatures, s).memo is Some <==> raw.data@.len() >= 1 && s.memo_fee > 0,
        fees_owed(raw, signatures, s).memo matches Some(f) ==> f == s.memo_fee,
{
}

/// The validator's answer: what keeps the rules is admitted, and what lacks its
/// one contract, or comes too late, is refused whatever else it holds.
pub proof fn the_validator_answers(
    tx: CandidateTx,
    s: ChainState,
    o: Outcomes,
    head: i64,
    n: i64,
    r: Result<(), String>,
)
    requires
        window_fits(s),
        call_ensures(validate, (&tx, &s, &o), r),
    ensures
        tx.raw_data is None ==> r is Err,
        tx.raw_data is Some && tx.raw_data->Some_0.contracts@.len() != 1 ==> r is Err,
        tx.raw_data is Some && tx.raw_data->Some_0.expiration > 0 && s.head_time is Some
            && tx.raw_data->Some_0.expiration <= s.head_time->Some_0 ==> r is Err,
        tx.raw_data is Some && tx.raw_data->Some_0.expiration > 0 && s.head_time is Some
            && tx.raw_data->Some_0.expiration - s.head_time->Some_0 > 86_400_000 ==> r is Err,
        o.contract is Some ==> r is Err,
        tx.raw_data is Some && tx.raw_data->Some_0.contracts@.len() == 1
            && tx.raw_data->Some_0.contracts@[0].known
            && tx.raw_data->Some_0.contracts@[0].has_parameter && (tx.raw_data->Some_0.expiration
            <= 0 || s.head_time is None || 0 < tx.raw_data->Some_0.expiration
            - s.head_time->Some_0 <= 86_400_000) && s.block_index is None && tx.signatures <= 1
            && tx.raw_data->Some_0.data@.len() == 0 && o.contract is None ==> r is Ok,
{
}

} // verus!
