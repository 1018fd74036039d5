//! What every applied block leaves behind beside the chain: its
//! transaction-info, the references behind the by-id lookups, and the
//! hand-over to the log, the archive and the commitment builder.

use vstd::prelude::*;
use vstd::string::*;
use vstd::utf8::encode_utf8;

use crate::bytes::copy_all;
use crate::chain::BlockId;
use crate::durability::{near_tip, SyncBarrier};
use crate::firehose::{bumped, copy_log, same_log, CallValue, InternalTransaction, VmLog};

verus! {

/// The contract code of a reverted call.
pub const CONTRACT_RESULT_REVERT: i32 = 2;

/// The resources that a transaction used.
#[derive(Debug, Clone, Copy, PartialEq, Eq, Structural)]
pub struct TxReceipt {
    pub energy_usage: i64,
    pub energy_fee: i64,
    pub origin_energy_usage: i64,
    pub energy_usage_total: i64,
    pub net_usage: i64,
    pub net_fee: i64,
    pub multi_sign_fee: i64,
    pub memo_fee: i64,
    pub result: i32,
    pub energy_penalty_total: i64,
}

impl TxReceipt {
    /// The receipt of a transaction that used nothing.
    pub open spec fn spec_empty() -> TxReceipt {
        TxReceipt {
            energy_usage: 0,
            energy_fee: 0,
            origin_energy_usage: 0,
            energy_usage_total: 0,
            net_usage: 0,
            net_fee: 0,
            multi_sign_fee: 0,
            memo_fee: 0,
            result: 0,
            energy_penalty_total: 0,
        }
    }
}

impl Default for TxReceipt {
    fn default() -> (r: Self)
        ensures
            r == TxReceipt::spec_empty(),
    {
        TxReceipt {
            energy_usage: 0,
            energy_fee: 0,
            origin_energy_usage: 0,
            energy_usage_total: 0,
            net_usage: 0,
            net_fee: 0,
            multi_sign_fee: 0,
            memo_fee: 0,
            result: 0,
            energy_penalty_total: 0,
        }
    }
}

/// The receipt as transaction-info carries it.
#[derive(Debug, Clone, Copy, PartialEq, Eq, Structural)]
pub struct ResourceReceipt {
    pub energy_usage: i64,
    pub energy_fee: i64,
    pub origin_energy_usage: i64,
    pub energy_usage_total: i64,
    pub net_usage: i64,
    pub net_fee: i64,
    pub result: i32,
    pub energy_penalty_total: i64,
}

/// How a transaction ended.
#[derive(Debug, Clone)]
pub enum TxOutcome {
    Success,
    /// It failed, in these words.
    Failed(String),
}

/// What executing one transaction reported.
#[derive(Debug, Clone)]
pub struct TxResult {
    pub tx_id: [u8; 32],
    pub outcome: TxOutcome,
    pub internal_transactions: Vec<InternalTransaction>,
    pub vm_logs: Vec<VmLog>,
    pub receipt: TxReceipt,
    pub vm_return_data: Vec<u8>,
    pub actuator_fee: i64,
}

/// What a transaction's first contract has to do with the VM.
#[derive(Debug, Clone)]
pub enum VmContract {
    /// A call of the contract at this address.
    Trigger { contract_address: Vec<u8> },
    /// A creation. The digest is that of the owner's address and the
    /// transaction id.
    Create { digest: [u8; 32] },
    /// Anything else, or parameters that do not decode.
    Other,
}

/// Success or failure, as transaction-info tells them apart.
#[derive(Debug, Clone, Copy, PartialEq, Eq, Structural)]
pub enum InfoCode {
    Sucess,
    Failed,
}

impl InfoCode {
    /// The code on the wire.
    pub fn as_i32(&self) -> (r: i32)
        ensures
            r == (match *self {
                InfoCode::Sucess => 0i32,
                InfoCode::Failed => 1i32,
            }),
    {
        match self {
            InfoCode::Sucess => 0,
            InfoCode::Failed => 1,
        }
    }
}

/// The transaction-info of one transaction.
#[derive(Debug, Clone)]
pub struct TransactionInfo {
    pub id: [u8; 32],
    pub fee: i64,
    pub block_number: i64,
    pub block_time_stamp: i64,
    /// Always one entry, empty without return data.
    pub contract_result: Vec<Vec<u8>>,
    pub contract_address: Vec<u8>,
    pub receipt: Option<ResourceReceipt>,
    pub log: Vec<VmLog>,
    pub result: InfoCode,
    pub res_message: Vec<u8>,
    pub internal_transactions: Vec<InternalTransaction>,
}

/// The transaction-info of one block.
#[derive(Debug, Clone)]
pub struct TransactionRet {
    pub block_number: i64,
    pub block_time_stamp: i64,
    pub transactioninfo: Vec<TransactionInfo>,
}

/// The fee of a transaction: everything that it was charged.
pub open spec fn total_fee(res: TxResult) -> int {
    res.actuator_fee + res.receipt.energy_fee + res.receipt.net_fee + res.receipt.multi_sign_fee
        + res.receipt.memo_fee
}

/// Whether the fee can be summed in machine words.
pub open spec fn fee_fits(res: TxResult) -> bool {
    let a = res.actuator_fee + res.receipt.energy_fee;
    let b = a + res.receipt.net_fee;
    let c = b + res.receipt.multi_sign_fee;
    let d = c + res.receipt.memo_fee;
    &&& i64::MIN <= a <= i64::MAX
    &&& i64::MIN <= b <= i64::MAX
    &&& i64::MIN <= c <= i64::MAX
    &&& i64::MIN <= d <= i64::MAX
}

/// Whether the fee can be summed in machine words.
pub fn fee_sum_fits(res: &TxResult) -> (r: bool)
    ensures
        r == fee_fits(*res),
{
    let lo: i128 = i64::MIN as i128;
    let hi: i128 = i64::MAX as i128;
    let a: i128 = res.actuator_fee as i128 + res.receipt.energy_fee as i128;
    let b: i128 = a + res.receipt.net_fee as i128;
    let c: i128 = b + res.receipt.multi_sign_fee as i128;
    let d: i128 = c + res.receipt.memo_fee as i128;
    lo <= a && a <= hi && lo <= b && b <= hi && lo <= c && c <= hi && lo <= d && d <= hi
}

/// The address that transaction-info names: the called contract, or the
/// created one, which is the network prefix and the last twenty bytes of the
/// digest.
pub open spec fn vm_address(c: VmContract) -> Seq<u8> {
    match c {
        VmContract::Trigger { contract_address } => contract_address@,
        VmContract::Create { digest } => seq![0x41u8] + digest@.subrange(12, 32),
        VmContract::Other => Seq::empty(),
    }
}

/// The address that transaction-info names.
pub fn vm_contract_address(c: &VmContract) -> (r: Vec<u8>)
    ensures
        r@ == vm_address(*c),
{
    match c {
        VmContract::Trigger { contract_address } => copy_all(contract_address.as_slice()),
        VmContract::Create { digest } => {
            let mut out: Vec<u8> = Vec::new();
            out.push(0x41);
            let mut i: usize = 12;
            while i < 32
                invariant
                    12 <= i <= 32,
                    out@ == seq![0x41u8] + digest@.subrange(12, i as int),
                decreases 32 - i,
            {
                out.push(digest[i]);
                assert(digest@.subrange(12, i + 1) =~= digest@.subrange(12, i as int).push(
                    digest@[i as int],
                ));
                assert(out@ =~= seq![0x41u8] + digest@.subrange(12, i + 1));
                i = i + 1;
            }
            out
        },
        VmContract::Other => Vec::new(),
    }
}

/// The receipt that transaction-info carries: none of a transaction that used
/// nothing.
pub open spec fn carried_receipt(r: TxReceipt) -> Option<ResourceReceipt> {
    if r == TxReceipt::spec_empty() {
        None
    } else {
        Some(
            ResourceReceipt {
                energy_usage: r.energy_usage,
                energy_fee: r.energy_fee,
                origin_energy_usage: r.origin_energy_usage,
                energy_usage_total: r.energy_usage_total,
                net_usage: r.net_usage,
                net_fee: r.net_fee,
                result: r.result,
                energy_penalty_total: r.energy_penalty_total,
            },
        )
    }
}

fn carry_receipt(r: &TxReceipt) -> (out: Option<ResourceReceipt>)
    ensures
        out == carried_receipt(*r),
{
    if *r == TxReceipt::default() {
        None
    } else {
        Some(
            ResourceReceipt {
                energy_usage: r.energy_usage,
                energy_fee: r.energy_fee,
                origin_energy_usage: r.origin_energy_usage,
                energy_usage_total: r.energy_usage_total,
                net_usage: r.net_usage,
                net_fee: r.net_fee,
                result: r.result,
                energy_penalty_total: r.energy_penalty_total,
            },
        )
    }
}

/// The message of a failure: fixed words for a revert, the executor's own for
/// anything else.
pub open spec fn failure_message(res: TxResult) -> Seq<u8> {
    match res.outcome {
        TxOutcome::Success => Seq::empty(),
        TxOutcome::Failed(words) => if res.receipt.result == 2 {
            encode_utf8("REVERT opcode executed"@)
        } else {
            encode_utf8(words@)
        },
    }
}

fn message_of(res: &TxResult) -> (r: Vec<u8>)
    ensures
        r@ == failure_message(*res),
{
    match &res.outcome {
        TxOutcome::Success => Vec::new(),
        TxOutcome::Failed(words) => if res.receipt.result == CONTRACT_RESULT_REVERT {
            copy_all("REVERT opcode executed".as_bytes())
        } else {
            copy_all(words.as_str().as_bytes())
        },
    }
}

/// Whether two value legs are the same.
pub open spec fn same_leg(a: CallValue, b: CallValue) -> bool {
    a.call_value == b.call_value && a.token_id@ == b.token_id@
}

/// Whether two internal transactions are the same.
pub open spec fn same_internal_transaction(a: InternalTransaction, b: InternalTransaction) -> bool {
    &&& a.hash@ == b.hash@
    &&& a.caller_address@ == b.caller_address@
    &&& a.transfer_to_address@ == b.transfer_to_address@
    &&& a.note@ == b.note@
    &&& a.rejected == b.rejected
    &&& a.extra@ == b.extra@
    &&& a.call_value_info@.len() == b.call_value_info@.len()
    &&& forall|i: int|
        0 <= i < a.call_value_info@.len() ==> same_leg(
            #[trigger] a.call_value_info@[i],
            b.call_value_info@[i],
        )
}

fn copy_internal(t: &InternalTransaction) -> (r: InternalTransaction)
    ensures
        same_internal_transaction(r, *t),
{
    let mut legs: Vec<CallValue> = Vec::new();
    let mut i: usize = 0;
    while i < t.call_value_info.len()
        invariant
            i <= t.call_value_info@.len(),
            legs@.len() == i,
            forall|j: int|
                0 <= j < i ==> same_leg(#[trigger] legs@[j], t.call_value_info@[j]),
        decreases t.call_value_info@.len() - i,
    {
        let leg = &t.call_value_info[i];
        legs.push(CallValue { call_value: leg.call_value, token_id: leg.token_id.clone() });
        i = i + 1;
    }
    InternalTransaction {
        hash: copy_all(t.hash.as_slice()),
        caller_address: copy_all(t.caller_address.as_slice()),
        transfer_to_address: copy_all(t.transfer_to_address.as_slice()),
        call_value_info: legs,
        note: copy_all(t.note.as_slice()),
        rejected: t.rejected,
        extra: t.extra.clone(),
    }
}

/// Whether transaction-info is what one transaction of a block left.
pub open spec fn info_of(
    info: TransactionInfo,
    contract: VmContract,
    res: TxResult,
    number: int,
    timestamp: i64,
) -> bool {
    &&& info.id == res.tx_id
    &&& info.fee == total_fee(res)
    &&& info.block_number == number
    &&& info.block_time_stamp == timestamp
    &&& info.contract_address@ == vm_address(contract)
    &&& info.contract_result@.len() == 1
    &&& info.contract_result@[0]@ == res.vm_return_data@
    &&& info.receipt == carried_receipt(res.receipt)
    &&& info.log@.len() == res.vm_logs@.len()
    &&& forall|i: int| 0 <= i < info.log@.len() ==> same_log(#[trigger] info.log@[i], res.vm_logs@[i])
    &&& info.result == (if res.outcome is Success {
        InfoCode::Sucess
    } else {
        InfoCode::Failed
    })
    &&& info.res_message@ == failure_message(res)
    &&& info.internal_transactions@.len() == res.internal_transactions@.len()
    &&& forall|i: int|
        0 <= i < info.internal_transactions@.len() ==> same_internal_transaction(
            #[trigger] info.internal_transactions@[i],
            res.internal_transactions@[i],
        )
}

fn build_info(contract: &VmContract, res: &TxResult, number: i64, timestamp: i64) -> (r:
    TransactionInfo)
    requires
        fee_fits(*res),
    ensures
        info_of(r, *contract, *res, number as int, timestamp),
{
    let mut log: Vec<VmLog> = Vec::new();
    let mut i: usize = 0;
    while i < res.vm_logs.len()
        invariant
            i <= res.vm_logs@.len(),
            log@.len() == i,
            forall|j: int| 0 <= j < i ==> same_log(#[trigger] log@[j], res.vm_logs@[j]),
        decreases res.vm_logs@.len() - i,
    {
        log.push(copy_log(&res.vm_logs[i]));
        i = i + 1;
    }
    let mut internal: Vec<InternalTransaction> = Vec::new();
    let mut k: usize = 0;
    while k < res.internal_transactions.len()
        invariant
            k <= res.internal_transactions@.len(),
            internal@.len() == k,
            forall|j: int|
                0 <= j < k ==> same_internal_transaction(
                    #[trigger] internal@[j],
                    res.internal_transactions@[j],
                ),
        decreases res.internal_transactions@.len() - k,
    {
        internal.push(copy_internal(&res.internal_transactions[k]));
        k = k + 1;
    }
    let mut contract_result: Vec<Vec<u8>> = Vec::new();
    contract_result.push(copy_all(res.vm_return_data.as_slice()));
    let rc = &res.receipt;
    let fee: i64 = res.actuator_fee + rc.energy_fee + rc.net_fee + rc.multi_sign_fee + rc.memo_fee;
    TransactionInfo {
        id: res.tx_id,
        fee,
        block_number: number,
        block_time_stamp: timestamp,
        contract_result,
        contract_address: vm_contract_address(contract),
        receipt: carry_receipt(rc),
        log,
        result: match &res.outcome {
            TxOutcome::Success => InfoCode::Sucess,
            TxOutcome::Failed(_) => InfoCode::Failed,
        },
        res_message: message_of(res),
        internal_transactions: internal,
    }
}

/// The timestamp of a header, zero without one.
pub open spec fn stamped(t: Option<i64>) -> i64 {
    match t {
        Some(x) => x,
        None => 0,
    }
}

/// How many transactions have both a contract and a result.
pub open spec fn paired(contracts: Seq<VmContract>, results: Seq<TxResult>) -> int {
    if contracts.len() < results.len() {
        contracts.len() as int
    } else {
        results.len() as int
    }
}

/// Whether transaction-info is what a block left: one entry per transaction
/// that was executed, in order.
pub open spec fn ret_of(
    r: TransactionRet,
    timestamp: Option<i64>,
    id: BlockId,
    contracts: Seq<VmContract>,
    results: Seq<TxResult>,
) -> bool {
    &&& r.block_number == id.spec_height()
    &&& r.block_time_stamp == stamped(timestamp)
    &&& r.transactioninfo@.len() == paired(contracts, results)
    &&& forall|i: int|
        0 <= i < r.transactioninfo@.len() ==> info_of(
            #[trigger] r.transactioninfo@[i],
            contracts[i],
            results[i],
            id.spec_height(),
            stamped(timestamp),
        )
}

/// Builds the transaction-info of a block. `timestamp` is that of its header,
/// `contracts` holds what each of its transactions has to do with the VM.
pub fn build_transaction_ret(
    timestamp: Option<i64>,
    block_id: &BlockId,
    contracts: &Vec<VmContract>,
    results: &Vec<TxResult>,
) -> (r: TransactionRet)
    requires
        forall|i: int| 0 <= i < results@.len() ==> fee_fits(#[trigger] results@[i]),
    ensures
        ret_of(r, timestamp, *block_id, contracts@, results@),
{
    let number: i64 = block_id.height();
    let ts: i64 = match timestamp {
        Some(t) => t,
        None => 0,
    };
    let mut infos: Vec<TransactionInfo> = Vec::new();
    let mut i: usize = 0;
    while i < contracts.len() && i < results.len()
        invariant
            i <= contracts@.len(),
            i <= results@.len(),
            infos@.len() == i,
            number == block_id.spec_height(),
            ts == stamped(timestamp),
            forall|k: int| 0 <= k < results@.len() ==> fee_fits(#[trigger] results@[k]),
            forall|k: int|
                0 <= k < i ==> info_of(
                    #[trigger] infos@[k],
                    contracts@[k],
                    results@[k],
                    number as int,
                    ts,
                ),
        decreases contracts@.len() - i,
    {
        infos.push(build_info(&contracts[i], &results[i], number, ts));
        i = i + 1;
    }
    TransactionRet { block_number: number, block_time_stamp: ts, transactioninfo: infos }
}

// ---------------------------------------------------------------------------
// The hook
// ---------------------------------------------------------------------------

/// One change of a key in a block.
#[derive(Debug, Clone)]
pub struct StateDelta {
    pub store: String,
    pub key: Vec<u8>,
    pub before: Option<Vec<u8>>,
    pub after: Option<Vec<u8>>,
}

/// One change as the commitment builder takes it.
#[derive(Debug, Clone)]
pub struct CommitmentDelta {
    pub store: String,
    pub key: Vec<u8>,
    pub after: Option<Vec<u8>>,
}

/// One act of the hook.
#[derive(Debug, Clone, Copy, PartialEq, Eq, Structural)]
pub enum HookStep {
    /// Store which block each transaction is in.
    PutRefs,
    /// Store the transaction-info.
    PutRet,
    /// Make the transaction-info durable.
    SyncRet,
    /// Append to the log for external sinks.
    Firehose,
    /// Record the changes in the archive.
    Archive,
    /// Offer the changes to the commitment builder.
    Commitment,
    /// Wake the follower.
    Notify,
}

/// What is attached to the hook, and its running state.
#[derive(Debug, Clone, Copy)]
pub struct IndexHook {
    pub tx_refs: bool,
    pub archive: bool,
    pub firehose: bool,
    pub commitment: bool,
    pub barrier: SyncBarrier,
    /// Write-sets that the commitment builder had no room for.
    pub lagged: u64,
    pub resync_needed: bool,
}

/// Everything that one applied block leaves behind.
#[derive(Debug, Clone)]
pub struct HookWork {
    /// What to do, in order. A failed step does not keep the next one back.
    pub steps: Vec<HookStep>,
    pub ret: TransactionRet,
    pub refs: Vec<([u8; 32], i64)>,
    pub commitment: Vec<CommitmentDelta>,
}

/// A step that is taken only sometimes.
pub open spec fn step_if(c: bool, s: HookStep) -> Seq<HookStep> {
    if c {
        seq![s]
    } else {
        Seq::empty()
    }
}

/// The steps of one block, in order: the references and the transaction-info
/// come before everything that reads them, and the follower is woken last.
pub open spec fn hook_steps(h: IndexHook, sync: bool) -> Seq<HookStep> {
    step_if(h.tx_refs, HookStep::PutRefs) + seq![HookStep::PutRet] + step_if(
        sync,
        HookStep::SyncRet,
    ) + step_if(h.firehose, HookStep::Firehose) + step_if(h.archive, HookStep::Archive) + step_if(
        h.commitment,
        HookStep::Commitment,
    ) + seq![HookStep::Notify]
}

/// Whether two optional byte strings are the same.
pub open spec fn same_opt_bytes(a: Option<Vec<u8>>, b: Option<Vec<u8>>) -> bool {
    match (a, b) {
        (Some(x), Some(y)) => x@ == y@,
        (None, None) => true,
        _ => false,
    }
}

/// Whether a commitment delta is the one of the block.
pub open spec fn same_delta(a: CommitmentDelta, b: StateDelta) -> bool {
    a.store@ == b.store@ && a.key@ == b.key@ && same_opt_bytes(a.after, b.after)
}

/// Whether the commitment builder is handed these changes: all of them, none
/// where the block's changes were not captured.
pub open spec fn commitment_of(c: Seq<CommitmentDelta>, deltas: Option<&Vec<StateDelta>>) -> bool {
    match deltas {
        Some(d) => c.len() == d@.len() && forall|i: int|
            0 <= i < c.len() ==> same_delta(#[trigger] c[i], d@[i]),
        None => c.len() == 0,
    }
}

fn commitment_deltas(deltas: Option<&Vec<StateDelta>>) -> (r: Vec<CommitmentDelta>)
    ensures
        commitment_of(r@, deltas),
{
    let mut out: Vec<CommitmentDelta> = Vec::new();
    if let Some(ds) = deltas {
        let mut i: usize = 0;
        while i < ds.len()
            invariant
                i <= ds@.len(),
                out@.len() == i,
                forall|k: int| 0 <= k < i ==> same_delta(#[trigger] out@[k], ds@[k]),
            decreases ds@.len() - i,
        {
            let after: Option<Vec<u8>> = match &ds[i].after {
                Some(v) => Some(copy_all(v.as_slice())),
                None => None,
            };
            out.push(
                CommitmentDelta {
                    store: ds[i].store.clone(),
                    key: copy_all(ds[i].key.as_slice()),
                    after,
                },
            );
            i = i + 1;
        }
    }
    out
}

fn block_refs(results: &Vec<TxResult>, height: i64) -> (r: Vec<([u8; 32], i64)>)
    ensures
        r@ == refs_of(results@, height),
{
    let mut out: Vec<([u8; 32], i64)> = Vec::new();
    let mut i: usize = 0;
    while i < results.len()
        invariant
            i <= results@.len(),
            out@.len() == i,
            forall|k: int| 0 <= k < i ==> #[trigger] out@[k] == (results@[k].tx_id, height),
        decreases results@.len() - i,
    {
        out.push((results[i].tx_id, height));
        i = i + 1;
    }
    assert(out@ =~= refs_of(results@, height));
    out
}

/// Which block each transaction is in.
pub open spec fn refs_of(results: Seq<TxResult>, height: i64) -> Seq<([u8; 32], i64)> {
    Seq::new(results.len(), |i: int| (results[i].tx_id, height))
}

fn push_if(steps: &mut Vec<HookStep>, c: bool, s: HookStep)
    ensures
        final(steps)@ == old(steps)@ + step_if(c, s),
{
    if c {
        steps.push(s);
    }
    assert(steps@ =~= old(steps)@ + step_if(c, s));
}

impl IndexHook {
    pub open spec fn wf(&self) -> bool {
        self.barrier.wf()
    }

    /// A hook with nothing attached.
    pub fn new() -> (r: IndexHook)
        ensures
            r.wf(),
            !r.tx_refs && !r.archive && !r.firehose && !r.commitment,
            r.barrier.since_sync == 0,
            r.lagged == 0,
            !r.resync_needed,
    {
        IndexHook {
            tx_refs: false,
            archive: false,
            firehose: false,
            commitment: false,
            barrier: SyncBarrier::new(),
            lagged: 0,
            resync_needed: false,
        }
    }

    /// Attaches the transaction references.
    pub fn with_tx_refs(self) -> (r: IndexHook)
        ensures
            r == (IndexHook { tx_refs: true, ..self }),
    {
        IndexHook { tx_refs: true, ..self }
    }

    /// Attaches the archive.
    pub fn with_archive(self) -> (r: IndexHook)
        ensures
            r == (IndexHook { archive: true, ..self }),
    {
        IndexHook { archive: true, ..self }
    }

    /// Attaches the log for external sinks.
    pub fn with_firehose(self) -> (r: IndexHook)
        ensures
            r == (IndexHook { firehose: true, ..self }),
    {
        IndexHook { firehose: true, ..self }
    }

    /// Attaches the commitment builder.
    pub fn with_commitment(self) -> (r: IndexHook)
        ensures
            r == (IndexHook { commitment: true, ..self }),
    {
        IndexHook { commitment: true, ..self }
    }

    /// Decides everything that one applied block leaves behind.
    pub fn on_block_applied(
        &mut self,
        timestamp: Option<i64>,
        block_id: &BlockId,
        contracts: &Vec<VmContract>,
        results: &Vec<TxResult>,
        deltas: Option<&Vec<StateDelta>>,
        now_ms: i64,
    ) -> (r: HookWork)
        requires
            old(self).wf(),
            forall|i: int| 0 <= i < results@.len() ==> fee_fits(#[trigger] results@[i]),
        ensures
            final(self).wf(),
            ret_of(r.ret, timestamp, *block_id, contracts@, results@),
            r.refs@ == refs_of(results@, block_id.spec_height() as i64),
            commitment_of(r.commitment@, deltas),
            ({
                let sync = near_tip(now_ms, stamped(timestamp)) || old(self).barrier.since_sync + 1
                    >= 16;
                &&& r.steps@ == hook_steps(*old(self), sync)
                &&& *final(self) == (IndexHook { barrier: final(self).barrier, ..*old(self) })
                &&& final(self).barrier.since_sync == if sync {
                    0
                } else {
                    (old(self).barrier.since_sync + 1) as u32
                }
            }),
    {
        let ret = build_transaction_ret(timestamp, block_id, contracts, results);
        let refs = block_refs(results, block_id.height());
        let commitment = commitment_deltas(deltas);
        let sync = self.barrier.block_written(now_ms, ret.block_time_stamp);
        let mut steps: Vec<HookStep> = Vec::new();
        push_if(&mut steps, self.tx_refs, HookStep::PutRefs);
        push_if(&mut steps, true, HookStep::PutRet);
        push_if(&mut steps, sync, HookStep::SyncRet);
        push_if(&mut steps, self.firehose, HookStep::Firehose);
        push_if(&mut steps, self.archive, HookStep::Archive);
        push_if(&mut steps, self.commitment, HookStep::Commitment);
        push_if(&mut steps, true, HookStep::Notify);
        assert(steps@ =~= hook_steps(*old(self), sync));
        HookWork { steps, ret, refs, commitment }
    }

    /// Takes note that the commitment builder had no room: the block's changes
    /// are dropped and the builder must catch up by itself.
    pub fn commitment_dropped(&mut self)
        ensures
            *final(self) == (IndexHook {
                lagged: bumped(old(self).lagged),
                resync_needed: true,
                ..*old(self)
            }),
    {
        self.lagged = if self.lagged == u64::MAX { 0 } else { self.lagged + 1 };
        self.resync_needed = true;
    }
}

/// The follower is woken after everything else, and the transaction-info is
/// stored whatever is attached.
pub proof fn info_is_always_stored(h: IndexHook, sync: bool)
    ensures
        hook_steps(h, sync).contains(HookStep::PutRet),
        hook_steps(h, sync).last() == HookStep::Notify,
{
    let s = hook_steps(h, sync);
    let at = step_if(h.tx_refs, HookStep::PutRefs).len() as int;
    assert(s[at] == HookStep::PutRet);
}

// ---------------------------------------------------------------------------
// What the stored transaction-info says
// ---------------------------------------------------------------------------

/// Every charge is in the fee: it is what the contract itself cost, the energy and the
/// bandwidth that were burned, and the flat fees for several signatures and a memo.
pub proof fn fees_add_up(
    info: TransactionInfo,
    contract: VmContract,
    res: TxResult,
    number: int,
    timestamp: i64,
)
    requires
        info_of(info, contract, res, number, timestamp),
    ensures
        info.fee - res.actuator_fee == res.receipt.energy_fee + res.receipt.net_fee
            + res.receipt.multi_sign_fee + res.receipt.memo_fee,
{
}

/// A transaction-info is that of its transaction and its block: it carries the
/// transaction's id, the block's number and time, one entry of return data, and the
/// logs as they were written.
pub proof fn infos_are_of_their_transaction(
    info: TransactionInfo,
    contract: VmContract,
    res: TxResult,
    number: int,
    timestamp: i64,
)
    requires
        info_of(info, contract, res, number, timestamp),
    ensures
        info.id@ == res.tx_id@,
        info.block_number == number,
        info.block_time_stamp == timestamp,
        info.contract_result@.len() == 1,
        info.contract_result@[0]@ == res.vm_return_data@,
        info.log@.len() == res.vm_logs@.len(),
        forall|i: int|
            0 <= i < res.vm_logs@.len() ==> {
                &&& (#[trigger] info.log@[i]).address@ == res.vm_logs@[i].address@
                &&& info.log@[i].data@ == res.vm_logs@[i].data@
                &&& info.log@[i].topics@.len() == res.vm_logs@[i].topics@.len()
            },
        forall|i: int, j: int|
            0 <= i < res.vm_logs@.len() && 0 <= j < res.vm_logs@[i].topics@.len() ==> (
            #[trigger] info.log@[i].topics@[j])@ == res.vm_logs@[i].topics@[j]@,
        info.internal_transactions@.len() == res.internal_transactions@.len(),
        forall|i: int|
            0 <= i < res.internal_transactions@.len() ==> {
                let a = #[trigger] info.internal_transactions@[i];
                let b = res.internal_transactions@[i];
                &&& a.hash@ == b.hash@
                &&& a.caller_address@ == b.caller_address@
                &&& a.transfer_to_address@ == b.transfer_to_address@
                &&& a.note@ == b.note@
                &&& a.rejected == b.rejected
                &&& a.extra@ == b.extra@
                &&& a.call_value_info@.len() == b.call_value_info@.len()
            },
        forall|i: int, j: int|
            0 <= i < res.internal_transactions@.len() && 0 <= j
                < res.internal_transactions@[i].call_value_info@.len() ==> {
                let a = #[trigger] info.internal_transactions@[i].call_value_info@[j];
                let b = res.internal_transactions@[i].call_value_info@[j];
                a.call_value == b.call_value && a.token_id@ == b.token_id@
            },
{
    assert forall|i: int, j: int|
        0 <= i < res.vm_logs@.len() && 0 <= j < res.vm_logs@[i].topics@.len() implies (
    #[trigger] info.log@[i].topics@[j])@ == res.vm_logs@[i].topics@[j]@ by {
        assert(same_log(info.log@[i], res.vm_logs@[i]));
    }
    assert forall|i: int, j: int|
        0 <= i < res.internal_transactions@.len() && 0 <= j
            < res.internal_transactions@[i].call_value_info@.len() implies {
        let a = #[trigger] info.internal_transactions@[i].call_value_info@[j];
        let b = res.internal_transactions@[i].call_value_info@[j];
        a.call_value == b.call_value && a.token_id@ == b.token_id@
    } by {
        assert(same_internal_transaction(
            info.internal_transactions@[i],
            res.internal_transactions@[i],
        ));
        assert(same_leg(
            info.internal_transactions@[i].call_value_info@[j],
            res.internal_transactions@[i].call_value_info@[j],
        ));
    }
}

/// The outcome is told apart: a success has the code of a success and no message; a
/// failure has the other code, and a message: the executor's own words, but fixed
/// ones where the contract reverted.
pub proof fn outcomes_are_told_apart(
    info: TransactionInfo,
    contract: VmContract,
    res: TxResult,
    number: int,
    timestamp: i64,
)
    requires
        info_of(info, contract, res, number, timestamp),
    ensures
        info.result == InfoCode::Sucess <==> res.outcome is Success,
        res.outcome is Success ==> info.res_message@.len() == 0,
        res.outcome matches TxOutcome::Failed(words) ==> if res.receipt.result == 2 {
            info.res_message@ == encode_utf8("REVERT opcode executed"@)
        } else {
            info.res_message@ == encode_utf8(words@)
        },
{
}

/// The receipt is carried whole, and left out only where nothing at all was used or
/// charged.
pub proof fn receipts_are_carried(
    info: TransactionInfo,
    contract: VmContract,
    res: TxResult,
    number: int,
    timestamp: i64,
)
    requires
        info_of(info, contract, res, number, timestamp),
    ensures
        ({
            let u = res.receipt;
            match info.receipt {
                Some(r) => {
                    &&& r.energy_usage == u.energy_usage
                    &&& r.energy_fee == u.energy_fee
                    &&& r.origin_energy_usage == u.origin_energy_usage
                    &&& r.energy_usage_total == u.energy_usage_total
                    &&& r.net_usage == u.net_usage
                    &&& r.net_fee == u.net_fee
                    &&& r.result == u.result
                    &&& r.energy_penalty_total == u.energy_penalty_total
                },
                None => true,
            }
        }),
        info.receipt is None <==> {
            let u = res.receipt;
            &&& u.energy_usage == 0 && u.energy_fee == 0 && u.origin_energy_usage == 0
            &&& u.energy_usage_total == 0 && u.net_usage == 0 && u.net_fee == 0
            &&& u.multi_sign_fee == 0 && u.memo_fee == 0 && u.result == 0
            &&& u.energy_penalty_total == 0
        },
{
}

/// The contract that is named: the called one; the created one, whose address is the
/// network's prefix and the last twenty bytes of the digest; none otherwise.
pub proof fn named_contracts(
    info: TransactionInfo,
    contract: VmContract,
    res: TxResult,
    number: int,
    timestamp: i64,
    i: int,
)
    requires
        info_of(info, contract, res, number, timestamp),
        0 <= i < 20,
    ensures
        match contract {
            VmContract::Trigger { contract_address } => info.contract_address@
                == contract_address@,
            VmContract::Create { digest } => info.contract_address@.len() == 21
                && info.contract_address@[0] == 0x41 && info.contract_address@[i + 1]
                == digest@[i + 12],
            VmContract::Other => info.contract_address@.len() == 0,
        },
{
}

/// A block's transaction-info covers the transactions that have both a contract and a
/// result, in order, and is stored under the block's own number and time.
pub proof fn blocks_are_covered(
    r: TransactionRet,
    timestamp: Option<i64>,
    id: BlockId,
    contracts: Seq<VmContract>,
    results: Seq<TxResult>,
    i: int,
)
    requires
        ret_of(r, timestamp, id, contracts, results),
    ensures
        r.block_number == id.spec_height(),
        timestamp matches Some(t) ==> r.block_time_stamp == t,
        timestamp is None ==> r.block_time_stamp == 0,
        0 <= i < contracts.len() && i < results.len() <==> 0 <= i < r.transactioninfo@.len(),
        0 <= i < r.transactioninfo@.len() ==> {
            let info = r.transactioninfo@[i];
            &&& info_of(info, contracts[i], results[i], r.block_number as int, r.block_time_stamp)
            &&& info.id@ == results[i].tx_id@
            &&& info.fee == results[i].actuator_fee + results[i].receipt.energy_fee
                + results[i].receipt.net_fee + results[i].receipt.multi_sign_fee
                + results[i].receipt.memo_fee
        },
{
    if 0 <= i < r.transactioninfo@.len() {
        assert(info_of(
            r.transactioninfo@[i],
            contracts[i],
            results[i],
            id.spec_height(),
            stamped(timestamp),
        ));
    }
}

/// Charges that are not negative and whose sum is in range can be added up.
pub proof fn ordinary_fees_fit(res: TxResult)
    requires
        res.actuator_fee >= 0,
        res.receipt.energy_fee >= 0,
        res.receipt.net_fee >= 0,
        res.receipt.multi_sign_fee >= 0,
        res.receipt.memo_fee >= 0,
        res.actuator_fee + res.receipt.energy_fee + res.receipt.net_fee + res.receipt.multi_sign_fee
            + res.receipt.memo_fee <= i64::MAX,
    ensures
        fee_fits(res),
{
}

/// Each transaction of a block is found under the block's height.
pub proof fn references_name_the_block(results: Seq<TxResult>, height: i64, i: int)
    requires
        0 <= i < results.len(),
    ensures
        refs_of(results, height).len() == results.len(),
        refs_of(results, height)[i].0@ == results[i].tx_id@,
        refs_of(results, height)[i].1 == height,
{
}

/// The commitment builder gets every change of a block with the value that it left.
pub proof fn changes_are_handed_over(
    c: Seq<CommitmentDelta>,
    deltas: Option<&Vec<StateDelta>>,
    i: int,
)
    requires
        commitment_of(c, deltas),
    ensures
        deltas is None ==> c.len() == 0,
        deltas matches Some(d) ==> {
            &&& c.len() == d@.len()
            &&& 0 <= i < c.len() ==> {
                &&& c[i].store@ == d@[i].store@
                &&& c[i].key@ == d@[i].key@
                &&& c[i].after is Some <==> d@[i].after is Some
                &&& c[i].after is Some ==> c[i].after->Some_0@ == d@[i].after->Some_0@
            }
        },
{
    if let Some(d) = deltas {
        if 0 <= i < c.len() {
            assert(same_delta(c[i], d@[i]));
        }
    }
}

/// The steps one by one, each taken once and exactly if what it serves is attached or
/// due: what writes comes before what reads, the references and the transaction-info
/// before the log, the archive and the commitment, and the follower's call last.
pub proof fn steps_are_in_order(h: IndexHook, sync: bool)
    ensures
        ({
            let s = hook_steps(h, sync);
            let a = if h.tx_refs { 1int } else { 0int };
            let b = a + 1;
            let c = b + if sync { 1int } else { 0int };
            let d = c + if h.firehose { 1int } else { 0int };
            let e = d + if h.archive { 1int } else { 0int };
            let f = e + if h.commitment { 1int } else { 0int };
            &&& s.len() == f + 1
            &&& h.tx_refs ==> s[0] == HookStep::PutRefs
            &&& s[a] == HookStep::PutRet
            &&& sync ==> s[b] == HookStep::SyncRet
            &&& h.firehose ==> s[c] == HookStep::Firehose
            &&& h.archive ==> s[d] == HookStep::Archive
            &&& h.commitment ==> s[e] == HookStep::Commitment
            &&& s[f] == HookStep::Notify
        }),
{
}

/// What a block hands to the index: transaction-info with every charge in its
/// fee, under the block's number; and the block is made durable near the tip
/// and on every sixteenth block. The hook's own settings stay.
pub proof fn applied_blocks_are_recorded(
    hook: &mut IndexHook,
    timestamp: Option<i64>,
    id: BlockId,
    contracts: Vec<VmContract>,
    results: Vec<TxResult>,
    deltas: Option<&Vec<StateDelta>>,
    now: i64,
    r: HookWork,
    i: int,
)
    requires
        old(hook).wf(),
        call_ensures(
            IndexHook::on_block_applied,
            (hook, timestamp, &id, &contracts, &results, deltas, now),
            r,
        ),
        0 <= i < contracts@.len(),
        i < results@.len(),
    ensures
        r.ret.block_number == id.spec_height(),
        i < r.ret.transactioninfo@.len(),
        r.ret.transactioninfo@[i].id@ == results@[i].tx_id@,
        r.ret.transactioninfo@[i].fee == results@[i].actuator_fee + results@[i].receipt.energy_fee
            + results@[i].receipt.net_fee + results@[i].receipt.multi_sign_fee
            + results@[i].receipt.memo_fee,
        timestamp is Some && now - timestamp->Some_0 < 300_000 ==> final(hook).barrier.since_sync
            == 0,
        old(hook).barrier.since_sync >= 15 ==> final(hook).barrier.since_sync == 0,
        timestamp is Some && now - timestamp->Some_0 >= 300_000 && old(hook).barrier.since_sync < 15
            ==> final(hook).barrier.since_sync == old(hook).barrier.since_sync + 1,
        final(hook).tx_refs == old(hook).tx_refs,
        final(hook).archive == old(hook).archive,
        final(hook).firehose == old(hook).firehose,
        final(hook).commitment == old(hook).commitment,
        final(hook).lagged == old(hook).lagged,
        final(hook).resync_needed == old(hook).resync_needed,
{
    blocks_are_covered(r.ret, timestamp, id, contracts@, results@, i);
    if timestamp is Some {
        crate::durability::near_the_tip_is_five_minutes(now, timestamp->Some_0);
    }
}

} // verus!
