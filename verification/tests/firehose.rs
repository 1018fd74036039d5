use std::collections::HashMap;

use tron_node::admin::{BlockBodies, BlockReceipts, BlockStores};
use tron_node::chain::{BlockId, BlockIndex};
use tron_node::firehose::{
    build_apply, entry_for, reconcile, AppliedTx, Appends, BlockApplied, CallValue, CommittedBlock,
    Entry, FirehoseWriter, HeaderFacts, InternalTransaction, LogEvent, LogHead, TxFacts, TxInfo, VmLog,
};
use tron_node::index_hook::{
    build_transaction_ret, vm_contract_address, HookStep, IndexHook, InfoCode, StateDelta,
    TxOutcome, TxReceipt, TxResult, VmContract,
};

fn id(height: i64, fork: u8) -> BlockId {
    let mut raw = [fork; 32];
    raw[..8].copy_from_slice(&(height as u64).to_be_bytes());
    BlockId::from_raw(raw)
}

fn no_blocks() -> BlockStores {
    BlockStores {
        bodies: BlockBodies::new(),
        index: BlockIndex::new(),
        receipts: BlockReceipts::new(),
    }
}

fn block(height: i64, fork: u8) -> CommittedBlock {
    CommittedBlock {
        block_id: Some(id(height, fork).raw),
        header: None,
        txs: vec![transfer(height * 10)],
        has_info: true,
    }
}

/// The log that a consumer sees, and the writer that fills it.
struct Rig {
    stores: BlockStores,
    blocks: HashMap<i64, CommittedBlock>,
    log: Vec<(char, i64)>,
    entries: Vec<Option<BlockApplied>>,
    head: LogHead,
    consensus: Option<i64>,
}

impl Rig {
    fn new() -> Self {
        Rig {
            stores: no_blocks(),
            blocks: HashMap::new(),
            log: vec![],
            entries: vec![],
            head: LogHead::Empty,
            consensus: None,
        }
    }

    fn persist(&mut self, height: i64, fork: u8) {
        self.stores.bodies.put(&id(height, fork));
        self.stores.index.put(&id(height, fork));
        self.blocks.insert(height, block(height, fork));
    }

    fn append(&mut self, e: Entry) {
        let (c, h, block) = match e {
            Entry::Unwind { to_height } => ('U', to_height, None),
            Entry::Apply(a) => ('A', a.height, Some(a)),
        };
        self.head = match &block {
            None => LogHead::Unwind { to_height: h },
            Some(a) => LogHead::Apply { height: h, block_id: a.block_id.clone() },
        };
        self.log.push((c, h));
        self.entries.push(block);
    }

    fn open(&mut self) -> FirehoseWriter {
        let (w, unwind) =
            FirehoseWriter::open(&self.head, self.consensus, &self.stores.index, None).unwrap();
        if let Some(to_height) = unwind {
            self.append(Entry::Unwind { to_height });
        }
        w
    }

    fn take(&mut self, live: &CommittedBlock, a: &Appends) {
        for e in &a.events {
            let stored = match *e {
                LogEvent::Repair(h) => self.blocks.get(&h),
                _ => None,
            };
            let entry = entry_for(e, live, stored, 0).expect("derivable");
            self.append(entry);
        }
    }

    fn apply_fork(&mut self, w: &mut FirehoseWriter, height: i64, fork: u8) {
        self.persist(height, fork);
        if self.consensus.unwrap_or(0) < height {
            self.consensus = Some(height);
        }
        let a = w.on_block_applied(height, 1_700_000_000_000, 1_800_000_000_000, &self.stores);
        self.take(&block(height, fork), &a);
        w.settle(&a, a.events.len(), true);
    }

    fn apply(&mut self, w: &mut FirehoseWriter, height: i64) {
        self.apply_fork(w, height, 0);
    }
}

fn transfer(amount: i64) -> AppliedTx {
    AppliedTx {
        tx_id: Some([0x77; 32]),
        facts: Some(TxFacts {
            contract_type: 1,
            from: vec![0x41; 21],
            to: Some(vec![0x42; 21]),
            amount,
            asset: None,
        }),
        info: None,
        first_result_ok: Some(true),
    }
}

#[test]
fn applies_carry_decoded_tx_facts() {
    let mut rig = Rig::new();
    let mut w = rig.open();
    rig.apply(&mut w, 1);
    rig.apply(&mut w, 2);
    assert_eq!(rig.log, vec![('A', 1), ('A', 2)]);
    assert_eq!(rig.entries[1].as_ref().expect("a block").txs[0].amount, 20);
    let header = HeaderFacts {
        parent_hash: vec![1; 32],
        timestamp: 5,
        witness_address: vec![2; 21],
    };
    let a = build_apply(2, Some(id(2, 0).raw), Some(&header), &vec![transfer(20)], true, 1);
    assert_eq!(a.txs.len(), 1);
    let tx = &a.txs[0];
    assert!(tx.success);
    assert_eq!(tx.from, vec![0x41; 21]);
    assert_eq!(tx.to, vec![0x42; 21]);
    assert_eq!(tx.amount, 20);
    assert_eq!(a.parent_id, vec![1; 32]);
    assert_eq!(a.timestamp_ms, 5);
    assert_eq!(a.solidified_height, 1);
    assert!(!a.txinfo_missing);
}

#[test]
fn entries_of_bare_blocks_are_empty() {
    let no_raw = AppliedTx { tx_id: None, facts: None, info: None, first_result_ok: None };
    let bare = AppliedTx { tx_id: Some([1; 32]), facts: None, info: None, first_result_ok: None };
    let a = build_apply(9, None, None, &vec![no_raw, bare], false, 0);
    assert!(a.block_id.is_empty());
    assert!(a.txinfo_missing);
    assert_eq!(a.txs.len(), 1, "transactions without raw data are left out");
    assert!(!a.txs[0].success);
    assert_eq!(a.txs[0].contract_type, 0);
    assert!(!build_apply(9, None, None, &vec![], false, 0).txinfo_missing);
}

#[test]
fn reorg_reapply_emits_unwind_then_apply() {
    let mut rig = Rig::new();
    let mut w = rig.open();
    for h in 1..=3 {
        rig.apply(&mut w, h);
    }
    rig.apply_fork(&mut w, 2, 1);
    rig.apply(&mut w, 3);
    assert_eq!(
        rig.log,
        vec![('A', 1), ('A', 2), ('A', 3), ('U', 1), ('A', 2), ('A', 3)]
    );
    assert_eq!(w.counters().unwinds, 1);
}

#[test]
fn missed_blocks_are_repaired_from_the_stores() {
    let mut rig = Rig::new();
    let mut w = rig.open();
    rig.apply(&mut w, 1);

    for h in 2..=3 {
        rig.persist(h, 0);
    }
    rig.consensus = Some(3);

    let mut w = rig.open();
    rig.apply(&mut w, 4);
    assert_eq!(rig.log, vec![('A', 1), ('A', 2), ('A', 3), ('A', 4)]);
    let a = rig.entries[1].as_ref().expect("a block");
    assert_eq!(a.txs[0].amount, 20);
    assert!(!a.txinfo_missing);
    assert_eq!(w.counters().gap_repaired_blocks, 2);
}

#[test]
fn wide_gaps_close_over_several_applies() {
    let mut rig = Rig::new();
    let mut w = rig.open();
    rig.apply(&mut w, 1);
    for h in 2..=1_100 {
        rig.persist(h, 0);
    }
    rig.apply(&mut w, 1_101);
    assert_eq!(w.head_height, 513);
    rig.apply(&mut w, 1_102);
    assert_eq!(w.head_height, 1_025);
    rig.apply(&mut w, 1_103);
    assert_eq!(w.head_height, 1_103);
    let heights: Vec<i64> = rig.log.iter().map(|e| e.1).collect();
    let expected: Vec<i64> = (1..=1_103).collect();
    assert_eq!(heights, expected, "no hole, nothing twice");
}

#[test]
fn internal_tx_zero_token_sentinel_is_not_emitted() {
    let owner = vec![0x41; 21];
    let to = vec![0x42; 21];
    let leg = |call_value: i64, token_id: &str| CallValue {
        call_value,
        token_id: token_id.to_string(),
    };
    let mut tx = AppliedTx {
        tx_id: Some([0x77; 32]),
        facts: Some(TxFacts {
            contract_type: 31,
            from: owner.clone(),
            to: Some(to.clone()),
            amount: 0,
            asset: None,
        }),
        info: None,
        first_result_ok: Some(true),
    };
    tx.info = Some(TxInfo {
        contract_address: vec![],
        logs: vec![],
        internal_transactions: vec![
            InternalTransaction {
                hash: vec![],
                note: vec![],
                extra: String::new(),
                caller_address: owner.clone(),
                transfer_to_address: to.clone(),
                call_value_info: vec![leg(7, ""), leg(0, "0")],
                rejected: false,
            },
            InternalTransaction {
                hash: vec![],
                note: vec![],
                extra: String::new(),
                caller_address: owner,
                transfer_to_address: to,
                call_value_info: vec![leg(5, "1000001")],
                rejected: false,
            },
        ],
    });
    let a = build_apply(100, None, None, &vec![tx], true, 0);
    let itxs = &a.txs[0].internal_txs;
    assert_eq!(itxs.len(), 2);
    assert_eq!(itxs[0].call_value, 7);
    assert_eq!(itxs[0].token_id, "", "the \"0\" sentinel must not surface as a token");
    assert_eq!(itxs[1].token_id, "1000001");
}

#[test]
fn repairs_of_blocks_that_are_not_stored_append_nothing() {
    let event = LogEvent::Repair(4);
    assert!(entry_for(&event, &block(9, 0), None, 1).is_none());
    match entry_for(&event, &block(9, 0), Some(&block(4, 0)), 1) {
        Some(Entry::Apply(a)) => {
            assert_eq!(a.height, 4);
            assert_eq!(a.txs[0].amount, 40);
            assert_eq!(a.solidified_height, 1);
        }
        _ => panic!("expected the stored block"),
    }
}

#[test]
fn log_ahead_of_consensus_unwinds_at_open() {
    let mut rig = Rig::new();
    let mut w = rig.open();
    for h in 1..=5 {
        rig.apply(&mut w, h);
    }
    rig.consensus = Some(3);
    let mut w = rig.open();
    assert_eq!(rig.log.len(), 6);
    assert_eq!(rig.log[5], ('U', 3), "startup unwind to the recovered head");
    rig.apply(&mut w, 4);
    assert_eq!(rig.log[6], ('A', 4));
}

#[test]
fn logs_of_another_chain_are_refused() {
    let index = BlockIndex::new();
    let far = LogHead::Apply { height: 10_001, block_id: vec![] };
    assert_eq!(reconcile(&far, Some(1), &index, None), Ok(Some(1)));
    let err = reconcile(&far, Some(0), &index, None).unwrap_err();
    assert!(err.starts_with(
        "firehose log head 10001 is implausibly far ahead of the consensus head 0 — the firehose directory"
    ));
    assert!(reconcile(&far, None, &index, None).is_err());
    let broken = LogHead::Undecodable("bad wire type".to_string());
    assert_eq!(
        reconcile(&broken, Some(5), &index, None),
        Err("firehose head entry undecodable: bad wire type".to_string())
    );
}

#[test]
fn abandoned_branches_are_unwound_at_open() {
    let mut index = BlockIndex::new();
    index.put(&id(8, 1));
    let orphan = LogHead::Apply { height: 8, block_id: id(8, 0).raw.to_vec() };
    assert_eq!(reconcile(&orphan, Some(8), &index, Some(5)), Ok(Some(5)));
    assert_eq!(reconcile(&orphan, Some(8), &index, Some(9)), Ok(Some(7)));
    assert_eq!(reconcile(&orphan, Some(8), &index, None), Ok(Some(7)));
    let same = LogHead::Apply { height: 8, block_id: id(8, 1).raw.to_vec() };
    assert_eq!(reconcile(&same, Some(8), &index, Some(5)), Ok(None));
}

#[test]
fn entries_are_synced_near_the_tip_and_in_batches() {
    let stores = no_blocks();
    let (mut w, _) =
        FirehoseWriter::open(&LogHead::Empty, None, &BlockIndex::new(), None).unwrap();
    let mut syncs = 0;
    for h in 1..=32 {
        let a = w.on_block_applied(h, 0, 1_700_000_000_000, &stores);
        if a.sync {
            syncs += 1;
        }
        w.settle(&a, a.events.len(), true);
    }
    assert_eq!(syncs, 2, "every sixteenth block while catching up");
    assert!(w.on_block_applied(33, 1_700_000_000_000, 1_700_000_299_999, &stores).sync);
    assert!(!w.on_block_applied(33, 1_700_000_000_000, 1_700_000_300_000, &stores).sync);
}

#[test]
fn failed_appends_leave_the_head_and_are_repaired() {
    let mut rig = Rig::new();
    let mut w = rig.open();
    rig.apply(&mut w, 1);
    let before = w;

    rig.persist(2, 0);
    let a = w.on_block_applied(2, 0, 1_700_000_000_000, &rig.stores);
    w.settle(&a, 0, false);
    assert_eq!(w, before, "nothing went out");

    rig.apply(&mut w, 3);
    assert_eq!(rig.log, vec![('A', 1), ('A', 2), ('A', 3)]);
    assert_eq!(w.head_height, 3);
    assert_eq!(w.counters().gap_repaired_blocks, 1);
    assert_eq!(w.counters().entries, 2);

    let a = w.on_block_applied(2, 0, 1_700_000_000_000, &rig.stores);
    assert_eq!(a.events, vec![LogEvent::Unwind(1), LogEvent::Apply(2)]);
    w.settle(&a, 1, false);
    assert_eq!(w.head_height, 3, "the block itself did not go out");
    assert_eq!(w.counters().unwinds, 1);
    assert_eq!(w.counters().entries, 2);
}

#[test]
fn failed_syncs_stay_due() {
    let stores = no_blocks();
    let (mut w, _) =
        FirehoseWriter::open(&LogHead::Empty, None, &BlockIndex::new(), None).unwrap();
    for h in 1..=16 {
        let a = w.on_block_applied(h, 0, 1_700_000_000_000, &stores);
        assert_eq!(a.sync, h == 16);
        w.settle(&a, a.events.len(), false);
    }
    assert_eq!(w.since_sync, 16);
    assert_eq!(w.head_height, 16);
    let a = w.on_block_applied(17, 0, 1_700_000_000_000, &stores);
    assert!(a.sync, "still due");
    w.settle(&a, 1, true);
    assert_eq!(w.since_sync, 0);
}

#[test]
fn failed_syncs_of_wide_gaps_keep_the_count() {
    let mut rig = Rig::new();
    let mut w = rig.open();
    rig.apply(&mut w, 1);
    w.since_sync = 5;
    let a = w.on_block_applied(2_000, 0, 1_700_000_000_000, &rig.stores);
    assert!(!a.applies);
    assert!(a.sync);
    w.settle(&a, a.events.len(), false);
    assert_eq!(w.head_height, 513);
    assert_eq!(w.since_sync, 5);
    let a = w.on_block_applied(2_001, 0, 1_700_000_000_000, &rig.stores);
    w.settle(&a, a.events.len(), true);
    assert_eq!(w.since_sync, 0);
}

fn result_for(outcome: TxOutcome, receipt: TxReceipt, return_data: Vec<u8>) -> TxResult {
    TxResult {
        tx_id: [0x55; 32],
        outcome,
        internal_transactions: vec![],
        vm_logs: vec![VmLog {
            address: vec![0xee; 20],
            topics: vec![vec![0x11; 32]],
            data: vec![1, 2, 3],
        }],
        receipt,
        vm_return_data: return_data,
        actuator_fee: 0,
    }
}

fn receipt() -> TxReceipt {
    TxReceipt {
        net_usage: 265,
        energy_usage_total: 13_000,
        energy_fee: 1_000,
        ..Default::default()
    }
}

#[test]
fn builds_block_keyed_ret_with_logs_and_result() {
    let results = vec![result_for(TxOutcome::Success, receipt(), vec![0xAB])];
    let ret = build_transaction_ret(
        Some(123_000),
        &id(7, 0),
        &vec![VmContract::Other],
        &results,
    );
    assert_eq!(ret.block_number, 7);
    assert_eq!(ret.block_time_stamp, 123_000);
    assert_eq!(ret.transactioninfo.len(), 1);
    let info = &ret.transactioninfo[0];
    assert_eq!(info.id, [0x55; 32]);
    assert_eq!(info.result, InfoCode::Sucess);
    assert_eq!(info.result.as_i32(), 0);
    assert_eq!(info.log.len(), 1);
    assert_eq!(info.log[0].address.len(), 20, "VM 20-byte form, java-tron stored shape");
    let receipt = info.receipt.as_ref().expect("receipt present");
    assert_eq!(receipt.net_usage, 265);
    assert_eq!(receipt.energy_usage_total, 13_000);
    assert_eq!(receipt.energy_fee, 1_000);
    assert_eq!(info.fee, 1_000, "fee = net_fee + energy_fee");
    assert_eq!(info.contract_result, vec![vec![0xAB]]);
    assert_eq!(info.contract_result.len(), 1);
    assert!(info.res_message.is_empty(), "success carries no res_message");

    let failed = vec![result_for(
        TxOutcome::Failed("InvalidFeeLimit { fee_limit: 0 }".to_string()),
        self::receipt(),
        vec![0xAB],
    )];
    let failed =
        build_transaction_ret(Some(123_000), &id(7, 0), &vec![VmContract::Other], &failed);
    assert_eq!(failed.transactioninfo[0].result, InfoCode::Failed);
    assert_eq!(failed.transactioninfo[0].result.as_i32(), 1);
}

#[test]
fn internal_transactions_are_stored_whole() {
    let mut r = result_for(TxOutcome::Success, receipt(), vec![]);
    r.internal_transactions = vec![InternalTransaction {
        hash: vec![1; 32],
        caller_address: vec![2; 21],
        transfer_to_address: vec![3; 21],
        call_value_info: vec![CallValue { call_value: 4, token_id: "5".to_string() }],
        note: b"call".to_vec(),
        rejected: true,
        extra: "{}".to_string(),
    }];
    let ret = build_transaction_ret(None, &id(7, 0), &vec![VmContract::Other], &vec![r]);
    let t = &ret.transactioninfo[0].internal_transactions[0];
    assert_eq!(t.hash, vec![1; 32]);
    assert_eq!(t.caller_address, vec![2; 21]);
    assert_eq!(t.transfer_to_address, vec![3; 21]);
    assert_eq!(t.call_value_info[0].call_value, 4);
    assert_eq!(t.call_value_info[0].token_id, "5");
    assert_eq!(t.note, b"call".to_vec());
    assert!(t.rejected);
    assert_eq!(t.extra, "{}");
}

#[test]
fn halt_yields_length_one_empty_contract_result() {
    let receipt = TxReceipt { result: 10, ..Default::default() };
    let words = "ExecutionFailed(Store(\"VM halt: OutOfGas\"))".to_string();
    let results = vec![result_for(TxOutcome::Failed(words.clone()), receipt, vec![])];
    let ret = build_transaction_ret(None, &id(7, 0), &vec![VmContract::Other], &results);
    let info = &ret.transactioninfo[0];
    assert_eq!(info.contract_result.len(), 1, "always a one-element list");
    assert!(info.contract_result[0].is_empty(), "single zero-length entry");
    assert_ne!(info.res_message, b"REVERT opcode executed".to_vec());
    assert!(!info.res_message.is_empty());
    assert_eq!(info.res_message, words.into_bytes());
    assert_eq!(info.block_time_stamp, 0);
}

#[test]
fn revert_yields_java_message_and_carries_payload() {
    let receipt = TxReceipt { result: 2, ..Default::default() };
    let payload = vec![0xDE, 0xAD, 0xBE, 0xEF];
    let results = vec![result_for(
        TxOutcome::Failed("ExecutionFailed(Store(\"VM revert\"))".to_string()),
        receipt,
        payload.clone(),
    )];
    let ret = build_transaction_ret(None, &id(7, 0), &vec![VmContract::Other], &results);
    let info = &ret.transactioninfo[0];
    assert_eq!(info.res_message, b"REVERT opcode executed".to_vec());
    assert_eq!(info.contract_result.len(), 1, "always a one-element list");
    assert_eq!(info.contract_result[0], payload, "revert payload rides through");
}

#[test]
fn receipts_of_idle_transactions_are_left_out() {
    let results = vec![result_for(TxOutcome::Success, TxReceipt::default(), vec![])];
    let ret = build_transaction_ret(None, &id(1, 0), &vec![VmContract::Other], &results);
    assert!(ret.transactioninfo[0].receipt.is_none());
    let ret = build_transaction_ret(None, &id(1, 0), &vec![], &results);
    assert!(ret.transactioninfo.is_empty(), "only pairs of transaction and result count");
}

#[test]
fn vm_addresses_by_kind_of_contract() {
    assert_eq!(
        vm_contract_address(&VmContract::Trigger { contract_address: vec![9; 21] }),
        vec![9; 21]
    );
    let mut digest = [0u8; 32];
    for i in 0..32 {
        digest[i] = i as u8;
    }
    let created = vm_contract_address(&VmContract::Create { digest });
    assert_eq!(created.len(), 21);
    assert_eq!(created[0], 0x41);
    assert_eq!(created[1..], digest[12..]);
    assert!(vm_contract_address(&VmContract::Other).is_empty());
}

#[test]
fn hook_persists_and_is_readable_back() {
    let mut hook = IndexHook::new();
    let results = vec![result_for(TxOutcome::Success, receipt(), vec![])];
    let work =
        hook.on_block_applied(Some(0), &id(7, 0), &vec![VmContract::Other], &results, None, 1 << 40);
    assert_eq!(work.steps, vec![HookStep::PutRet, HookStep::Notify]);
    assert_eq!(work.ret.block_number, 7);
    assert_eq!(work.ret.transactioninfo[0].id, [0x55; 32]);
}

#[test]
fn everything_attached_runs_in_order() {
    let mut hook = IndexHook::new()
        .with_tx_refs()
        .with_archive()
        .with_firehose()
        .with_commitment();
    let results = vec![result_for(TxOutcome::Success, receipt(), vec![])];
    let deltas = vec![StateDelta {
        store: "account".to_string(),
        key: vec![1],
        before: Some(vec![2]),
        after: None,
    }];
    let work = hook.on_block_applied(
        Some(100),
        &id(7, 0),
        &vec![VmContract::Other],
        &results,
        Some(&deltas),
        100,
    );
    assert_eq!(
        work.steps,
        vec![
            HookStep::PutRefs,
            HookStep::PutRet,
            HookStep::SyncRet,
            HookStep::Firehose,
            HookStep::Archive,
            HookStep::Commitment,
            HookStep::Notify,
        ]
    );
    assert_eq!(work.refs, vec![([0x55; 32], 7)]);
    assert_eq!(work.commitment.len(), 1);
    assert_eq!(work.commitment[0].store, "account");
    assert!(work.commitment[0].after.is_none());
    hook.commitment_dropped();
    assert_eq!(hook.lagged, 1);
    assert!(hook.resync_needed);
}
