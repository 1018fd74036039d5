use tron_node::chain::{
    BlockId, BlockIndex, TransferAssetParams, TransferParams, TriggerParams, TxContract,
};
use tron_node::mempool_explore::{
    decode_tx_summary, jsonl_line, MempoolState, PendingTx, TxKind,
};
use tron_node::mempool_validator::{
    plan, validate, CandidateTx, ChainState, ContractHead, FeePlan, Outcomes, RawTransaction,
};
use tron_node::panel::{SEL_TRANSFER, USDT_ADDRESS_HEX, USDT_UNITS_PER_DOLLAR};
use tron_node::ref_block::RefBlockFields;

const SWAP_SELECTORS: [[u8; 4]; 2] = [[0x38, 0xed, 0x17, 0x39], [0x18, 0xcb, 0xaf, 0xe5]];

fn usdt_transfer_data(units: u128) -> Vec<u8> {
    let mut d = SEL_TRANSFER.to_vec();
    d.extend_from_slice(&[0u8; 32]);
    let mut amt = [0u8; 32];
    amt[16..32].copy_from_slice(&units.to_be_bytes());
    d.extend_from_slice(&amt);
    d
}

fn call(contract: Vec<u8>, owner: u8, value: i64, data: Vec<u8>) -> TxContract {
    TxContract::Trigger(Some(TriggerParams {
        owner_address: vec![owner; 21],
        contract_address: contract,
        call_value: value,
        data,
    }))
}

fn pending(id: u8, sender: u8, received_at_ms: i64) -> PendingTx {
    PendingTx {
        tx_id: [id; 32],
        received_at_ms,
        expiration_ms: received_at_ms + 60_000,
        sender: Some([sender; 21]),
    }
}

#[test]
fn decode_tx_summary_classifies_trx_transfer() {
    let to = vec![0x41u8; 21];
    let summary = decode_tx_summary(&TxContract::Transfer(Some(TransferParams {
        amount: 5_000_000,
        owner_address: vec![0x42; 21],
        to_address: to.clone(),
    })));
    assert_eq!(summary.kind, TxKind::Trx);
    assert_eq!(summary.amount_sun, 5_000_000);
    assert_eq!(summary.to.as_deref(), Some(to.as_slice()));
    assert!(summary.usdt_units.is_none());
    assert!(summary.method.is_none());
}

#[test]
fn decode_tx_summary_classifies_usdt_transfer_with_amount_and_method() {
    let usdt_addr = hex::decode(USDT_ADDRESS_HEX).unwrap();
    let summary = decode_tx_summary(&call(
        usdt_addr.clone(),
        0x42,
        0,
        usdt_transfer_data(1_234 * USDT_UNITS_PER_DOLLAR),
    ));
    assert_eq!(summary.kind, TxKind::Usdt);
    assert_eq!(summary.usdt_units, Some(1_234 * USDT_UNITS_PER_DOLLAR));
    assert_eq!(summary.method.as_deref(), Some("transfer"));
    assert_eq!(summary.contract.as_deref(), Some(usdt_addr.as_slice()));
    assert_eq!(summary.selector, Some(SEL_TRANSFER));
}

#[test]
fn decode_tx_summary_classifies_generic_call() {
    let summary =
        decode_tx_summary(&call(vec![0x41; 21], 0x42, 7_000_000, SWAP_SELECTORS[0].to_vec()));
    assert_eq!(summary.kind, TxKind::Call);
    assert_eq!(summary.amount_sun, 7_000_000);
    assert_eq!(summary.method.as_deref(), Some("swap"));
    assert!(summary.usdt_units.is_none());
}

#[test]
fn decode_tx_summary_classifies_the_rest() {
    let token = decode_tx_summary(&TxContract::TransferAsset(Some(TransferAssetParams {
        to_address: vec![0x41; 21],
    })));
    assert_eq!(token.kind, TxKind::Token);
    assert_eq!(token.amount_sun, 0, "tokens are no native value");
    assert_eq!(decode_tx_summary(&TxContract::Absent).kind, TxKind::Other);
    assert_eq!(decode_tx_summary(&TxContract::VoteWitness).kind, TxKind::Other);
}

#[test]
fn observe_pending_accumulates_stats_and_swaps() {
    let mut st = MempoolState::new(83_000_000);
    let usdt_addr = hex::decode(USDT_ADDRESS_HEX).unwrap();
    let usdt_tx = call(
        usdt_addr,
        0x42,
        0,
        usdt_transfer_data(250_000 * USDT_UNITS_PER_DOLLAR),
    );
    let summary = decode_tx_summary(&usdt_tx);
    assert!(st.has_room(&summary));
    st.observe_pending(&pending(0x11, 0x42, 1_700_000_000_000), &summary, 1_700_000_000_500);

    let swap_tx = call(vec![0x41; 21], 0x43, 0, SWAP_SELECTORS[1].to_vec());
    let swap_summary = decode_tx_summary(&swap_tx);
    assert!(st.has_room(&swap_summary));
    st.observe_pending(
        &pending(0x22, 0x43, 1_700_000_001_000),
        &swap_summary,
        1_700_000_001_500,
    );

    assert_eq!(st.counts.seen, 2);
    assert_eq!(st.counts.usdt_count, 1, "one USDT transfer");
    assert_eq!(st.counts.call_count, 2, "USDT + swap both count as calls");
    assert_eq!(st.counts.swaps, 1, "one DEX swap detected");
    assert_eq!(st.counts.usdt_units, 250_000 * USDT_UNITS_PER_DOLLAR);
    assert_eq!(st.biggest_usdt_units, 250_000 * USDT_UNITS_PER_DOLLAR);
    assert_eq!(st.feed.len(), 2);
    assert_eq!(st.alerts.len(), 1, "whale alert fired for the $250k USDT tx");

    st.note_lagged(5);
    assert_eq!(st.lagged, 5);
    let frame = st.render(1_700_000_002_000, 2_000, 100);
    assert!(frame.contains("swap"));
}

#[test]
fn whales_are_transfers_and_calls() {
    let mut st = MempoolState::new(1);
    let million = 1_000_000i64 * 1_000_000;
    let transfer = decode_tx_summary(&TxContract::Transfer(Some(TransferParams {
        owner_address: vec![0x42; 21],
        to_address: vec![0x41; 21],
        amount: million,
    })));
    st.observe_pending(&pending(1, 1, 1_000), &transfer, 1_000);
    let paid_call = decode_tx_summary(&call(vec![0x41; 21], 0x42, million, vec![]));
    st.observe_pending(&pending(2, 1, 1_000), &paid_call, 1_000);
    let small = decode_tx_summary(&call(vec![0x41; 21], 0x42, million - 1, vec![]));
    st.observe_pending(&pending(3, 1, 1_000), &small, 1_000);
    assert_eq!(st.alerts, vec!["Pending TRX whale: 1.00M TRX", "Pending TRX whale: 1.00M TRX"]);
    assert_eq!(st.biggest_trx_sun, million as u128);
}

#[test]
fn jsonl_lines_are_one_object_each() {
    let summary = decode_tx_summary(&call(vec![0x41; 21], 0x42, 7, SWAP_SELECTORS[0].to_vec()));
    assert_eq!(
        jsonl_line(&pending(0x11, 0x42, 1_000), &summary, 2_000),
        format!(
            "{{\"txid\":\"{}\",\"ts\":2000,\"signer\":\"{}\",\"type\":\"CALL\",\"to\":\"{}\",\"amount_sun\":7,\"usdt_units\":null,\"contract\":\"{}\",\"method\":\"swap\",\"expiration\":61000}}",
            "11".repeat(32),
            "42".repeat(21),
            "41".repeat(21),
            "41".repeat(21),
        )
    );
}

fn head_type(type_code: i32, known: bool, has_parameter: bool) -> ContractHead {
    ContractHead { type_code, known, has_parameter }
}

fn candidate(signatures: usize, memo: &[u8]) -> CandidateTx {
    CandidateTx {
        raw_data: Some(RawTransaction {
            contracts: vec![head_type(1, true, true)],
            expiration: 0,
            ref_block: RefBlockFields { ref_block_bytes: vec![], ref_block_hash: vec![] },
            data: memo.to_vec(),
        }),
        signatures,
    }
}

fn chain_state() -> ChainState {
    ChainState {
        head_time: None,
        head_number: None,
        block_index: None,
        multi_sign_fee: 1_000_000,
        memo_fee: 1_000_000,
    }
}

fn all_well() -> Outcomes {
    Outcomes { multi_sign: None, memo: None, contract: None }
}

fn raw(tx: &mut CandidateTx) -> &mut RawTransaction {
    tx.raw_data.as_mut().unwrap()
}

#[test]
fn fees_are_planned_for_memos_and_extra_signatures() {
    let s = chain_state();
    assert_eq!(plan(&candidate(1, b""), &s), Ok(FeePlan { multi_sign: None, memo: None }));
    assert_eq!(
        plan(&candidate(2, b"memo note"), &s),
        Ok(FeePlan { multi_sign: Some(1_000_000), memo: Some(1_000_000) })
    );
    let mut free = chain_state();
    free.multi_sign_fee = 0;
    free.memo_fee = 0;
    assert_eq!(
        plan(&candidate(2, b"memo note"), &free),
        Ok(FeePlan { multi_sign: None, memo: None })
    );
}

#[test]
fn memo_fee_pushing_owner_below_amount_is_rejected_at_admission() {
    // What the owner has left after the fee decides the contract's own check.
    let amount = 4_567_888i64;
    let balance = 5_000_000i64;
    let judge = |tx: &CandidateTx, balance: i64| {
        let s = chain_state();
        let owed = plan(tx, &s).unwrap().memo.unwrap_or(0);
        let mut o = all_well();
        if balance - owed < amount {
            o.contract = Some("insufficient balance".to_string());
        }
        validate(tx, &s, &o)
    };
    let err = judge(&candidate(1, b"memo note"), balance).unwrap_err();
    assert!(err.contains("insufficient balance"));
    assert!(judge(&candidate(1, b""), balance).is_ok());
    assert!(judge(&candidate(1, b"memo note"), amount + 1_000_000 + 1).is_ok());
}

#[test]
fn refusals_come_in_order_and_in_these_words() {
    let mut s = chain_state();
    let none = CandidateTx { raw_data: None, signatures: 1 };
    assert_eq!(validate(&none, &s, &all_well()), Err("transaction has no raw_data".to_string()));

    let mut tx = candidate(1, b"");
    raw(&mut tx).contracts.push(head_type(1, true, true));
    assert_eq!(
        validate(&tx, &s, &all_well()),
        Err("contract size should be exactly 1, actual: 2".to_string())
    );

    s.head_time = Some(1_000_000);
    let mut tx = candidate(1, b"");
    raw(&mut tx).expiration = 1_000_000;
    assert_eq!(
        validate(&tx, &s, &all_well()),
        Err("expiration 1000000 <= head block time 1000000".to_string())
    );
    raw(&mut tx).expiration = 1_000_000 + 86_400_001;
    assert_eq!(
        validate(&tx, &s, &all_well()),
        Err("expiration 87400001 > head block time 1000000 + 86400000".to_string())
    );
    raw(&mut tx).expiration = 1_000_000 + 86_400_000;
    assert!(validate(&tx, &s, &all_well()).is_ok());

    let mut raw_id = [9u8; 32];
    raw_id[..8].copy_from_slice(&5u64.to_be_bytes());
    let mut index = BlockIndex::new();
    index.put(&BlockId::from_raw(raw_id));
    s.block_index = Some(index);
    s.head_number = Some(10);
    assert_eq!(
        validate(&tx, &s, &all_well()),
        Err("ref_block: ref_block_bytes must be 2 bytes, got 0".to_string())
    );
    raw(&mut tx).ref_block =
        RefBlockFields { ref_block_bytes: vec![0, 5], ref_block_hash: vec![9; 8] };
    assert!(validate(&tx, &s, &all_well()).is_ok());

    raw(&mut tx).contracts[0] = head_type(77, false, true);
    assert_eq!(
        validate(&tx, &s, &all_well()),
        Err("unknown contract type 77".to_string())
    );

    let mut tx = candidate(2, b"memo");
    raw(&mut tx).ref_block =
        RefBlockFields { ref_block_bytes: vec![0, 5], ref_block_hash: vec![9; 8] };
    let mut o = all_well();
    o.multi_sign = Some("no money".to_string());
    o.memo = Some("still none".to_string());
    assert_eq!(validate(&tx, &s, &o), Err("multi-sign fee: no money".to_string()));
    o.multi_sign = None;
    assert_eq!(validate(&tx, &s, &o), Err("memo fee: still none".to_string()));
    o.memo = None;
    raw(&mut tx).contracts[0] = head_type(1, true, false);
    assert_eq!(validate(&tx, &s, &o), Err("contract has no parameter".to_string()));
}
