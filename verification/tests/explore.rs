use tron_node::chain::{StreamedBlock, TransferParams, TriggerParams, TxContract};
use tron_node::explore::ExploreState;
use tron_node::panel::{
    commas, compact, dur, human_trx, mix_bar, sparkline, trunc, usd, usdt_amount, utc, visible_len,
    SEL_TRANSFER, SEL_TRANSFER_FROM, USDT_ADDRESS_HEX, USDT_UNITS_PER_DOLLAR,
};

/// A USDT `transfer(to, amount)` calldata blob for `amount` base units.
fn usdt_transfer_data(units: u128) -> Vec<u8> {
    let mut d = SEL_TRANSFER.to_vec();
    d.extend_from_slice(&[0u8; 32]);
    let mut amt = [0u8; 32];
    amt[16..32].copy_from_slice(&units.to_be_bytes());
    d.extend_from_slice(&amt);
    d
}

fn usdt_address() -> Vec<u8> {
    hex::decode(USDT_ADDRESS_HEX).unwrap()
}

fn sample_block() -> StreamedBlock {
    StreamedBlock {
        timestamp: 1_700_000_000_000,
        transactions: vec![
            TxContract::Transfer(Some(TransferParams {
                owner_address: vec![0x41; 21],
                to_address: vec![],
                amount: 5_000_000,
            })),
            TxContract::Trigger(Some(TriggerParams {
                owner_address: vec![0x42; 21],
                contract_address: usdt_address(),
                call_value: 0,
                data: usdt_transfer_data(250_000 * USDT_UNITS_PER_DOLLAR),
            })),
            TxContract::Trigger(Some(TriggerParams {
                owner_address: vec![0x42; 21],
                contract_address: vec![0x41; 21],
                call_value: 0,
                data: vec![],
            })),
        ],
    }
}

#[test]
fn observe_block_classifies_txs_detects_usdt_volume_and_dedups() {
    let mut st = ExploreState::new(100);
    let block = sample_block();
    assert!(st.has_room(&block));
    st.note_peer("peer");
    st.observe_block(&block, 101, 1_700_000_003_000);
    assert_eq!(st.counts.txs, 3, "all txs counted");
    assert_eq!(st.counts.transfers, 1, "one TRX transfer");
    assert_eq!(st.counts.calls, 2, "two contract calls");
    assert_eq!(st.counts.usdt_transfers, 1, "exactly the USDT call detected");
    assert_eq!(st.counts.trx_sun, 5_000_000, "5 TRX moved");
    assert_eq!(st.counts.usdt_units, 250_000 * USDT_UNITS_PER_DOLLAR, "$250k USDT decoded");
    assert_eq!(st.wallets.len(), 2, "two unique senders (0x41.., 0x42..)");
    assert_eq!(st.last_num, 101);
    assert_eq!(st.biggest_txs, 3);

    st.observe_block(&block, 101, 1_700_000_003_000);
    assert_eq!(st.counts.txs, 3, "dedup by block number");
}

#[test]
fn freezing_and_delegating_are_stakes() {
    let mut st = ExploreState::new(100);
    let block = StreamedBlock {
        timestamp: 1,
        transactions: vec![
            TxContract::FreezeBalance,
            TxContract::FreezeBalanceV2,
            TxContract::DelegateResource,
            TxContract::Other,
        ],
    };
    st.observe_block(&block, 101, 2);
    assert_eq!(st.counts.stakes, 3);
    assert_eq!(st.counts.txs, 4);
}

#[test]
fn a_frame_shows_the_totals() {
    let mut st = ExploreState::new(100);
    st.note_peer("peer");
    st.observe_block(&sample_block(), 101, 1_700_000_003_000);
    let frame = st.render(1_700_000_004_000, 65_000);
    assert!(frame.contains("101"));
    assert!(frame.contains("250K"));
}

#[test]
fn utc_formats_a_known_instant() {
    assert_eq!(utc(1_700_000_000_000), "2023-11-14 22:13:20 UTC");
    assert_eq!(utc(0), "—");
}

#[test]
fn formatting_helpers() {
    assert_eq!(commas(1_234_567), "1,234,567");
    assert_eq!(human_trx(5_716_000_000), "5,716");
    assert_eq!(human_trx(8_420_000_000_000), "8.42M");
    assert_eq!(usd(1_240_000 * USDT_UNITS_PER_DOLLAR), "$1.24M");
    assert_eq!(usd(850_000 * USDT_UNITS_PER_DOLLAR), "$850K");
}

#[test]
fn usdt_amount_decodes_transfer_and_transfer_from() {
    assert_eq!(usdt_amount(&usdt_transfer_data(1_000_000)), Some(1_000_000));
    let mut tf = SEL_TRANSFER_FROM.to_vec();
    tf.extend_from_slice(&[0u8; 32]);
    tf.extend_from_slice(&[0u8; 32]);
    let mut amt = [0u8; 32];
    amt[16..32].copy_from_slice(&777u128.to_be_bytes());
    tf.extend_from_slice(&amt);
    assert_eq!(usdt_amount(&tf), Some(777));
    assert_eq!(usdt_amount(&[0u8; 8]), None, "unknown selector");
}

#[test]
fn small_helpers() {
    assert_eq!(dur(65_000), "1m 5s");
    assert_eq!(dur(3_661_000), "1h 1m");
    assert_eq!(visible_len("\x1b[1mab\x1b[0m"), 2);
    assert_eq!(trunc("abcdef", 4), "abc…");
    assert_eq!(trunc("abc", 4), "abc");
    assert_eq!(sparkline(&vec![]), "");
    assert_eq!(compact(999), "999");
    assert_eq!(compact(8_412), "8,412");
    assert_eq!(compact(9_999), "9,999");
    assert_eq!(compact(10_000), "10.0K");
    assert_eq!(compact(12_400), "12.4K");
    assert_eq!(compact(99_940), "99.9K");
    assert_eq!(compact(100_000), "100K");
    assert_eq!(compact(850_000), "850K");
    assert_eq!(compact(1_940_000), "1.94M");
    assert_eq!(compact(1_920_000_000), "1.92B");
    let bar = mix_bar(&vec![(1, ""), (3, "")], 20);
    assert_eq!(bar.chars().filter(|c| *c == '█').count(), 20);
    assert_eq!(visible_len("█"), 2);
}
