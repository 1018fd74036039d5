use tron_node::chain::{BlockId, BlockIndex};
use tron_node::ref_block::{
    resolve_ref_block_candidate, validate_ref_block, RefBlockError, RefBlockFields,
};

fn synthetic_block_id(num: i64, fill: u8) -> BlockId {
    let mut raw = [fill; 32];
    raw[..8].copy_from_slice(&(num as u64).to_be_bytes());
    BlockId::from_raw(raw)
}

fn raw_with(ref_block_bytes: Vec<u8>, ref_block_hash: Vec<u8>) -> RefBlockFields {
    RefBlockFields { ref_block_bytes, ref_block_hash }
}

#[test]
fn resolve_candidate_for_head_below_65k_just_picks_low_bits() {
    assert_eq!(resolve_ref_block_candidate(100, 50), 50);
    assert_eq!(resolve_ref_block_candidate(100, 100), 100);
}

#[test]
fn resolve_candidate_when_low_bits_exceed_head_wraps_back() {
    assert_eq!(resolve_ref_block_candidate(10, 0xFFFF), -1);
}

#[test]
fn resolve_candidate_picks_most_recent_match_at_or_before_head() {
    assert_eq!(resolve_ref_block_candidate(0x12000, 0x0010), 0x10010);
    assert_eq!(resolve_ref_block_candidate(0x12000, 0x3000), 0x03000);
    assert_eq!(resolve_ref_block_candidate(0x12000, 0x2000), 0x12000);
}

#[test]
fn rejects_wrong_length_ref_block_bytes() {
    let bi = BlockIndex::new();
    let raw = raw_with(vec![0u8; 3], vec![0u8; 8]);
    let err = validate_ref_block(&raw, 0, &bi).unwrap_err();
    assert!(matches!(err, RefBlockError::InvalidRefBlockBytesLength(3)));
    assert_eq!(err.message(), "ref_block_bytes must be 2 bytes, got 3");
}

#[test]
fn rejects_wrong_length_ref_block_hash() {
    let bi = BlockIndex::new();
    let raw = raw_with(vec![0, 0], vec![0u8; 7]);
    let err = validate_ref_block(&raw, 0, &bi).unwrap_err();
    assert!(matches!(err, RefBlockError::InvalidRefBlockHashLength(7)));
    assert_eq!(err.message(), "ref_block_hash must be 8 bytes, got 7");
}

#[test]
fn rejects_when_referenced_block_isnt_in_index() {
    let bi = BlockIndex::new();
    let raw = raw_with(vec![0x00, 0x05], vec![0u8; 8]);
    let err = validate_ref_block(&raw, 100, &bi).unwrap_err();
    assert!(matches!(
        err,
        RefBlockError::UnknownReferencedBlock { ref_low16: 5, head_num: 100 }
    ));
    assert_eq!(
        err.message(),
        "tx references block whose low-16-bits 0x0005 resolves outside the 65,536-block window at head 100"
    );
}

#[test]
fn rejects_when_head_below_zero() {
    let bi = BlockIndex::new();
    let raw = raw_with(vec![0, 0], vec![0u8; 8]);
    let err = validate_ref_block(&raw, -1, &bi).unwrap_err();
    assert!(matches!(err, RefBlockError::UnknownReferencedBlock { .. }));
}

#[test]
fn rejects_when_candidate_falls_outside_65k_window() {
    let mut bi = BlockIndex::new();
    bi.put(&synthetic_block_id(5, 0xaa));

    let raw = raw_with(vec![0xFF, 0xFF], vec![0u8; 8]);
    let err = validate_ref_block(&raw, 10, &bi).unwrap_err();
    assert!(matches!(err, RefBlockError::UnknownReferencedBlock { .. }));
}

#[test]
fn rejects_on_hash_mismatch() {
    let mut bi = BlockIndex::new();
    let real_block = synthetic_block_id(10, 0xaa);
    bi.put(&real_block);

    let raw = raw_with(vec![0x00, 0x0a], vec![0xff; 8]);
    let err = validate_ref_block(&raw, 100, &bi).unwrap_err();
    assert_eq!(
        err.message(),
        "ref_block_hash mismatch at block 10: expected [aa, aa, aa, aa, aa, aa, aa, aa], got [ff, ff, ff, ff, ff, ff, ff, ff]"
    );
    match err {
        RefBlockError::HashMismatch { block_num, expected, actual } => {
            assert_eq!(block_num, 10);
            assert_eq!(expected[..], real_block.as_bytes()[8..16]);
            assert_eq!(actual, vec![0xff; 8]);
        }
        other => panic!("expected HashMismatch, got {other:?}"),
    }
}

#[test]
fn passes_when_ref_block_hash_matches_indexed_block() {
    let mut bi = BlockIndex::new();
    let real_block = synthetic_block_id(42, 0xcc);
    bi.put(&real_block);

    let expected_hash = real_block.as_bytes()[8..16].to_vec();
    let raw = raw_with(vec![0x00, 0x2a], expected_hash);
    assert_eq!(validate_ref_block(&raw, 100, &bi), Ok(()));
}

#[test]
fn passes_for_block_at_exact_window_edge() {
    let mut bi = BlockIndex::new();
    let genesis = synthetic_block_id(0, 0x00);
    bi.put(&genesis);

    let expected = genesis.as_bytes()[8..16].to_vec();
    let raw = raw_with(vec![0x00, 0x00], expected);
    assert_eq!(validate_ref_block(&raw, 65_535, &bi), Ok(()));
}

#[test]
fn rejects_one_block_past_window_edge() {
    let mut bi = BlockIndex::new();
    bi.put(&synthetic_block_id(0, 0x00));

    let raw = raw_with(vec![0x00, 0x00], vec![0u8; 8]);
    let err = validate_ref_block(&raw, 65_536, &bi).unwrap_err();
    assert!(matches!(err, RefBlockError::UnknownReferencedBlock { .. }));
}

#[test]
fn block_ids_carry_their_number() {
    let id = synthetic_block_id(70_000, 0x11);
    assert_eq!(id.num(), 70_000);
    assert_eq!(id.height(), 70_000);
    assert!(id.same(&synthetic_block_id(70_000, 0x11)));
    assert!(!id.same(&synthetic_block_id(70_000, 0x12)));
    assert_eq!(BlockId::from_raw([0xff; 32]).height(), -1);
    let mut bi = BlockIndex::new();
    bi.put(&id);
    assert!(bi.get(70_000).is_some());
    bi.remove(70_000);
    assert!(bi.get(70_000).is_none());
}
