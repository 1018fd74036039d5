use tron_node::admin::{
    compact_check, copy_total, db_copy, db_lite, db_lite_check, db_lite_copy_check,
    db_move, db_root_check,
    lite_info_text, prune_before, select_accounts, AdminError, BlockBodies,
    BlockReceipts, BlockStores, CopiedEntry, PathFacts,
};
use tron_node::chain::{BlockId, BlockIndex};

fn id(num: i64) -> BlockId {
    let mut raw = [7u8; 32];
    raw[..8].copy_from_slice(&(num as u64).to_be_bytes());
    BlockId::from_raw(raw)
}

fn stores(from: i64, to: i64) -> BlockStores {
    let mut s = BlockStores {
        bodies: BlockBodies::new(),
        index: BlockIndex::new(),
        receipts: BlockReceipts::new(),
    };
    for n in from..=to {
        s.bodies.put(&id(n));
        s.index.put(&id(n));
        s.receipts.put(n);
    }
    s
}

fn path(display: &str, exists: bool, is_dir: bool) -> PathFacts {
    PathFacts { display: display.to_string(), exists, is_dir }
}

#[test]
fn prune_before_drops_blocks_below_threshold_and_keeps_others() {
    let mut s = stores(1, 10);
    for n in 1..=10 {
        assert!(s.index.get(n).is_some(), "block {n} should be present");
    }

    let pruned = prune_before(&mut s, 6, None).unwrap();
    assert_eq!(pruned, 5, "blocks 1..5 should be pruned");

    for n in 1..6 {
        assert!(s.index.get(n).is_none(), "block {n} should be pruned from index");
        assert!(!s.bodies.contains(&id(n)));
    }
    for n in 6..=10 {
        assert!(s.index.get(n).is_some(), "block {n} should remain");
        assert!(s.bodies.contains(&id(n)));
    }
}

#[test]
fn pruning_drops_the_receipts_too() {
    let mut s = stores(0, 10);
    prune_before(&mut s, 6, Some(4)).unwrap();
    for n in 1..=4 {
        assert!(!s.receipts.contains(n));
    }
    assert!(s.receipts.contains(0), "genesis stays");
    for n in 5..=10 {
        assert!(s.receipts.contains(n));
    }
    db_lite(&mut s, true, Some(10), 3, 0);
    assert!(!s.receipts.contains(7));
    assert!(s.receipts.contains(8));
    db_lite(&mut s, false, Some(10), 1, 0);
    assert!(s.receipts.contains(8));
}

#[test]
fn prune_before_is_idempotent() {
    let mut s = stores(1, 5);
    assert_eq!(prune_before(&mut s, 4, None).unwrap(), 3);
    assert_eq!(prune_before(&mut s, 4, None).unwrap(), 0, "second call should be a no-op");
}

#[test]
fn prune_before_rejects_zero() {
    let mut s = stores(1, 1);
    let err = prune_before(&mut s, 0, None).unwrap_err();
    assert!(matches!(err, AdminError::Invalid(_)));
    assert!(s.index.get(1).is_some());
}

#[test]
fn prune_before_stops_at_the_solidified_head() {
    let mut s = stores(1, 10);
    assert_eq!(prune_before(&mut s, 9, Some(4)).unwrap(), 4);
    assert!(s.index.get(4).is_none());
    assert!(s.index.get(5).is_some());
    assert_eq!(prune_before(&mut s, 9, Some(0)).unwrap(), 0);
    assert_eq!(prune_before(&mut s, 7, Some(100)).unwrap(), 2);
}

#[test]
fn compact_all_errors_when_db_dir_missing() {
    let err = compact_check(false, "/data").unwrap_err();
    assert!(matches!(err, AdminError::Io(_)));
    assert_eq!(
        err.message(),
        "io: no db/ subdirectory under /data; nothing to compact"
    );
    assert!(compact_check(true, "/data").is_ok());
}

#[test]
fn db_move_rejects_missing_source() {
    let err = db_move(&path("/src", false, false), &path("/dst", false, false)).unwrap_err();
    assert!(matches!(err, AdminError::Invalid(_)));
}

#[test]
fn db_move_refuses_to_overwrite_existing_destination() {
    let err = db_move(&path("/src", true, true), &path("/dst", true, true)).unwrap_err();
    assert!(matches!(err, AdminError::Invalid(_)));
    assert!(db_move(&path("/src", true, true), &path("/dst", false, false)).is_ok());
}

#[test]
fn db_copy_refuses_existing_destination() {
    let err = db_copy(&path("/src", true, true), &path("/dst", true, true)).unwrap_err();
    assert!(matches!(err, AdminError::Invalid(_)));
    let err = db_copy(&path("/src", true, false), &path("/dst", false, false)).unwrap_err();
    assert!(matches!(err, AdminError::Invalid(_)));
    let err = db_copy(&path("/src", false, false), &path("/dst", false, false)).unwrap_err();
    assert!(matches!(err, AdminError::Invalid(_)));
    assert!(db_copy(&path("/src", true, true), &path("/dst", false, false)).is_ok());
}

#[test]
fn copied_bytes_add_up_without_overflow() {
    let entries = vec![CopiedEntry::File(5), CopiedEntry::Other, CopiedEntry::Dir(7)];
    assert_eq!(copy_total(&entries), 12);
    let entries = vec![CopiedEntry::File(u64::MAX), CopiedEntry::Dir(1)];
    assert_eq!(copy_total(&entries), u64::MAX);
}

#[test]
fn db_root_rejects_missing_account_dir() {
    let err = db_root_check(&path("/data/db/account", false, false)).unwrap_err();
    assert!(matches!(err, AdminError::Invalid(_)));
    assert!(db_root_check(&path("/data/db/account", true, true)).is_ok());
}

#[test]
fn only_decodable_account_rows_are_hashed() {
    let rows = vec![
        (vec![0x41; 21], true),
        (vec![0x41; 20], true),
        (vec![0x42; 21], false),
        (vec![0x43; 21], true),
    ];
    assert_eq!(select_accounts(&rows), vec![0, 3]);
}

#[test]
fn db_lite_rejects_zero_recent_blocks() {
    let src = path("/src", true, true);
    let db = path("/src/db", true, true);
    let dst = path("/dst", false, false);
    let err = db_lite_check(0, &src, &db, &dst).unwrap_err();
    assert!(matches!(err, AdminError::Invalid(_)));
}

#[test]
fn db_lite_rejects_missing_src() {
    let src = path("/src", false, false);
    let db = path("/src/db", false, false);
    let dst = path("/dst", false, false);
    let err = db_lite_check(100, &src, &db, &dst).unwrap_err();
    assert!(matches!(err, AdminError::Invalid(_)));
}

#[test]
fn db_lite_refuses_existing_dst() {
    let src = path("/src", true, true);
    let db = path("/src/db", true, true);
    let dst = path("/dst", true, true);
    let err = db_lite_check(100, &src, &db, &dst).unwrap_err();
    assert!(matches!(err, AdminError::Invalid(_)));
}

#[test]
fn db_lite_rejects_src_without_db_subdir() {
    let src = path("/src", true, true);
    let db = path("/src/db", false, false);
    let dst = path("/dst", false, false);
    let err = db_lite_check(100, &src, &db, &dst).unwrap_err();
    assert!(matches!(err, AdminError::Invalid(_)));
    assert!(db_lite_check(100, &src, &path("/src/db", true, true), &dst).is_ok());
}

#[test]
fn lite_copies_need_the_properties_store() {
    assert!(db_lite_copy_check(&path("/dst/db/properties", true, true)).is_ok());
    let err = db_lite_copy_check(&path("/dst/db/properties", true, false)).unwrap_err();
    assert_eq!(
        err,
        AdminError::Invalid("copy is missing properties store at /dst/db/properties".to_string())
    );
}

#[test]
fn lite_copies_keep_only_the_recent_blocks() {
    let mut s = stores(1, 10);
    let report = db_lite(&mut s, true, Some(10), 3, 99);
    assert_eq!(report.latest_block, 10);
    assert_eq!(report.prune_below, 8);
    assert_eq!(report.blocks_pruned, 7);
    assert_eq!(report.bytes_copied, 99);
    assert!(s.index.get(7).is_none());
    assert!(s.index.get(8).is_some());
    assert!(lite_info_text(&report, 3).contains("10"));
}
