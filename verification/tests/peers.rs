use tron_node::node_persist::{
    DbNode, DbNodes, NodePersistService, StoredPeers, MAX_NODES_WRITE_TO_DB,
};
use tron_node::node_statistics::{DisconnectReason, NodeStatistics, NodeStatisticsTable};
use tron_node::peer_registry::PeerRegistry;
use tron_node::peer_state::{PeerState, SKIP_AFTER_DIAL_MS};
use tron_node::resilience::PeerSnapshot;

#[test]
fn effective_reason_local_wins_over_remote() {
    let mut s = NodeStatistics::default();
    assert_eq!(s.effective_reason(), DisconnectReason::Unknown);
    s.record_remote_disconnect(DisconnectReason::BadProtocol);
    assert_eq!(s.effective_reason(), DisconnectReason::BadProtocol);
    s.record_local_disconnect(DisconnectReason::RandomElimination);
    assert_eq!(s.effective_reason(), DisconnectReason::RandomElimination);
}

#[test]
fn record_disconnect_bumps_counter() {
    let mut s = NodeStatistics::default();
    s.record_local_disconnect(DisconnectReason::BadProtocol);
    s.record_remote_disconnect(DisconnectReason::FetchFail);
    s.record_local_disconnect(DisconnectReason::RandomElimination);
    assert_eq!(s.disconnect_times, 3);
}

#[test]
fn statistics_start_now_and_follow_the_clock() {
    let mut s = NodeStatistics::default();
    assert!(s.start_ms > 1_600_000_000_000);
    assert_eq!(s.start_ms, s.last_interactive_ms);
    s.touch_now();
    assert!(s.last_interactive_ms >= s.start_ms);
    s.touch_at(s.start_ms + 500);
    assert_eq!(s.idle_ms(s.start_ms + 700), 200);
    assert_eq!(s.idle_ms(s.start_ms), 0);
    assert_eq!(s.uptime_ms(s.start_ms + 700), 700);
}

#[test]
fn table_touch_and_lookup() {
    let mut table = NodeStatisticsTable::new();
    table.touch("peer-alpha", 77);
    let rec = table.get("peer-alpha").expect("present");
    assert!(rec.last_interactive_ms >= rec.start_ms);
}

#[test]
fn table_records_disconnect_with_reason() {
    let mut table = NodeStatisticsTable::new();
    table.record_local_disconnect("peer-A", DisconnectReason::RandomElimination, 1);
    table.record_remote_disconnect("peer-A", DisconnectReason::FetchFail, 2);
    let rec = table.get("peer-A").unwrap();
    assert_eq!(rec.effective_reason(), DisconnectReason::RandomElimination);
    assert_eq!(rec.disconnect_times, 2);
    assert_eq!(rec.start_ms, 1);
}

#[test]
fn snapshot_returns_every_entry() {
    let mut table = NodeStatisticsTable::new();
    for p in ["a", "b", "c"] {
        table.touch(p, 1);
    }
    let snap = table.snapshot();
    assert_eq!(snap.len(), 3);
}

#[test]
fn remove_drops_entry() {
    let mut table = NodeStatisticsTable::new();
    table.touch("p", 1);
    assert!(table.remove("p"));
    assert!(table.get("p").is_none());
    assert!(!table.remove("p"));
}

#[test]
fn reconnects_clear_the_remote_reason() {
    let mut table = NodeStatisticsTable::new();
    table.record_remote_disconnect("p", DisconnectReason::TimeBanned, 1);
    table.record_local_disconnect("p", DisconnectReason::FetchFail, 2);
    table.record_reconnect("p", 3);
    let s = table.get("p").unwrap();
    assert_eq!(s.remote_disconnect_reason, None);
    assert_eq!(s.local_disconnect_reason, Some(DisconnectReason::FetchFail));
    assert_eq!(s.disconnect_times, 2);
}

#[test]
fn old_records_are_pruned_and_closures_change_records() {
    let mut table = NodeStatisticsTable::new();
    table.touch("old", 1_000);
    table.touch("new", 9_000);
    table.with_mut("new", 9_500, |mut s| {
        s.disconnect_times = 42;
        s
    });
    table.with_mut("fresh", 9_500, |s| s);
    assert_eq!(table.get("new").unwrap().disconnect_times, 42);
    assert_eq!(table.get("fresh").unwrap().start_ms, 9_500);
    assert_eq!(table.prune_older_than(5_000, 10_000), 1);
    assert!(table.get("old").is_none());
    assert!(table.get("new").is_some());
}

#[test]
fn disconnect_tags_are_distinct() {
    let tags = [
        DisconnectReason::Unknown.as_u8(),
        DisconnectReason::RandomElimination.as_u8(),
        DisconnectReason::BadProtocol.as_u8(),
        DisconnectReason::FetchFail.as_u8(),
        DisconnectReason::TimeBanned.as_u8(),
    ];
    for i in 0..tags.len() {
        for j in 0..i {
            assert_ne!(tags[i], tags[j]);
        }
    }
}

fn sample(key: &str) -> PeerSnapshot {
    PeerSnapshot {
        key: key.into(),
        is_active_dialer: true,
        is_trust_peer: false,
        need_sync_from_peer: false,
        need_sync_from_us: false,
        last_interactive_ms: 1_000,
        block_recv_ms: 0,
    }
}

#[test]
fn register_then_snapshot_returns_entry() {
    let r = PeerRegistry::new();
    r.register("a", sample("a"));
    let snap = r.snapshot();
    assert_eq!(snap.len(), 1);
    assert_eq!(snap[0].key, "a");
}

#[test]
fn unregister_removes_entry() {
    let r = PeerRegistry::new();
    r.register("a", sample("a"));
    r.register("b", sample("b"));
    r.unregister("a");
    let mut keys: Vec<String> = r.snapshot().into_iter().map(|p| p.key).collect();
    keys.sort();
    assert_eq!(keys, vec!["b".to_string()]);
}

#[test]
fn touch_updates_fields_in_place() {
    let r = PeerRegistry::new();
    r.register("a", sample("a"));
    r.touch("a", |mut s| {
        s.last_interactive_ms = 9_999;
        s
    });
    let snap = r.snapshot();
    assert_eq!(snap[0].last_interactive_ms, 9_999);
}

#[test]
fn touch_on_missing_peer_is_noop() {
    let r = PeerRegistry::new();
    r.touch("ghost", |mut s| {
        s.last_interactive_ms = 9_999;
        s
    });
    assert!(r.is_empty());
}

#[test]
fn clone_shares_state() {
    let r1 = PeerRegistry::new();
    let r2 = r1.clone();
    r1.register("a", sample("a"));
    assert_eq!(r2.len(), 1);
}

#[test]
fn load_missing_file_returns_empty() {
    let s = PeerState::load(&vec![]);
    assert!(!s.was_dialed_recently("1.2.3.4:18888"));
}

#[test]
fn touch_then_recent_check_returns_true() {
    let mut s = PeerState::load(&vec![]);
    s.touch("1.2.3.4:18888");
    assert!(s.was_dialed_recently("1.2.3.4:18888"));
    assert!(!s.was_dialed_recently("5.6.7.8:18888"));
}

#[test]
fn flush_then_reload_preserves_state() {
    let mut s = PeerState::load(&vec![]);
    s.touch("1.2.3.4:18888");
    let entries = s.flush().expect("dirty");
    assert!(s.flush().is_none(), "nothing new to write");
    let s2 = PeerState::load(&entries);
    assert!(s2.was_dialed_recently("1.2.3.4:18888"));
    s.flush_failed();
    assert!(s.flush().is_some(), "a failed write is tried again");
}

#[test]
fn prune_removes_old_entries() {
    let now = SKIP_AFTER_DIAL_MS * 1_000_000;
    let mut s = PeerState::load(&vec![
        ("ancient:18888".to_string(), 1_000),
        ("recent:18888".to_string(), now),
    ]);
    let removed = s.prune_at(60_000, now);
    assert_eq!(removed, 1);
    assert!(!s.was_dialed_recently_at("ancient:18888", now));
    assert!(s.was_dialed_recently_at("recent:18888", now));
    assert!(!s.was_dialed_recently_at("recent:18888", now + SKIP_AFTER_DIAL_MS));
}

fn stored(written: Option<DbNodes>) -> StoredPeers {
    match written {
        Some(nodes) => StoredPeers::Nodes(nodes),
        None => StoredPeers::Nothing,
    }
}

#[test]
fn read_returns_empty_when_nothing_written() {
    let svc = NodePersistService::new(true);
    assert!(svc.read(&StoredPeers::Nothing).is_empty());
}

#[test]
fn round_trip_preserves_set() {
    let svc = NodePersistService::new(true);
    let batch = vec![
        DbNode::new("1.2.3.4", 18888),
        DbNode::new("5.6.7.8", 18888),
    ];
    let written = svc.write_batch(&batch).unwrap();
    assert_eq!(written.nodes.len(), 2);
    let back = svc.read(&stored(Some(written)));
    assert_eq!(back, batch);
}

#[test]
fn write_caps_at_max_nodes() {
    let svc = NodePersistService::new(true);
    let batch: Vec<DbNode> = (0..50)
        .map(|i| DbNode::new(&format!("10.0.0.{i}"), 18888))
        .collect();
    let written = svc.write_batch(&batch).unwrap();
    assert_eq!(written.nodes.len(), MAX_NODES_WRITE_TO_DB);
    let back = svc.read(&stored(Some(written)));
    assert_eq!(back.len(), MAX_NODES_WRITE_TO_DB);
    assert_eq!(back[0].host, "10.0.0.0");
}

#[test]
fn disabled_service_is_a_no_op() {
    let svc = NodePersistService::new(false);
    assert!(!svc.enabled());
    assert!(svc.write_batch(&vec![DbNode::new("a", 1)]).is_none());
    assert!(svc.read(&StoredPeers::Nothing).is_empty());
}

#[test]
fn corrupt_blob_returns_empty_without_panic() {
    let svc = NodePersistService::new(true);
    assert!(svc.read(&StoredPeers::Corrupt).is_empty());
}
