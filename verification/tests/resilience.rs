use tron_node::binary64::Double;
use tron_node::node_statistics::DisconnectReason;
use tron_node::resilience::{
    DisconnectCause, PeerSnapshot, ResilienceConfig, ResiliencePolicy, ResilienceService,
};

const HALF: Double = Double { mant: 1 << 52, exp: -53 };

fn peer(key: &str, is_active: bool, last_interactive_ms: u64, block_recv_ms: u64) -> PeerSnapshot {
    PeerSnapshot {
        key: key.into(),
        is_active_dialer: is_active,
        is_trust_peer: false,
        need_sync_from_peer: false,
        need_sync_from_us: false,
        last_interactive_ms,
        block_recv_ms,
    }
}

fn config_for_tests() -> ResilienceConfig {
    ResilienceConfig {
        max_connections: 4,
        min_connections: 2,
        min_active_connections: 1,
        inactive_threshold_ms: 1_000,
        block_not_change_threshold_ms: 60_000,
        retention_percent: HALF,
        min_broadcast_peer_size: 2,
    }
}

#[test]
fn random_elimination_only_fires_when_peer_count_at_cap_and_flag_on() {
    let cfg = config_for_tests();
    let now = 1_000_000;
    let peers = vec![
        peer("a", true, now - 10, now - 50),
        peer("b", true, now - 5, now - 20),
        peer("c", true, now - 1, now - 10),
    ];
    let policy = ResiliencePolicy {
        config: &cfg,
        peers: &peers,
        now_ms: now,
        open_full_tcp_disconnect: true,
    };
    assert!(policy.evaluate().is_empty());

    let peers = vec![
        peer("a", true, now - 10, now - 50),
        peer("b", true, now - 5, now - 20),
        peer("c", true, now - 1, now - 10),
        peer("d", true, now - 1, now - 5),
    ];
    let policy = ResiliencePolicy {
        config: &cfg,
        peers: &peers,
        now_ms: now,
        open_full_tcp_disconnect: false,
    };
    assert!(policy.evaluate().is_empty());

    let policy = ResiliencePolicy {
        config: &cfg,
        peers: &peers,
        now_ms: now,
        open_full_tcp_disconnect: true,
    };
    let decisions = policy.evaluate();
    assert_eq!(decisions.len(), 1);
    assert_eq!(decisions[0].peer_key, "a");
    assert_eq!(decisions[0].cause, DisconnectCause::RandomElimination);
}

#[test]
fn random_elimination_skips_trust_peer() {
    let mut cfg = config_for_tests();
    cfg.min_broadcast_peer_size = 1;
    let now = 1_000_000;
    let mut peers = vec![
        peer("trust", true, now - 100, now - 100),
        peer("b", true, now - 5, now - 20),
        peer("c", true, now - 1, now - 10),
        peer("d", true, now - 1, now - 5),
    ];
    peers[0].is_trust_peer = true;
    let policy = ResiliencePolicy {
        config: &cfg,
        peers: &peers,
        now_ms: now,
        open_full_tcp_disconnect: true,
    };
    let decisions = policy.evaluate();
    assert_ne!(decisions[0].peer_key, "trust");
}

#[test]
fn lan_cleanup_picks_most_idle_when_all_active_dialers_and_inactive() {
    let cfg = config_for_tests();
    let now = 1_000_000;
    let peers = vec![
        peer("a", true, now - 2_000, now),
        peer("b", true, now - 1_500, now),
        peer("c", true, now - 1_100, now),
    ];
    let policy = ResiliencePolicy {
        config: &cfg,
        peers: &peers,
        now_ms: now,
        open_full_tcp_disconnect: false,
    };
    let decisions = policy.evaluate();
    let lan_decisions: Vec<_> = decisions
        .iter()
        .filter(|d| d.cause == DisconnectCause::LanNode)
        .collect();
    assert_eq!(lan_decisions.len(), 1);
    assert_eq!(lan_decisions[0].peer_key, "a");
}

#[test]
fn lan_cleanup_skipped_when_mixed_active_passive() {
    let cfg = config_for_tests();
    let now = 1_000_000;
    let peers = vec![
        peer("a", true, now - 2_000, now),
        peer("b", false, now - 1_500, now),
        peer("c", true, now - 1_100, now),
    ];
    let policy = ResiliencePolicy {
        config: &cfg,
        peers: &peers,
        now_ms: now,
        open_full_tcp_disconnect: false,
    };
    assert!(policy
        .evaluate()
        .iter()
        .all(|d| d.cause != DisconnectCause::LanNode));
}

#[test]
fn isolated_breakout_fires_when_no_recent_block() {
    let cfg = config_for_tests();
    let now = 1_000_000;
    let stale_block_ms = now - 120_000;
    let peers = vec![
        peer("a", true, now - 30_000, stale_block_ms),
        peer("b", true, now - 10_000, stale_block_ms),
        peer("c", false, now - 5_000, stale_block_ms),
        peer("d", false, now - 1_000, stale_block_ms),
    ];
    let policy = ResiliencePolicy {
        config: &cfg,
        peers: &peers,
        now_ms: now,
        open_full_tcp_disconnect: false,
    };
    let decisions = policy.evaluate();
    let causes: Vec<_> = decisions.iter().map(|d| d.cause).collect();
    assert!(causes.contains(&DisconnectCause::IsolatedActive));
    assert_eq!(
        decisions
            .iter()
            .find(|d| d.cause == DisconnectCause::IsolatedActive)
            .unwrap()
            .peer_key,
        "a"
    );
    assert!(causes.contains(&DisconnectCause::IsolatedPassive));
}

#[test]
fn isolation_keeps_the_fewest_dialed_peers() {
    let cfg = config_for_tests();
    let now = 1_000_000;
    let stale = now - 120_000;
    let peers = vec![
        peer("a", true, now - 30_000, stale),
        peer("c", false, now - 5_000, stale),
        peer("d", false, now - 1_000, stale),
    ];
    let policy = ResiliencePolicy {
        config: &cfg,
        peers: &peers,
        now_ms: now,
        open_full_tcp_disconnect: false,
    };
    let decisions = policy.evaluate();
    assert!(decisions.iter().all(|d| d.cause == DisconnectCause::IsolatedPassive));
    assert_eq!(decisions.len(), 1);
}

#[test]
fn the_default_policy_runs() {
    let cfg = ResilienceConfig::default();
    let policy = ResiliencePolicy {
        config: &cfg,
        peers: &[],
        now_ms: 0,
        open_full_tcp_disconnect: true,
    };
    assert!(policy.evaluate().is_empty());
}

#[test]
fn no_decisions_when_node_is_healthy() {
    let cfg = config_for_tests();
    let now = 1_000_000;
    let peers = vec![
        peer("a", true, now - 100, now - 5),
        peer("b", false, now - 50, now - 5),
    ];
    let policy = ResiliencePolicy {
        config: &cfg,
        peers: &peers,
        now_ms: now,
        open_full_tcp_disconnect: true,
    };
    assert!(policy.evaluate().is_empty());
}

#[test]
fn dedup_keeps_first_decision_per_peer_across_rules() {
    let cfg = config_for_tests();
    let now = 1_000_000;
    let stale = now - 120_000;
    let peers = vec![
        peer("a", true, now - 30_000, stale),
        peer("b", true, now - 10_000, stale),
        peer("c", true, now - 5_000, stale),
        peer("d", true, now - 1_000, stale),
    ];
    let policy = ResiliencePolicy {
        config: &cfg,
        peers: &peers,
        now_ms: now,
        open_full_tcp_disconnect: true,
    };
    let decisions = policy.evaluate();
    let mut keys: Vec<&str> = decisions.iter().map(|d| d.peer_key.as_str()).collect();
    keys.sort();
    let mut unique = keys.clone();
    unique.dedup();
    assert_eq!(keys, unique, "no peer should appear twice in one tick");
}

#[test]
fn a_tick_decides_as_the_policy_does() {
    let now = 1_000_000;
    let peers = vec![
        peer("a", true, now - 10, now - 50),
        peer("b", true, now - 5, now - 20),
        peer("c", true, now - 1, now - 10),
        peer("d", true, now - 1, now - 5),
    ];
    let service = ResilienceService {
        config: config_for_tests(),
        tick_interval_ms: 30_000,
        open_full_tcp_disconnect: true,
    };
    let decisions = service.tick(&peers, now);
    assert_eq!(decisions.len(), 1);
    assert_eq!(decisions[0].cause.reason(), DisconnectReason::RandomElimination);
}
