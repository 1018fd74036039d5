use tron_node::relay::{RelayConfig, RelayPeer, RelayPolicy};

fn addr(b: u8) -> [u8; 21] {
    let mut out = [0u8; 21];
    out[0] = 0x41;
    out[1] = b;
    out
}

fn peer_basic(key: &str, witness: Option<u8>, ff: bool) -> RelayPeer {
    RelayPeer {
        key: key.into(),
        witness_address: witness.map(addr),
        is_fast_forward: ff,
    }
}

#[test]
fn fast_forward_peers_are_picked_first() {
    let cfg = RelayConfig::default();
    let peers = vec![
        peer_basic("ff-1", None, true),
        peer_basic("w-1", Some(1), false),
        peer_basic("ff-2", None, true),
    ];
    let active = [addr(1)];
    let plan = RelayPolicy {
        config: &cfg,
        peers: &peers,
        active_witnesses: &active,
    }
    .evaluate();
    assert_eq!(plan.fast_forward, vec!["ff-1", "ff-2"]);
    assert_eq!(plan.witnesses, vec!["w-1"]);
}

#[test]
fn fast_forward_capped_at_max() {
    let cfg = RelayConfig {
        max_fast_forward_num: 2,
        ..RelayConfig::default()
    };
    let peers = vec![
        peer_basic("ff-1", None, true),
        peer_basic("ff-2", None, true),
        peer_basic("ff-3", None, true),
        peer_basic("ff-4", None, true),
    ];
    let plan = RelayPolicy {
        config: &cfg,
        peers: &peers,
        active_witnesses: &[],
    }
    .evaluate();
    assert_eq!(plan.fast_forward.len(), 2);
    assert_eq!(plan.fast_forward, vec!["ff-1", "ff-2"]);
}

#[test]
fn witness_peer_not_in_active_set_is_skipped() {
    let cfg = RelayConfig::default();
    let peers = vec![
        peer_basic("w-1", Some(1), false),
        peer_basic("w-2", Some(2), false),
    ];
    let active = [addr(1)];
    let plan = RelayPolicy {
        config: &cfg,
        peers: &peers,
        active_witnesses: &active,
    }
    .evaluate();
    assert_eq!(plan.witnesses, vec!["w-1"]);
}

#[test]
fn fast_forward_peer_excluded_from_witness_dup() {
    let cfg = RelayConfig::default();
    let peers = vec![peer_basic("dual", Some(1), true)];
    let active = [addr(1)];
    let plan = RelayPolicy {
        config: &cfg,
        peers: &peers,
        active_witnesses: &active,
    }
    .evaluate();
    assert_eq!(plan.fast_forward, vec!["dual"]);
    assert!(
        plan.witnesses.is_empty(),
        "dual peer should not appear in both lists"
    );
}

#[test]
fn empty_input_produces_empty_plan() {
    let cfg = RelayConfig::default();
    let plan = RelayPolicy {
        config: &cfg,
        peers: &[],
        active_witnesses: &[],
    }
    .evaluate();
    assert!(plan.is_empty());
}

#[test]
fn witnesses_are_capped_and_plans_disjoint() {
    let cfg = RelayConfig {
        max_peer_count_per_address: 2,
        max_fast_forward_num: 1,
    };
    let peers = vec![
        peer_basic("a", Some(1), true),
        peer_basic("b", Some(2), false),
        peer_basic("c", Some(3), false),
        peer_basic("d", Some(4), false),
    ];
    let active = [addr(1), addr(2), addr(3), addr(4)];
    let plan = RelayPolicy {
        config: &cfg,
        peers: &peers,
        active_witnesses: &active,
    }
    .evaluate();
    assert_eq!(plan.fast_forward, vec!["a"]);
    for key in &plan.witnesses {
        assert!(!plan.fast_forward.contains(key));
    }
    assert!(!plan.is_empty());
}
