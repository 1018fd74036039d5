use tron_node::binary64::{double_of, one_minus, plus, Bits64, Double};
use tron_node::chain::{BlockId, BlockIndex};
use tron_node::inbound::{
    failure, inventory_reply, ChainTip, InboundServer, InventoryReply, MessageType, Reading, Serve,
    Serving, Stage, Wake,
};
use tron_node::p2p_rate_limiter::{Bucket, P2pRateLimiter, Wait};

const MS: u64 = 1_000_000;

fn rate(x: f64) -> Double {
    Bits64 { bits: x.to_bits() }.number().unwrap()
}

fn as_f64(d: Double) -> f64 {
    d.mant as f64 * 2f64.powi(d.exp)
}

#[test]
fn unregistered_type_always_passes() {
    let mut rl = P2pRateLimiter::new();
    for _ in 0..1000 {
        assert!(rl.try_acquire(42, 0));
    }
}

#[test]
fn registered_type_runs_out_of_permits() {
    let mut rl = P2pRateLimiter::new();
    rl.register(7, rate(1.0), 0);
    assert!(rl.try_acquire(7, 0));
    assert!(!rl.try_acquire(7, 500 * MS));
}

#[test]
fn falling_rates_lose_the_first_permit() {
    let mut rl = P2pRateLimiter::new();
    rl.register_falling(7, rate(1.0), 5);
    assert!(rl.is_registered(7));
    assert!(rl.try_acquire(7, 5), "no time has passed");
    assert!(!rl.try_acquire(7, 5));
    rl.register_falling(7, rate(1.0), 5);
    assert!(!rl.try_acquire(7, 6));
    assert!(!rl.try_acquire(7, 3_600_000 * MS));
    assert!(matches!(rl.time_to_permit(7, 3_600_001 * MS), Wait::Forever));
    rl.register_falling(7, rate(1e-30), 5);
    assert!(rl.try_acquire(7, 3_600_000 * MS), "too little to show");
    assert!(!rl.try_acquire(7, 3_600_001 * MS));
    assert!(rl.try_acquire(8, 0));
}

#[test]
fn re_register_resets_bucket() {
    let mut rl = P2pRateLimiter::new();
    rl.register(7, rate(0.0), 0);
    assert!(rl.try_acquire(7, 0));
    assert!(!rl.try_acquire(7, 1));
    rl.register(7, rate(1.0), 2);
    assert!(rl.try_acquire(7, 2));
}

#[test]
fn unregister_returns_to_unlimited() {
    let mut rl = P2pRateLimiter::default();
    rl.register(7, rate(0.0), 0);
    assert!(rl.try_acquire(7, 0));
    assert!(!rl.try_acquire(7, u64::MAX));
    rl.unregister(7);
    for _ in 0..100 {
        assert!(rl.try_acquire(7, 0));
    }
}

#[test]
fn bucket_refills_over_time() {
    let mut b = Bucket::new(rate(100.0), 0);
    assert!(b.try_take(0));
    assert!(!b.try_take(0));
    assert!(b.try_take(20 * MS));
}

#[test]
fn is_registered_reflects_state() {
    let mut rl = P2pRateLimiter::new();
    assert!(!rl.is_registered(5));
    rl.register(5, rate(10.0), 0);
    assert!(rl.is_registered(5));
    rl.unregister(5);
    assert!(!rl.is_registered(5));
}

/// The bucket in the machine's own floating point.
struct Reference {
    rate: f64,
    permits: f64,
    last: u64,
}

impl Reference {
    fn refill(&mut self, now: u64) {
        let elapsed = now.saturating_sub(self.last);
        let secs = (elapsed / 1_000_000_000) as f64
            + ((elapsed % 1_000_000_000) as f64) / 1_000_000_000f64;
        if secs > 0.0 {
            self.permits = (self.permits + secs * self.rate).min(1.0);
            self.last = now;
        }
    }
}

#[test]
fn falling_buckets_give_what_floating_point_gives() {
    let mut seed: u64 = 777;
    for r in [1e-30, 5.551115123125783e-17, 5.5511151231257834e-17, 1.2e-16, 1e-9, 0.5, 1e300] {
        for step in [1u64, 1_000, 1_000_000_000, 2_000_000_000] {
            let mut b = Bucket::new_falling(rate(r), 0);
            let mut m = Reference { rate: -r, permits: 1.0, last: 0 };
            let mut now = 0u64;
            for _ in 0..20 {
                seed = seed.wrapping_mul(6364136223846793005).wrapping_add(1442695040888963407);
                now += step;
                m.refill(now);
                let expected = m.permits >= 1.0;
                if (seed >> 60) < 3 {
                    if expected {
                        m.permits -= 1.0;
                    }
                    assert_eq!(b.try_take(now), expected);
                } else {
                    assert_eq!(matches!(b.time_to_permit(now), Wait::Now), expected);
                }
            }
        }
    }
}

#[test]
fn buckets_compute_as_floating_point_does() {
    let mut seed: u64 = 12345;
    for r in [0.0, 0.3, 1.0, 3.0, 7.77, 1e-9, 1e6] {
        let mut b = Bucket::new(rate(r), 0);
        let mut m = Reference { rate: r, permits: 1.0, last: 0 };
        let mut now = 0u64;
        for _ in 0..500 {
            seed = seed.wrapping_mul(6364136223846793005).wrapping_add(1442695040888963407);
            now += (seed >> 33) % 700_000_000;
            m.refill(now);
            let expected = m.permits >= 1.0;
            if expected {
                m.permits -= 1.0;
            }
            assert_eq!(b.try_take(now), expected);
            assert_eq!(as_f64(b.permits), m.permits);
            let wait = b.time_to_permit(now);
            if m.permits >= 1.0 {
                assert_eq!(wait, Wait::Now);
            } else if r <= 0.0 {
                assert_eq!(wait, Wait::Forever);
            } else {
                match wait {
                    Wait::Seconds(s) => assert_eq!(as_f64(s), (1.0 - m.permits) / r),
                    _ => panic!("expected a wait"),
                }
            }
        }
    }
}

#[test]
fn sums_and_differences_round_as_floating_point_does() {
    let samples = [1.0, 0.1, 0.3, 1e-17, 3e16, 123456.789, 1e-40, 7.5e22];
    for x in samples {
        for y in samples {
            assert_eq!(as_f64(plus(&rate(x), &rate(y))), x + y);
        }
        if x < 1.0 {
            assert_eq!(as_f64(one_minus(&rate(x))), 1.0 - x);
        }
    }
    assert_eq!(as_f64(one_minus(&Double::zero())), 1.0);
    assert_eq!(as_f64(double_of((1 << 60) + 1)), ((1u64 << 60) + 1) as f64);
}

#[test]
fn waits_of_unregistered_types_are_over() {
    let mut rl = P2pRateLimiter::new();
    assert_eq!(rl.time_to_permit(3, 0), Wait::Now);
    rl.register(3, rate(2.0), 0);
    assert!(rl.try_acquire(3, 0));
    match rl.time_to_permit(3, 0) {
        Wait::Seconds(s) => assert_eq!(as_f64(s), 0.5),
        _ => panic!("expected a wait"),
    }
}

fn id(num: u64) -> BlockId {
    let mut raw = [3u8; 32];
    raw[..8].copy_from_slice(&num.to_be_bytes());
    BlockId::from_raw(raw)
}

fn tip() -> ChainTip {
    let mut index = BlockIndex::new();
    for n in 1..=10 {
        index.put(&id(n));
    }
    ChainTip {
        head_number: Some(10),
        head_hash: Some(id(10).raw),
        solidified: Some(7),
        block_index: Some(index),
        lowest: Some(1),
    }
}

#[test]
fn hello_advertises_the_own_chain() {
    let server = InboundServer::new(id(0), 18_888, 30);
    let hello = server.hello(&tip(), 77);
    assert_eq!(hello.head.num(), 10);
    assert_eq!(hello.solid.num(), 7);
    assert_eq!(hello.genesis.num(), 0);
    assert_eq!(hello.lowest_block_num, 1);
    assert_eq!(hello.port, 18_888);
    assert_eq!(hello.timestamp_ms, 77);
    assert_eq!(server.head_number(&tip()), 10);

    let mut unknown = tip();
    unknown.solidified = Some(99);
    assert_eq!(server.solid_id(&unknown).num(), 10, "an unindexed solid block reads as the head");
    unknown.head_hash = None;
    assert_eq!(server.head_id(&unknown).num(), 0, "no head reads as genesis");
    unknown.head_number = None;
    assert_eq!(server.head_number(&unknown), 0);
    unknown.block_index = None;
    assert_eq!(server.lowest_block_num(&unknown), 0);
}

#[test]
fn peers_are_admitted_up_to_the_cap() {
    let mut server = InboundServer::new(id(0), 1, 0);
    assert_eq!(server.max_inbound, 1);
    assert!(server.has_room());
    assert_eq!(server.peer_started(), 1);
    assert!(!server.has_room());
    assert_eq!(server.peer_ended(), 0);
    assert!(server.has_room());
    server.note_served();
    assert_eq!(server.served, 1);
}

#[test]
fn silent_peers_are_pinged_and_then_dropped() {
    let s = 1_000_000_000u64;
    let mut peer = Serving::new(0);
    assert_eq!(peer.wake(9 * s), Wake::Read);
    assert_eq!(peer.wake(10 * s), Wake::PingAndRead);
    assert_eq!(peer.wake(19 * s), Wake::Read);
    assert_eq!(peer.wake(120 * s), Wake::PingAndRead);
    assert_eq!(peer.wake(120 * s + 1), Wake::Drop);
    assert!(matches!(peer.on_reading(&Reading::TimedOut, 121 * s), Serve::Continue));
    assert_eq!(peer.wake(121 * s), Wake::Drop, "a timeout is no sign of life");
    peer.on_reading(&Reading::Frame(MessageType::Other), 121 * s);
    assert_eq!(peer.wake(122 * s), Wake::Read);
}

#[test]
fn frames_are_answered_by_kind() {
    let mut peer = Serving::new(0);
    let mut on = |t: MessageType| peer.on_reading(&Reading::Frame(t), 1);
    assert!(matches!(on(MessageType::Libp2pKeepAlivePing), Serve::Pong));
    assert!(matches!(on(MessageType::Libp2pKeepAlivePong), Serve::Continue));
    assert!(matches!(on(MessageType::P2pPong), Serve::Continue));
    assert!(matches!(on(MessageType::SyncBlockChain), Serve::Inventory));
    assert!(matches!(on(MessageType::FetchInvData), Serve::Bodies));
    assert!(matches!(on(MessageType::P2pDisconnect), Serve::Done));
    assert!(matches!(on(MessageType::Libp2pDisconnect), Serve::Done));
    assert!(matches!(on(MessageType::Other), Serve::Continue));
    assert!(matches!(peer.on_reading(&Reading::Closed, 2), Serve::Done));
    match peer.on_reading(&Reading::Failed("reset".to_string()), 2) {
        Serve::Fail(t) => assert_eq!(t, "read: reset"),
        _ => panic!("expected a failure"),
    }
}

#[test]
fn serving_failures_name_their_stage() {
    assert_eq!(failure(Stage::Connecting, "x"), "libp2p_handshake: x");
    assert_eq!(failure(Stage::Greeting, "x"), "handshake: x");
    assert_eq!(failure(Stage::Pinging, "x"), "send keepalive ping: x");
    assert_eq!(failure(Stage::Answering, "x"), "send keepalive pong: x");
    assert_eq!(failure(Stage::SendingIds, "x"), "send_chain_inventory: x");
    assert_eq!(failure(Stage::SendingBodies, "x"), "x");
    assert_eq!(inventory_reply(false, true), InventoryReply::Silent);
    assert_eq!(inventory_reply(true, true), InventoryReply::FromIndex);
    assert_eq!(inventory_reply(true, false), InventoryReply::Empty);
}
