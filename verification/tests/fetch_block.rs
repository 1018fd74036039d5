use tron_node::fetch_block::{FetchBlockScheduler, FetchDecision};

fn hash_of(byte: u8) -> [u8; 32] {
    [byte; 32]
}

#[test]
fn first_fetch_dispatches() {
    let mut s = FetchBlockScheduler::new(10_000);
    let dec = s.try_fetch(101, hash_of(1), "peer-a", 100, 1_000);
    assert_eq!(dec, FetchDecision::Dispatch);
    assert!(s.in_flight().is_some());
}

#[test]
fn second_fetch_within_budget_defers() {
    let mut s = FetchBlockScheduler::new(10_000);
    s.try_fetch(101, hash_of(1), "peer-a", 100, 1_000);
    let dec = s.try_fetch(101, hash_of(1), "peer-b", 100, 1_500);
    assert_eq!(dec, FetchDecision::Defer);
}

#[test]
fn fetch_after_budget_re_arms() {
    let mut s = FetchBlockScheduler::new(10_000);
    s.try_fetch(101, hash_of(1), "peer-a", 100, 1_000);
    let dec = s.try_fetch(101, hash_of(1), "peer-b", 100, 7_000);
    assert_eq!(dec, FetchDecision::Dispatch);
    assert_eq!(s.in_flight().unwrap().peer_key, "peer-b");
}

#[test]
fn non_next_block_is_rejected() {
    let mut s = FetchBlockScheduler::new(10_000);
    let dec = s.try_fetch(102, hash_of(1), "peer-a", 100, 1_000);
    assert_eq!(dec, FetchDecision::NotNextBlock);
    assert!(s.in_flight().is_none());
}

#[test]
fn complete_clears_slot() {
    let mut s = FetchBlockScheduler::new(10_000);
    s.try_fetch(101, hash_of(1), "peer-a", 100, 1_000);
    let cleared = s.complete().expect("present");
    assert_eq!(cleared.peer_key, "peer-a");
    assert!(s.in_flight().is_none());
}

#[test]
fn complete_if_matches_ignores_wrong_hash() {
    let mut s = FetchBlockScheduler::new(10_000);
    s.try_fetch(101, hash_of(1), "peer-a", 100, 1_000);
    assert!(!s.complete_if_matches(&hash_of(99)));
    assert!(s.in_flight().is_some());
    assert!(s.complete_if_matches(&hash_of(1)));
    assert!(s.in_flight().is_none());
}

#[test]
fn budget_is_half_of_the_timeout() {
    for t in [0u64, 1, 2, 199, 200, 10_000, 10_001, (1 << 53) + 1, u64::MAX] {
        let s = FetchBlockScheduler::new(t);
        assert_eq!(s.budget_ms(), (t as f64 * 0.5) as u64);
    }
}
