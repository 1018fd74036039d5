use tron_node::backup::{
    decode_keep_alive, encode_keep_alive, interval_ms, member_endpoint, start, BackupStatus, Heard,
    BACKUP_KEEP_ALIVE,
};
use tron_node::config::NodeBackupConfig;

fn cfg(priority: i32, interval: u64) -> NodeBackupConfig {
    NodeBackupConfig {
        priority,
        port: 10001,
        keep_alive_interval: interval,
        members: vec![],
    }
}

#[test]
fn keep_alive_round_trips() {
    for (flag, prio) in [(false, 0), (true, 0), (false, 8), (true, 300)] {
        let enc = encode_keep_alive(flag, prio);
        assert_eq!(enc[0], BACKUP_KEEP_ALIVE);
        let (f, p) = decode_keep_alive(&enc[1..]).unwrap();
        assert_eq!((f, p), (flag, prio));
    }
}

#[test]
fn negative_priorities_survive_the_wire() {
    for prio in [-1, i32::MIN, i32::MAX] {
        let enc = encode_keep_alive(true, prio);
        assert_eq!(decode_keep_alive(&enc[1..]), Some((true, prio)));
    }
    assert_eq!(decode_keep_alive(&[0xff]), None);
}

#[test]
fn solo_node_promotes_to_master_after_timeout() {
    let mut e = start(&cfg(8, 500), vec![], "10.0.0.1".to_string(), 0);
    assert!(!e.handle().is_master(), "starts INIT");
    let mut now = 0;
    while now < 4_200 {
        e.tick(now);
        now += 500;
    }
    assert!(e.handle().is_master(), "solo node self-promotes");
    assert_eq!(e.handle().status_name(), "MASTER");
}

#[test]
fn the_higher_priority_master_stays() {
    let members = vec!["10.0.0.2".to_string()];
    let mut e = start(&cfg(1, 500), members, "10.0.0.1".to_string(), 0);
    for k in 1..10 {
        e.tick(k * 500);
    }
    assert!(e.handle().is_master());
    // A stranger is not heard, whatever it says.
    let heard = e.receive(6_000, "10.9.9.9", &encode_keep_alive(true, 9));
    assert!(matches!(heard, Heard::NonMember));
    assert!(e.handle().is_master());
    // A member that is master with a higher priority takes over.
    let heard = e.receive(6_000, "10.0.0.2", &encode_keep_alive(true, 9));
    assert!(matches!(heard, Heard::Demoted));
    assert!(!e.handle().is_master());
    assert!(matches!(e.handle().status, BackupStatus::Slaver));
}

#[test]
fn member_endpoints_and_intervals() {
    assert_eq!(member_endpoint("10.0.0.1", 10001), "10.0.0.1:10001");
    assert_eq!(interval_ms(&cfg(0, 3000)), 3000);
}
