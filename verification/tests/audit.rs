use tron_node::account_report::{account_report, AccountFacts, FrozenEntry};
use tron_node::audit::{
    add_voter, add_voters, consider, frozen_amount, is_listed, mismatch_line, mismatches, rank_mismatches,
    rank_stakers, scan_report, staker_line, stakers_head, stored_line, verdict_line, FrozenV2, StakeBasis, Staker, StandingVote, VoteSums, Voter, Weight, WitnessCount,
};
use tron_node::order::stable_order;

fn ballot(witness: u8, count: i64) -> StandingVote {
    StandingVote { vote_address: vec![witness; 21], vote_count: count }
}

fn witness(b: u8, count: i64) -> WitnessCount {
    WitnessCount { address: vec![b; 21], vote_count: count }
}

#[test]
fn orders_are_stable() {
    assert_eq!(stable_order(&vec![5, 1, 5, 0, 1]), vec![3, 1, 4, 0, 2]);
    assert!(stable_order(&vec![]).is_empty());
}

#[test]
fn witnesses_off_their_sum_are_listed_farthest_first() {
    let mut sums = VoteSums::new();
    sums.add_votes(&vec![ballot(1, 10), ballot(2, 5)]);
    sums.add_votes(&vec![ballot(1, 7)]);
    assert_eq!(sums.len(), 2);
    assert_eq!(sums.get(&[1; 21]), 17);
    assert_eq!(sums.get(&[9; 21]), 0);
    let m = mismatches(&vec![witness(1, 18), witness(2, 5), witness(3, 100)], &sums);
    assert_eq!(m.len(), 2);
    assert_eq!(rank_mismatches(&m), vec![1, 0]);
    assert_eq!(
        mismatch_line(&m[0]),
        format!("  {} stored=18 Σstanding=17 diff=1", "01".repeat(21))
    );
    assert_eq!(m[1].sum, 0);
}

#[test]
fn voters_are_kept_sorted() {
    let mut list = vec![];
    for (a, c) in [(vec![2u8], 1), (vec![1, 0], 5), (vec![1], 9), (vec![2], 0)] {
        add_voter(&mut list, Voter { address: a, vote_count: c });
    }
    let seen: Vec<(Vec<u8>, i64)> =
        list.iter().map(|v| (v.address.clone(), v.vote_count)).collect();
    assert_eq!(seen, vec![(vec![1], 9), (vec![1, 0], 5), (vec![2], 0), (vec![2], 1)]);
}

#[test]
fn weights_add_whole_tokens_per_account() {
    let mut w = Weight::new();
    w.add_account(1_999_999);
    w.add_account(0);
    w.add_account(-5);
    w.add_account(2_000_001);
    assert_eq!((w.floored, w.sun, w.contributors), (3, 4_000_000, 2));
    let basis = StakeBasis { own_v2: 1, own_v1: 2, delegated_v2: 3, delegated_v1: 4 };
    assert_eq!(basis.sum(), 10);
    let frozen = vec![
        FrozenV2 { kind: 0, amount: 5 },
        FrozenV2 { kind: 1, amount: 7 },
        FrozenV2 { kind: 0, amount: 6 },
    ];
    assert_eq!(frozen_amount(&frozen, 0), 11);
    assert_eq!(frozen_amount(&frozen, 2), 0);
}

#[test]
fn verdicts_allow_one_token_per_account() {
    assert_eq!(
        verdict_line("net   ", 10, 12, 2),
        "  net   : stored=10 recon=12 diff=-2 (noise ±2)  CONSISTENT (matches account store)"
    );
    assert_eq!(
        verdict_line("energy", 12, 10, 0),
        "  energy: stored=12 recon=10 diff=2 (noise ±1)  *** INCONSISTENT — counter disagrees with account store ***"
    );
}

#[test]
fn the_largest_stakers_stay_listed() {
    let mut top = vec![];
    for i in 0..100u64 {
        consider(&mut top, Staker { basis: ((i * 37) % 100) as i64, account: i });
    }
    assert_eq!(top.len(), 60);
    assert!(top.iter().all(|s| s.basis >= 40));
    let shown = rank_stakers(&top);
    assert_eq!(top[shown[0]].basis, 99);
    assert_eq!(top[shown[59]].basis, 40);
}

#[test]
fn stakers_are_listed_above_a_thousand_tokens() {
    assert!(!is_listed(1_000_000_000));
    assert!(is_listed(1_000_000_001));
    let b = StakeBasis { own_v2: 7, own_v1: 5, delegated_v2: 3, delegated_v1: 1 };
    assert_eq!(staker_line("NET", "TAddr", &b), "NET TAddr 16 12 5 3 1");
    assert_eq!(
        stakers_head(2, "ENERGY", "en"),
        "--- TOP 2 by ENERGY basis (addr  en_basis_sun  held_v2+v1  v1  deleg_v2  deleg_v1) ---"
    );
}

fn account() -> AccountFacts {
    AccountFacts {
        balance: 17,
        frozen: vec![
            FrozenEntry { balance: 5, expire_time: 100 },
            FrozenEntry { balance: 6, expire_time: 200 },
        ],
        energy_v1: Some(7),
        delegated_bandwidth: 8,
        frozen_v2: vec![9, 10],
        votes: vec![StandingVote { vote_address: vec![0x41, 0x0a], vote_count: 3 }],
        asset: vec![],
        asset_v2: vec![("1000001".to_string(), 4), ("a\"b".to_string(), -1)],
    }
}

#[test]
fn accounts_are_reported_with_their_stakes() {
    assert_eq!(
        account_report(&[0x41, 0xff], Some(&account())),
        "account 41ff\n  balance=17\n  frozen entries: [(5, 100), (6, 200)]\n  frozen_v1(bw)=11 energy_v1=7 deleg_bw=8 v2=19\n  Σ tron_power = 45\n  votes: [(\"410a\", 3)]\n  asset(v1): {}\n  asset_v2:  {\"1000001\": 4, \"a\\\"b\": -1}\n"
    );
    assert_eq!(account_report(&[0x41], None), "account 41 NOT FOUND\n");
    let mut bare = account();
    bare.energy_v1 = None;
    bare.frozen = vec![];
    assert_eq!(bare.stake_sums().unwrap().tron_power, 27);
    let mut rich = account();
    rich.frozen_v2 = vec![i64::MAX, 1];
    assert!(rich.stake_sums().is_none());
    rich.frozen_v2 = vec![i64::MAX];
    assert!(rich.stake_sums().is_none());
}

#[test]
fn voters_of_a_witness_are_listed_in_order() {
    let mut list = vec![];
    add_voters(&mut list, &vec![2], &vec![ballot(7, 5), ballot(8, 6), ballot(7, 1)], &[7; 21]);
    add_voters(&mut list, &vec![1], &vec![ballot(7, 9)], &[7; 21]);
    add_voters(&mut list, &vec![3], &vec![ballot(8, 9)], &[7; 21]);
    let plain: Vec<(Vec<u8>, i64)> =
        list.iter().map(|v| (v.address.clone(), v.vote_count)).collect();
    assert_eq!(plain, vec![(vec![1], 9), (vec![2], 1), (vec![2], 5)]);
}

#[test]
fn scans_report_both_sums() {
    let mut net = Weight::new();
    net.add_account(1_500_000);
    net.add_account(2_500_000);
    let mut energy = Weight::new();
    energy.add_account(999_999);
    assert_eq!(
        scan_report(3, &net, &energy, &Weight::new()),
        "scanned 3 accounts\ncontributing accounts: net=2 energy=1 tron_power=0\nreconstructed (Σ floor(basis/1e6)): net=3 energy=0 tron_power=0\nreconstructed (floor(Σ basis)/1e6): net=4 energy=0 tron_power=0\n"
    );
    assert_eq!(stored_line(1, -2, 3), "stored weights: net=1 energy=-2 tron_power=3\n");
}
