use tron_node::admin::DbLiteReport;
use tron_node::cli::ImportMode;
use tron_node::diag_report::{
    diag_account, diag_contractstate, diag_delegation, diag_dynprop, diag_reward, diag_storage,
    AccountFacts, DelegationFacts, EnergyRules, EnergyState, RewardFacts, VoteFacts,
};
use tron_node::reports::{
    compact_text, export_text, lite_text, live_import_text, print_import_report, pruned_text,
    ExportReport, ImportReport,
};

const ADDR: [u8; 21] = [0x41; 21];

fn addr_hex() -> String {
    "41".repeat(21)
}

fn import(bytes_copied: u64) -> ImportReport {
    ImportReport {
        stores_imported: 2,
        bytes_copied,
        head_block_number: 77,
        head_block_hash_hex: "abcd".to_string(),
        solidified_block_number: 70,
        witness_count: 27,
        stores: vec!["account".to_string(), "block".to_string()],
    }
}

const TAIL: &str = "  head block number:      77\n  head block hash:        abcd\n  solidified block:       70\n  witnesses:              27\n  stores:                 account, block\n";

#[test]
fn imports_are_reported() {
    assert_eq!(
        print_import_report(&import(0), "\"/s\"", "\"/d\"", &ImportMode::Copy),
        format!(
            "snapshot imported:\n  source:                 \"/s\"\n  destination:            \"/d\"\n  mode:                   Copy\n  stores imported:        2\n{TAIL}",
        )
    );
    let with_size = print_import_report(&import(1_572_864), "/s", "/d", &ImportMode::Symlink);
    assert!(with_size.contains("\n  mode:                   Symlink\n"));
    assert!(with_size.contains("\n  bytes copied:           1.50 MiB\n"));
    assert_eq!(
        live_import_text(&import(5_000_000_000), "\"/s\"", "\"/d\""),
        format!(
            "live import complete:\n  source (primary):       \"/s\"\n  destination:            \"/d\"\n  stores imported:        2\n  bytes streamed:         {:.2} MiB\n{TAIL}",
            5_000_000_000u64 as f64 / (1024.0 * 1024.0)
        )
    );
}

#[test]
fn exports_are_reported() {
    let r = ExportReport {
        output_path: "\"/o.tgz\"".to_string(),
        stores_exported: 1,
        bytes_written: 1,
        stores: vec!["account".to_string()],
    };
    assert_eq!(
        export_text(&r, "\"/d\"", true),
        "snapshot exported:\n  data dir:       \"/d\"\n  output:         \"/o.tgz\"\n  compression:    Gzip\n  stores:         1\n  bytes written:  0.00 MiB\n  store list:     account\n"
    );
    assert!(export_text(&r, "/d", false).contains("compression:    None"));
}

#[test]
fn sizes_round_as_floating_point_does() {
    for bytes in [0u64, 5_243, 5_242, 15_728_640, 123_456_789_012_345, u64::MAX] {
        let r = ExportReport {
            output_path: String::new(),
            stores_exported: 0,
            bytes_written: bytes,
            stores: vec![],
        };
        let expected = format!("  bytes written:  {:.2} MiB\n", bytes as f64 / (1024.0 * 1024.0));
        assert!(export_text(&r, "", true).contains(&expected));
    }
}

#[test]
fn admin_commands_end_with_a_line() {
    let r = DbLiteReport { latest_block: 10, prune_below: 8, blocks_pruned: 7, bytes_copied: 1 };
    assert_eq!(
        lite_text("/dst", &r),
        "lite snapshot written to /dst (latest=10, kept blocks [8, 10], dropped 7)\n"
    );
    assert_eq!(
        compact_text(&vec!["a".to_string(), "b".to_string()]),
        "compacted 2 store(s): a, b\n"
    );
    assert_eq!(pruned_text(3, 9), "pruned 3 block(s) below height 9\n");
}

#[test]
fn accounts_are_shown_field_by_field() {
    assert_eq!(diag_account(&ADDR, None), format!("account {}: ABSENT\n", addr_hex()));
    let a = AccountFacts {
        kind: 2,
        balance: 100,
        frozen_v2: vec![(0, 5), (1, -7)],
        energy_usage: 1,
        energy_window_size: 2,
        latest_consume_time_for_energy: 3,
        acquired_v2_energy: 4,
        delegated_v2_energy: 5,
        acquired_v1_energy: 6,
        delegated_v1_energy: 7,
        net_usage: 8,
        net_window_size: 9,
        latest_consume_time: 10,
        acquired_v2_bandwidth: 11,
        delegated_v2_bandwidth: 12,
    };
    let text = diag_account(&ADDR, Some(&a));
    assert!(text.starts_with(&format!(
        "account {}\n  type            2\n  balance         100\n  frozen_v2       {:?}\n  --- ENERGY ---\n",
        addr_hex(),
        vec![(0, 5i64), (1, -7)]
    )));
    assert!(text.contains("  delegated_v2_energy(SENT)5\n"));
    assert!(text.ends_with("  delegated_v2_bw(SENT)    12\n"));
}

#[test]
fn delegations_storage_and_properties_are_shown() {
    let d = DelegationFacts { energy: 1, bandwidth: 2, expire_energy: 3, expire_bandwidth: 4 };
    assert_eq!(
        diag_delegation(&ADDR, &[0x42; 21], Some(d), None),
        format!(
            "delegation {} -> {}\n  unlocked(0x01): energy=1 bw=2 expire_e=3 expire_bw=4\n  locked(0x02)  : ABSENT\n",
            addr_hex(),
            "42".repeat(21)
        )
    );
    let slot = "00".repeat(32);
    assert_eq!(
        diag_storage(&ADDR, &[0; 32], Some(1), Some(&vec![0xab])),
        format!("storage {} slot 0x{slot} [v1]: 0xab\n", addr_hex())
    );
    assert_eq!(
        diag_storage(&ADDR, &[0; 32], None, None),
        format!("storage {} slot 0x{slot} [v2]: ABSENT (reads as 0)\n", addr_hex())
    );
    assert_eq!(diag_dynprop("K", Some(255)), "dynprop K = 255 (0xff)\n");
    assert_eq!(diag_dynprop("K", Some(-1)), "dynprop K = -1 (0xffffffffffffffff)\n");
    assert_eq!(diag_dynprop("K", Some(0)), "dynprop K = 0 (0x0)\n");
    assert_eq!(diag_dynprop("K", None), "dynprop K: ABSENT\n");
}

#[test]
fn energy_and_rewards_are_shown() {
    let rules = EnergyRules {
        current_cycle: 9,
        allow_dynamic: 1,
        threshold: 2,
        increase: 3,
        max_factor: 4,
    };
    let stored = EnergyState { update_cycle: 5, energy_factor: 6, energy_usage: 7 };
    assert_eq!(
        diag_contractstate(&ADDR, Some(stored), rules, 2_500),
        format!(
            "contractstate {} stored: update_cycle=5 energy_factor=6 energy_usage=7\n  caught-up @cycle 9 (allow_dynamic=1 threshold=2 increase=3 max=4): energy_factor=2500 (effective multiplier 1.2500)\n",
            addr_hex()
        )
    );
    assert!(diag_contractstate(&ADDR, None, rules, 0)
        .contains(": ABSENT (factor 0, fresh at cycle 9)\n"));
    let f = RewardFacts {
        begin_cycle: 1,
        end_cycle: 2,
        current_cycle: 3,
        allowance: 4,
        votes: vec![VoteFacts { vote_address: vec![0xee], vote_count: 5 }],
    };
    assert_eq!(
        diag_reward(&ADDR, &f),
        format!(
            "reward {}\n  begin_cycle    1\n  end_cycle      2\n  current_cycle  3\n  allowance      4\n  votes (1)\n    ee -> 5\n",
            addr_hex()
        )
    );
}
