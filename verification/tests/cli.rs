use tron_node::cli::{
    admin_command, command, config_file, data_dir_arg, db_lite_args, export_snapshot_args,
    import_live_args, import_snapshot_args, parse_args, parse_checkpoint, parse_src_dst,
    prune_before_args, AdminCommand, AdminUsage, Command, DirCommand, ImportMode,
};
use tron_node::config::NodeConfig;
use tron_node::diag::{parse_addr, parse_slot, run_diag, DiagOutcome, DiagRequest};

fn args(line: &str) -> Vec<String> {
    line.split_whitespace().map(|s| s.to_string()).collect()
}

#[test]
fn subcommands_are_told_apart() {
    assert!(matches!(command("start"), Some(Command::Start)));
    assert!(matches!(command("-h"), Some(Command::Help)));
    assert!(command("stop").is_none());
    assert!(matches!(admin_command(&args("db lite --src x")), Ok(AdminCommand::DbLite)));
    assert!(matches!(admin_command(&args("compact")), Ok(AdminCommand::Compact)));
    assert!(matches!(admin_command(&args("")), Err(AdminUsage::Missing)));
    assert!(matches!(admin_command(&args("db")), Err(AdminUsage::DbMissing)));
    match admin_command(&args("db fix")) {
        Err(AdminUsage::DbUnknown(w)) => assert_eq!(w, "fix"),
        _ => panic!("expected an unknown subcommand"),
    }
}

#[test]
fn import_snapshot_flags() {
    let a = import_snapshot_args(&args("--from /s --mode move --force --data-dir /d")).unwrap();
    assert_eq!(a.from, "/s");
    assert!(matches!(a.mode, ImportMode::Move));
    assert!(a.force);
    assert_eq!(a.data_dir, "/d");
    let a = import_snapshot_args(&args("--from /s")).unwrap();
    assert!(matches!(a.mode, ImportMode::Copy));
    assert_eq!(a.data_dir, "./tron-data");
    let text = |line: &str| match import_snapshot_args(&args(line)) {
        Err(e) => e,
        Ok(_) => panic!("expected a refusal"),
    };
    assert_eq!(text(""), "--from is required");
    assert_eq!(text("--from"), "--from needs PATH");
    assert_eq!(text("--from /s --mode zip"), "--mode must be one of: copy, move, symlink");
    assert!(text("--what").starts_with("unknown flag: --what"));
}

#[test]
fn export_and_live_import_flags() {
    let a = export_snapshot_args(&args("--to /o --compression none")).unwrap();
    assert_eq!(a.to, "/o");
    assert!(!a.gzip);
    assert!(export_snapshot_args(&args("--to /o")).unwrap().gzip);
    let a = import_live_args(&args("--from /s --secondary-cache /c")).unwrap();
    assert_eq!(a.secondary_cache.as_deref(), Some("/c"));
    assert!(!a.force);
}

#[test]
fn admin_flags() {
    let a = db_lite_args(&args("--src a --dst b")).unwrap();
    assert_eq!(a.recent_blocks, 65_536);
    let a = db_lite_args(&args("--src a --dst b --recent-blocks 9")).unwrap();
    assert_eq!(a.recent_blocks, 9);
    assert!(db_lite_args(&args("--src a --dst b --recent-blocks 0")).is_err());
    assert_eq!(prune_before_args(&args("--before 77")).unwrap(), ("./tron-data".to_string(), 77));
    match prune_before_args(&args("--before x")) {
        Err(e) => assert_eq!(e, "--before parse: invalid digit found in string"),
        Ok(_) => panic!("expected a refusal"),
    }
    assert_eq!(
        parse_src_dst(&args("--src a --dst b"), DirCommand::Move).unwrap(),
        ("a".to_string(), "b".to_string())
    );
    match parse_src_dst(&args("--src a"), DirCommand::Copy) {
        Err(e) => assert_eq!(e, "admin db copy: --dst PATH required"),
        Ok(_) => panic!("expected a refusal"),
    }
    assert_eq!(data_dir_arg(&args("--data-dir /d"), "x").unwrap(), "/d");
}

#[test]
fn start_flags_layer_over_the_config() {
    let cfg = parse_args(
        NodeConfig::default(),
        &args("--data-dir /d --peer a:1 --peer b:2 --rpc-port 9999"),
    )
    .unwrap();
    assert_eq!(cfg.data_dir, "/d");
    assert_eq!(cfg.p2p.peers, vec!["a:1", "b:2"]);
    assert_eq!(cfg.rpc.port, 9999);
    assert!(parse_args(NodeConfig::default(), &args("--rpc-port many")).is_err());
    assert!(parse_args(NodeConfig::default(), &args("--nonsense")).is_err());
    assert_eq!(config_file(&args("--peer a --config f.toml")).unwrap().as_deref(), Some("f.toml"));
    assert!(config_file(&args("--config")).is_err());
}

#[test]
fn numbers_on_the_command_line() {
    let cfg = parse_args(
        NodeConfig::default(),
        &args("--chain-id +18446744073709551615 --max-blocks 7 --progress-log-interval 3 --metrics-port 9"),
    )
    .unwrap();
    assert_eq!(cfg.rpc.chain_id, u64::MAX);
    assert_eq!(cfg.p2p.max_blocks, Some(7));
    assert_eq!(cfg.p2p.progress_log_interval, 3);
    assert_eq!(cfg.metrics.port, 9);
    let text = |line: &str| match parse_args(NodeConfig::default(), &args(line)) {
        Err(e) => e,
        Ok(_) => panic!("expected a refusal"),
    };
    assert_eq!(
        text("--rpc-port 65536"),
        "rpc-port: number too large to fit in target type"
    );
    assert_eq!(text("--chain-id -1"), "chain-id: invalid digit found in string");
    assert_eq!(text("--max-blocks x"), "max-blocks: invalid digit found in string");
    assert_eq!(text("--rpc-port"), "--rpc-port needs N");
    assert_eq!(text("--peer"), "--peer needs HOST:PORT");
    assert_eq!(text("--what"), "unknown flag: --what");
    assert_eq!(
        text("--tip-test 5:zz"),
        "--tip-test hash must be 64 hex chars (got 2)"
    );
    let cfg = parse_args(
        NodeConfig::default(),
        &args("--no-rpc --no-sync --no-metrics --mainnet-seeds --rpc-host h --metrics-host m"),
    )
    .unwrap();
    assert!(cfg.rpc.disabled && cfg.p2p.disabled && cfg.metrics.disabled);
    assert!(cfg.p2p.use_mainnet_seeds);
    assert_eq!((cfg.rpc.host.as_str(), cfg.metrics.host.as_str()), ("h", "m"));
}

#[test]
fn checkpoints_are_a_height_and_a_hash() {
    let hash = "ab".repeat(32);
    let c = parse_checkpoint(&format!("100:{hash}")).unwrap();
    assert_eq!(c.block_num, 100);
    assert_eq!(c.block_id_hex, hash);
    assert!(parse_checkpoint("100").is_err());
    assert!(parse_checkpoint("100:abc").is_err());
}

#[test]
fn diag_reads_addresses_and_slots() {
    let addr = "41".repeat(21);
    assert_eq!(parse_addr(&addr).unwrap(), [0x41; 21]);
    assert!(parse_addr("zz").is_err());
    assert!(parse_addr("4141").is_err());
    let slot = parse_slot("0x05").unwrap();
    assert_eq!(slot[31], 5);
    assert_eq!(slot[..31], [0u8; 31]);
    assert!(matches!(run_diag(&args("")), DiagOutcome::NoSubcommand));
    match run_diag(&args(&format!("account --data-dir /d {addr}"))) {
        DiagOutcome::Run { data_dir, request: DiagRequest::Account(a) } => {
            assert_eq!(data_dir, "/d");
            assert_eq!(a, [0x41; 21]);
        }
        _ => panic!("expected an account request"),
    }
    match run_diag(&args("account 4141")) {
        DiagOutcome::Usage(u) => assert_eq!(u, "account <hex-addr>"),
        _ => panic!("expected a usage line"),
    }
}
