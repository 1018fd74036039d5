use tron_node::binary64::{Bits64, Double};
use tron_node::config::{
    BundlerConfig, CommitteeConfig, ConfigError, DbSettingsConfig, EventFilterConfig, EventSubscribeConfig,
    FilterQuery, IndexBackfillOrder, IndexConfig, IndexScope, IndexStream, LocalWitnessConfig,
    LocalWitnessSource, NodeBackupConfig, NodeConfig, RateLimiterConfig, RateLimiterItem,
    TxCacheConfig, VmConfig, WitnessConfig,
};

#[test]
fn filter_query_earliest_and_empty_map_to_zero() {
    assert_eq!(FilterQuery::parse_from_block("").unwrap(), 0);
    assert_eq!(FilterQuery::parse_from_block("earliest").unwrap(), 0);
    assert_eq!(FilterQuery::parse_from_block("EARLIEST").unwrap(), 0);
    assert_eq!(FilterQuery::parse_from_block("  earliest  ").unwrap(), 0);
}

#[test]
fn filter_query_latest_and_empty_map_to_negative_one() {
    assert_eq!(FilterQuery::parse_to_block("").unwrap(), -1);
    assert_eq!(FilterQuery::parse_to_block("latest").unwrap(), -1);
    assert_eq!(FilterQuery::parse_to_block("LATEST").unwrap(), -1);
}

#[test]
fn filter_query_decimal_numbers_round_trip() {
    assert_eq!(FilterQuery::parse_from_block("100").unwrap(), 100);
    assert_eq!(FilterQuery::parse_to_block("9999999").unwrap(), 9999999);
}

#[test]
fn filter_query_rejects_unparseable() {
    let err = FilterQuery::parse_from_block("not-a-number").unwrap_err();
    assert!(matches!(err, ConfigError::FilterQuery { field: "from_block", .. }));
}

#[test]
fn filter_query_refusals_read_as_written() {
    let err = FilterQuery::parse_to_block(" so\"on ").unwrap_err();
    assert_eq!(
        err.message(),
        "event.subscribe.filter.to_block: cannot parse \" so\\\"on \": invalid digit found in string"
    );
    let err = FilterQuery::parse_from_block("9223372036854775808").unwrap_err();
    assert_eq!(
        err.message(),
        "event.subscribe.filter.from_block: cannot parse \"9223372036854775808\": number too large to fit in target type"
    );
    assert_eq!(FilterQuery::parse_from_block("-12").unwrap(), -12);
}

#[test]
fn filter_query_from_event_filter_resolves_both_ends() {
    let cfg = EventFilterConfig {
        from_block: "1000".into(),
        to_block: "latest".into(),
        ..Default::default()
    };
    let fq = FilterQuery::from_event_filter(&cfg).unwrap();
    assert_eq!(fq.from_block, 1000);
    assert_eq!(fq.to_block, FilterQuery::LATEST_BLOCK_NUM);
}

#[test]
fn node_backup_defaults_match_java_tron() {
    let nb = NodeBackupConfig::default();
    assert_eq!(nb.priority, 0);
    assert_eq!(nb.port, 10001);
    assert_eq!(nb.keep_alive_interval, 3000);
    assert!(nb.members.is_empty());
}

#[test]
fn node_backup_omitted_section_is_default() {
    let cfg = NodeConfig::default();
    assert_eq!(cfg.node_backup.port, 10001);
    assert!(cfg.node_backup.members.is_empty());
}

#[test]
fn vm_defaults_match_java_tron() {
    let vm = VmConfig::default();
    assert!(!vm.support_constant);
    assert_eq!(vm.max_energy_limit_for_constant, 100_000_000);
    assert_eq!(vm.lru_cache_size, 500);
    assert_eq!(f64::from_bits(vm.min_time_ratio.bits), 0.0);
    assert_eq!(f64::from_bits(vm.max_time_ratio.bits), 5.0);
    assert_eq!(vm.long_running_time, 10);
    assert_eq!(vm.estimate_energy_max_retry, 3);
    assert_eq!(vm.constant_call_timeout_ms, 0);
}

#[test]
fn vm_clamp_pins_max_energy_floor() {
    let mut vm = VmConfig {
        max_energy_limit_for_constant: 1_000_000,
        ..Default::default()
    };
    vm.clamp();
    assert_eq!(
        vm.max_energy_limit_for_constant,
        VmConfig::MIN_MAX_ENERGY_LIMIT_FOR_CONSTANT
    );
}

#[test]
fn vm_clamp_clamps_estimate_retry_to_zero_ten_range() {
    let mut vm = VmConfig {
        estimate_energy_max_retry: -5,
        ..Default::default()
    };
    vm.clamp();
    assert_eq!(vm.estimate_energy_max_retry, 0);

    let mut vm = VmConfig {
        estimate_energy_max_retry: 99,
        ..Default::default()
    };
    vm.clamp();
    assert_eq!(vm.estimate_energy_max_retry, VmConfig::MAX_ESTIMATE_RETRY);
}

#[test]
fn vm_constant_call_timeout_zero_is_unset() {
    let vm = VmConfig::default();
    assert!(vm.validate_constant_call_timeout().is_ok());
}

#[test]
fn vm_constant_call_timeout_negative_rejected() {
    let vm = VmConfig {
        constant_call_timeout_ms: -1,
        ..Default::default()
    };
    assert!(matches!(
        vm.validate_constant_call_timeout(),
        Err(ConfigError::VmConfig(_))
    ));
    assert_eq!(
        vm.validate_constant_call_timeout().unwrap_err().message(),
        "vm.vm.constantCallTimeoutMs must be > 0 when configured, got -1"
    );
}

#[test]
fn vm_constant_call_timeout_over_max_rejected() {
    let vm = VmConfig {
        constant_call_timeout_ms: VmConfig::MAX_CONSTANT_CALL_TIMEOUT_MS + 1,
        ..Default::default()
    };
    assert!(matches!(
        vm.validate_constant_call_timeout(),
        Err(ConfigError::VmConfig(_))
    ));
}

#[test]
fn vm_cross_field_warning_fires_only_when_prereqs_off() {
    let vm = VmConfig {
        save_cancel_all_unfreeze_v2_details: true,
        save_internal_tx: false,
        save_featured_internal_tx: false,
        ..Default::default()
    };
    assert!(vm.cross_field_warnings().is_some());

    let vm = VmConfig {
        save_cancel_all_unfreeze_v2_details: true,
        save_internal_tx: true,
        save_featured_internal_tx: true,
        ..Default::default()
    };
    assert!(vm.cross_field_warnings().is_none());

    let vm = VmConfig {
        save_cancel_all_unfreeze_v2_details: false,
        ..Default::default()
    };
    assert!(vm.cross_field_warnings().is_none());
}

#[test]
fn node_config_resolve_vm_applies_clamps_and_validates_timeout() {
    let mut cfg = NodeConfig::default();
    cfg.vm.max_energy_limit_for_constant = 100;
    cfg.vm.estimate_energy_max_retry = 99;
    let resolved = cfg.resolve_vm().expect("ok");
    assert_eq!(
        resolved.max_energy_limit_for_constant,
        VmConfig::MIN_MAX_ENERGY_LIMIT_FOR_CONSTANT
    );
    assert_eq!(resolved.estimate_energy_max_retry, VmConfig::MAX_ESTIMATE_RETRY);

    assert_eq!(cfg.vm.max_energy_limit_for_constant, 100);

    cfg.vm.constant_call_timeout_ms = -1;
    assert!(matches!(cfg.resolve_vm(), Err(ConfigError::VmConfig(_))));
}

#[test]
fn db_settings_defaults_match_java_tron() {
    let d = DbSettingsConfig::default();
    assert_eq!(d.level_number, 7);
    assert_eq!(d.compact_threads, 0);
    assert_eq!(d.blocksize, 16);
    assert_eq!(d.max_bytes_for_level_base, 256);
    assert_eq!(f64::from_bits(d.max_bytes_for_level_multiplier.bits), 10.0);
    assert_eq!(d.level0_file_num_compaction_trigger, 2);
    assert_eq!(d.target_file_size_base, 64);
    assert_eq!(d.target_file_size_multiplier, 1);
    assert_eq!(d.max_open_files, 5000);
}

#[test]
fn db_settings_resolve_expands_auto_compact_threads() {
    let d = DbSettingsConfig::default();
    let r = d.resolve(None);
    assert!(r.compact_threads >= 1, "auto must resolve to ≥1 thread");
    assert_eq!(d.resolve(Some(12)).compact_threads, 12);
    assert_eq!(d.resolve(Some(0)).compact_threads, 1);
    assert_eq!(d.compact_threads, 0);
}

#[test]
fn db_settings_resolve_preserves_explicit_thread_count() {
    let mut d = DbSettingsConfig::default();
    d.compact_threads = 7;
    let r = d.resolve(Some(64));
    assert_eq!(r.compact_threads, 7);
}

#[test]
fn tx_cache_clamps_to_documented_range() {
    let mut t = TxCacheConfig {
        estimated_transactions: 5,
        ..Default::default()
    };
    t.clamp();
    assert_eq!(t.estimated_transactions, TxCacheConfig::MIN_ESTIMATED_TXS);

    let mut t = TxCacheConfig {
        estimated_transactions: 999_999,
        ..Default::default()
    };
    t.clamp();
    assert_eq!(t.estimated_transactions, TxCacheConfig::MAX_ESTIMATED_TXS);

    let mut t = TxCacheConfig {
        estimated_transactions: 500,
        ..Default::default()
    };
    t.clamp();
    assert_eq!(t.estimated_transactions, 500);
}

#[test]
fn resolving_the_tx_cache_leaves_the_section_alone() {
    let mut cfg = NodeConfig::default();
    cfg.storage.tx_cache.estimated_transactions = 5000;
    assert_eq!(cfg.resolve_tx_cache().estimated_transactions, 5000);
    cfg.storage.tx_cache.estimated_transactions = 1;
    assert_eq!(cfg.resolve_tx_cache().estimated_transactions, 100);
    assert_eq!(cfg.storage.tx_cache.estimated_transactions, 1);
    assert_eq!(cfg.resolve_db_settings(Some(3)).compact_threads, 3);
}

#[test]
fn rate_limiter_defaults_are_empty_and_flags_off() {
    let r = RateLimiterConfig::default();
    assert!(!r.http_flag());
    assert!(!r.rpc_flag());
}

#[test]
fn rate_limiter_defaults_carry_the_documented_rates() {
    let mut r = RateLimiterConfig::default();
    assert_eq!(f64::from_bits(r.p2p.sync_block_chain.bits), 3.0);
    assert_eq!(f64::from_bits(r.p2p.fetch_inv_data.bits), 3.0);
    assert_eq!(f64::from_bits(r.p2p.disconnect.bits), 1.0);
    assert_eq!(f64::from_bits(r.global_qps.bits), 50_000.0);
    assert_eq!(f64::from_bits(r.global_ip_qps.bits), 10_000.0);
    r.http.push(RateLimiterItem::default());
    assert!(r.http_flag());
    assert!(!r.rpc_flag());
    r.rpc.push(RateLimiterItem::default());
    assert!(r.rpc_flag());
}

fn as_f64(d: Double) -> f64 {
    d.mant as f64 * 2f64.powi(d.exp)
}

#[test]
fn binary64_bits_decode_to_their_numbers() {
    for x in [1.0, 3.0, 0.1, 50_000.0, 1e300, 1e-300, f64::MAX, f64::MIN_POSITIVE] {
        let d = Bits64 { bits: f64::to_bits(x) }.number().unwrap();
        assert_eq!(d.mant >> 52, 1);
        assert_eq!((d.mant as f64 / 2f64.powi(52)) * 2f64.powi(d.exp + 52), x);
    }
    assert_eq!(as_f64(Bits64 { bits: f64::to_bits(0.1) }.number().unwrap()), 0.1);
    let zero = Double { mant: 0, exp: 0 };
    assert_eq!(Bits64 { bits: f64::to_bits(0.0) }.number(), Some(zero));
    assert_eq!(Bits64 { bits: f64::to_bits(-0.0) }.number(), Some(zero));
    // The smallest subnormal is two to the minus 1074.
    let d = Bits64 { bits: 1 }.number().unwrap();
    assert_eq!((d.mant, d.exp), (1u64 << 52, -1126));
    assert_eq!(Bits64 { bits: f64::to_bits(-1.0) }.number(), None);
    assert_eq!(Bits64 { bits: f64::to_bits(f64::INFINITY) }.number(), None);
    assert_eq!(Bits64 { bits: f64::to_bits(f64::NAN) }.number(), None);
}

#[test]
fn local_witness_defaults_to_none_source() {
    let lw = LocalWitnessConfig::default();
    assert_eq!(lw.source(), LocalWitnessSource::Absent);
}

#[test]
fn local_witness_private_keys_win_over_keystores() {
    let lw = LocalWitnessConfig {
        private_keys: vec!["deadbeef".into()],
        keystores: vec!["/tmp/k.json".into()],
        ..Default::default()
    };
    match lw.source() {
        LocalWitnessSource::PrivateKeys(keys) => assert_eq!(keys.len(), 1),
        other => panic!("expected PrivateKeys, got {other:?}"),
    }
}

#[test]
fn local_witness_keystores_are_used_without_private_keys() {
    let lw = LocalWitnessConfig {
        keystores: vec!["/tmp/k.json".into()],
        ..Default::default()
    };
    match lw.source() {
        LocalWitnessSource::Keystores(files) => assert_eq!(files[0], "/tmp/k.json"),
        other => panic!("expected Keystores, got {other:?}"),
    }
}

#[test]
fn committee_defaults_match_java_tron() {
    let c = CommitteeConfig::default();
    assert_eq!(c.allow_creation_of_contracts, 0);
    assert_eq!(c.allow_tvm_cancun, 0);
    assert_eq!(c.pbft_expire_num, 20);
}

#[test]
fn committee_clamps_all_ranges() {
    let mut c = CommitteeConfig {
        unfreeze_delay_days: 1000,
        allow_delegate_optimization: 7,
        allow_dynamic_energy: -3,
        dynamic_energy_threshold: i64::MAX,
        dynamic_energy_increase_factor: 50_000,
        dynamic_energy_max_factor: i64::MAX,
        allow_new_reward: 5,
        memo_fee: i64::MAX,
        ..Default::default()
    };
    c.clamp();
    assert_eq!(c.unfreeze_delay_days, 365);
    assert_eq!(c.allow_delegate_optimization, 1);
    assert_eq!(c.allow_dynamic_energy, 0);
    assert_eq!(c.dynamic_energy_threshold, 100_000_000_000_000_000);
    assert_eq!(c.dynamic_energy_increase_factor, 10_000);
    assert_eq!(c.dynamic_energy_max_factor, 100_000);
    assert_eq!(c.allow_new_reward, 1);
    assert_eq!(c.memo_fee, 1_000_000_000);

    let once = format!("{c:?}");
    c.clamp();
    assert_eq!(format!("{c:?}"), once);
}

#[test]
fn committee_old_reward_opt_requires_prereq() {
    let mut c = CommitteeConfig {
        allow_old_reward_opt: 1,
        ..Default::default()
    };
    assert!(matches!(
        c.validate_old_reward_prereq(),
        Err(ConfigError::Committee(_))
    ));

    c.allow_new_reward = 1;
    assert!(c.validate_old_reward_prereq().is_ok());
    c.allow_new_reward = 0;
    c.allow_tvm_vote = 1;
    assert!(c.validate_old_reward_prereq().is_ok());
}

#[test]
fn node_config_resolve_committee_propagates_prereq_failure() {
    let mut cfg = NodeConfig::default();
    cfg.committee.allow_old_reward_opt = 1;
    assert!(matches!(
        cfg.resolve_committee(),
        Err(ConfigError::Committee(_))
    ));
}

#[test]
fn node_config_resolve_committee_clamps_a_copy() {
    let mut cfg = NodeConfig::default();
    cfg.committee.allow_dynamic_energy = 1;
    cfg.committee.dynamic_energy_max_factor = 75_000;
    cfg.committee.memo_fee = -1;
    let resolved = cfg.resolve_committee().expect("ok");
    assert_eq!(resolved.allow_dynamic_energy, 1);
    assert_eq!(resolved.dynamic_energy_max_factor, 75_000);
    assert_eq!(resolved.memo_fee, 0);
    assert_eq!(cfg.committee.memo_fee, -1);
}

#[test]
fn index_defaults_are_off_and_trc20_scope() {
    let cfg = NodeConfig::default();
    assert!(!cfg.index.enable);
    let caps = cfg.index.capture_set();
    assert!(caps.native && caps.trc20 && caps.internal);
    assert!(!caps.logs && !caps.callee_contract);
    let opts = cfg.index.engine_options();
    assert!(opts.head_first);
    assert!(!opts.follow_solidified);
    assert_eq!(opts.window_blocks, 1024);
    assert_eq!(opts.start_height, 0);
}

#[test]
fn index_capture_overrides_beat_the_scope_preset() {
    let mut index = IndexConfig {
        enable: true,
        scope: IndexScope::Native,
        capture_trc20: Some(true),
        ..Default::default()
    };
    index.backfill.order = IndexBackfillOrder::FloorFirst;
    index.backfill.start_height = 50000000;
    let caps = index.capture_set();
    assert!(caps.native, "preset");
    assert!(caps.trc20, "override beats preset");
    assert!(!caps.internal, "preset (native) leaves internal off");
    let opts = index.engine_options();
    assert!(!opts.head_first);
    assert_eq!(opts.start_height, 50_000_000);
}

#[test]
fn index_capture_state_deltas_is_off_by_default_and_outside_the_fingerprint() {
    let cfg = NodeConfig::default();
    assert!(!cfg.index.capture_state_deltas);
    let mut on = NodeConfig::default();
    on.index.capture_state_deltas = true;
    on.index.archive.enabled = true;
    assert_eq!(cfg.index.capture_set(), on.index.capture_set());
}

#[test]
fn index_commitment_is_off_by_default_and_outside_the_fingerprint() {
    let cfg = NodeConfig::default();
    assert!(!cfg.index.commitment.enabled);
    assert_eq!(cfg.index.commitment.confirmation_lag_blocks, 20);
    assert_eq!(cfg.index.commitment.max_lag_blocks, 256);
    let mut on = NodeConfig::default();
    on.index.commitment.enabled = true;
    on.index.commitment.confirmation_lag_blocks = 32;
    on.index.commitment.max_lag_blocks = 512;
    assert_eq!(cfg.index.capture_set(), on.index.capture_set());
}

#[test]
fn index_firehose_defaults_off_with_32g_retention() {
    let cfg = NodeConfig::default();
    assert!(!cfg.index.firehose.enable);
    assert_eq!(cfg.index.firehose.retain_mb, 32 * 1024);
}

#[test]
fn index_solidified_stream_and_fingerprint_stability() {
    let mut cfg = NodeConfig::default();
    cfg.index.stream = IndexStream::Solidified;
    assert!(cfg.index.engine_options().follow_solidified);
    let a = cfg.index.capture_set();
    let b = cfg.index.capture_set();
    assert_eq!(a, b);
    let mut cfg2 = NodeConfig::default();
    cfg2.index.capture_callee_contract = true;
    assert_ne!(a, cfg2.index.capture_set());
}

#[test]
fn empty_sections_have_their_own_defaults() {
    let w = WitnessConfig::of_empty_section();
    assert_eq!(w.max_txs_per_block, 1000);
    assert!(w.key_hex.is_none());
    let b = BundlerConfig::of_empty_section();
    assert!(!b.enable);
    assert_eq!(b.fee_limit_sun, 1_000_000_000);
    assert_eq!(b.bundling_mode, "auto");
    assert_eq!(b.bundle_interval_ms, 2_000);
    assert_eq!(b.max_bundle_size, 50);
    assert!(b.enforce_validation_rules);
}

#[test]
fn default_node_config_pins_the_load_bearing_values() {
    let cfg = NodeConfig::default();
    assert_eq!(cfg.storage.max_open_files, 1024);
    assert_eq!(cfg.storage.write_buffer_size_mb, 64);
    assert_eq!(cfg.storage.snapshot_horizon, 64);
    assert_eq!(cfg.rpc.port, 8546);
    assert_eq!(cfg.rpc.eth_call_gas_cap, 50_000_000);
    assert_eq!(cfg.http.port, 8091);
    assert_eq!(cfg.grpc.port, 50052);
    assert_eq!(cfg.metrics.port, 9091);
    assert_eq!(cfg.p2p.advertise_port, 18889);
    assert_eq!(cfg.p2p.max_peers, 60);
    assert!(cfg.p2p.listen);
    assert_eq!(cfg.p2p.listen_host, "0.0.0.0");
    assert!(cfg.p2p.discover_enable);
    assert_eq!(cfg.p2p.sync_fetch_inflight_per_peer, 64);
    assert!(!cfg.index.commitment.enabled);
    assert!(cfg.witness.is_none());
    assert!(cfg.event.is_none());
    assert_eq!(cfg.node_backup.port, 10001);
    assert!(cfg.node_backup.members.is_empty());
    assert!(!EventSubscribeConfig::default().enable);
}

#[test]
fn archive_and_commitment_imply_state_deltas() {
    let mut index = IndexConfig::default();
    assert!(!index.captures_state_deltas());
    index.archive.enabled = true;
    assert!(index.captures_state_deltas());
    index.archive.enabled = false;
    index.commitment.enabled = true;
    assert!(index.captures_state_deltas());
    index.commitment.enabled = false;
    index.capture_state_deltas = true;
    assert!(index.captures_state_deltas());
}
