use tron_node::abi_event_decoder::{
    decode_one_log, AbiOutcome, DecodedLog, DecodedParam, EventLogContext,
};
use tron_node::config::{EventSubscribeConfig, EventTopicConfig};
use tron_node::diag::multiplier_text;
use tron_node::dump_state::{
    snapshot, FeeSnapshot, HeadProperties, ProposalFacts, ResourceSnapshot, WitnessFacts,
};
use tron_node::head_probe::{delta_fits, head_report, HeadReadings};
use tron_node::chain::BlockId;
use tron_node::event_loader::{build_event_bus, EventLoaderError, EventPlan};

fn resources() -> ResourceSnapshot {
    ResourceSnapshot {
        total_net_weight: 0,
        total_net_limit: 43_200_000_000,
        public_net_usage: 0,
        public_net_limit: 0,
        total_energy_weight: 0,
        total_energy_limit: 0,
        total_energy_current_limit: 0,
        total_energy_average_usage: 0,
        block_energy_usage: 0,
        allow_adaptive_energy: 0,
        energy_fee: 0,
        transaction_fee: 0,
    }
}

fn fees() -> FeeSnapshot {
    FeeSnapshot { total_transaction_cost: 0, total_create_account_cost: 0, burn_trx_amount: 0 }
}

#[test]
fn empty_snapshot_has_all_defaults() {
    let head = HeadProperties {
        number: None,
        timestamp: None,
        hash: None,
        solidified: None,
        next_maintenance: None,
    };
    let snap = snapshot(&head, resources(), fees(), None, Some(&vec![]));
    assert_eq!(snap.head.latest_block_number, 0);
    assert_eq!(snap.head.latest_block_hash_hex, "");
    assert_eq!(snap.resources.total_net_weight, 0);
    assert_eq!(snap.resources.total_net_limit, 43_200_000_000);
    assert_eq!(snap.resources.allow_adaptive_energy, 0);
    assert_eq!(snap.witnesses.total_count, 0);
}

#[test]
fn snapshot_reflects_writes() {
    let head = HeadProperties {
        number: Some(12_345),
        timestamp: Some(1_700_000_000_000),
        hash: Some([0xab; 32]),
        solidified: Some(12_300),
        next_maintenance: Some(5),
    };
    let mut r = resources();
    r.total_net_weight = 7_777;
    r.total_energy_weight = 8_888;
    r.block_energy_usage = 999;
    let mut f = fees();
    f.burn_trx_amount = 12_345_678;
    let witness = WitnessFacts { vote_count: 0, total_produced: 1_000, active: false };
    let snap = snapshot(&head, r, f, None, Some(&vec![witness]));
    assert_eq!(snap.head.latest_block_number, 12_345);
    assert_eq!(snap.head.latest_block_timestamp, 1_700_000_000_000);
    assert_eq!(snap.head.latest_block_hash_hex, "ab".repeat(32));
    assert_eq!(snap.head.latest_solidified_block_num, 12_300);
    assert_eq!(snap.resources.total_net_weight, 7_777);
    assert_eq!(snap.resources.total_energy_weight, 8_888);
    assert_eq!(snap.resources.block_energy_usage, 999);
    assert_eq!(snap.fees.burn_trx_amount, 12_345_678);
    assert_eq!(snap.witnesses.total_count, 1);
    assert_eq!(snap.witnesses.total_produced_sum, 1_000);
}

#[test]
fn snapshots_sum_up_proposals_and_witnesses() {
    let head = HeadProperties {
        number: None,
        timestamp: None,
        hash: None,
        solidified: None,
        next_maintenance: None,
    };
    let proposals = vec![
        ProposalFacts { number: 3, pending: false },
        ProposalFacts { number: 8, pending: true },
        ProposalFacts { number: 9, pending: true },
    ];
    let w = |vote_count, total_produced, active| WitnessFacts { vote_count, total_produced, active };
    let witnesses = vec![w(5, 100, true), w(9, 40, true), w(9, 70, false)];
    let snap = snapshot(&head, resources(), fees(), Some(&proposals), Some(&witnesses));
    assert_eq!(snap.active_proposals, vec![8, 9]);
    assert_eq!(snap.witnesses.total_count, 3);
    assert_eq!(snap.witnesses.active_count, 2);
    assert_eq!(snap.witnesses.top_produced, 40);
    assert_eq!(snap.witnesses.total_produced_sum, 210);
    let snap = snapshot(&head, resources(), fees(), None, None);
    assert!(snap.active_proposals.is_empty());
    assert_eq!(snap.witnesses.top_produced, 0);
}

#[test]
fn head_reports_tell_skew() {
    let id = BlockId::from_raw([0xab; 32]);
    let top = |h: i64| Some(h.to_be_bytes().to_vec());
    let good = HeadReadings { indexed: Ok(id), body_fault: None, top_key: top(12) };
    assert!(delta_fits(10, &good));
    assert_eq!(
        head_report(10, Some([0xab; 32]), &good),
        "head pointer (properties): #10\n  block-index[#10] == head hash  ✓\n  head block present in block store          ✓\n  block-index max height: #12  (head says #10; delta 2)\n"
    );
    let other = BlockId::from_raw([0x01; 32]);
    let skew = HeadReadings {
        indexed: Ok(other),
        body_fault: Some("not found".to_string()),
        top_key: Some(vec![1, 2]),
    };
    assert_eq!(
        head_report(10, Some([0xab; 32]), &skew),
        "head pointer (properties): #10\n  ✗ SKEW: block-index[#10] = 0101010101010101 != head hash abababababababab\n  ✗ SKEW: head block absent from block store: not found\n"
    );
    let lost = HeadReadings { indexed: Err("io".to_string()), body_fault: None, top_key: None };
    assert!(head_report(7, Some([0; 32]), &lost)
        .contains("  ✗ SKEW: block-index[#7] unreadable: io\n"));
    assert_eq!(
        head_report(0, None, &lost),
        "head pointer (properties): #0\n  no head hash in properties\n"
    );
    let far = HeadReadings { indexed: Ok(id), body_fault: None, top_key: top(i64::MIN) };
    assert!(!delta_fits(1, &far));
}

fn enabled_cfg(path: &str) -> EventSubscribeConfig {
    EventSubscribeConfig {
        enable: true,
        path: path.into(),
        server: "127.0.0.1:9092".into(),
        ..Default::default()
    }
}

#[test]
fn none_cfg_yields_empty_bus() {
    assert!(matches!(build_event_bus(None), Ok(EventPlan::Empty)));
}

#[test]
fn disabled_cfg_yields_empty_bus() {
    let cfg = EventSubscribeConfig::default();
    assert!(matches!(build_event_bus(Some(&cfg)), Ok(EventPlan::Empty)));
}

#[test]
fn enabled_with_blank_path_errors() {
    let cfg = EventSubscribeConfig {
        enable: true,
        ..Default::default()
    };
    let err = build_event_bus(Some(&cfg)).unwrap_err();
    assert!(matches!(err, EventLoaderError::MissingPath));
}

#[test]
fn paths_without_a_file_name_are_refused() {
    let err = build_event_bus(Some(&enabled_cfg(".."))).unwrap_err();
    assert!(matches!(err, EventLoaderError::UnstemmablePath(_)));
}

#[test]
fn plugin_id_uses_path_file_stem() {
    match build_event_bus(Some(&enabled_cfg("/opt/tron/plugins/kafka.zip"))) {
        Ok(EventPlan::Load { plugin_id, .. }) => assert_eq!(plugin_id, "kafka"),
        _ => panic!("expected a plugin to load"),
    }
}

#[test]
fn topics_pass_through_intact() {
    let mut cfg = enabled_cfg("/opt/tron/plugins/echo.zip");
    cfg.contract_parse = true;
    cfg.use_native_queue = true;
    cfg.bind_port = 7777;
    cfg.topics = vec![EventTopicConfig {
        trigger_name: "block".into(),
        enable: true,
        topic: "blocks".into(),
        redundancy: true,
        eth_compatible: false,
        solidified: false,
    }];
    let Ok(EventPlan::Load { params: got, .. }) = build_event_bus(Some(&cfg)) else {
        panic!("expected a plugin to load")
    };
    assert_eq!(got.path, "/opt/tron/plugins/echo.zip");
    assert!(got.contract_parse);
    assert!(got.use_native_queue);
    assert_eq!(got.bind_port, 7777);
    assert_eq!(got.topics.len(), 1);
    assert_eq!(got.topics[0].trigger_name, "block");
    assert!(got.topics[0].redundancy);
}

fn padded_addr(byte: u8) -> [u8; 32] {
    let mut out = [0u8; 32];
    out[12..].fill(byte);
    out
}

fn param(name: &str, abi_type: &str, indexed: bool, value: &str) -> DecodedParam {
    DecodedParam {
        name: name.to_string(),
        abi_type: abi_type.to_string(),
        indexed,
        value: value.to_string(),
    }
}

fn transfer() -> AbiOutcome {
    AbiOutcome::Decoded {
        name: "Transfer".to_string(),
        params: vec![
            param("from", "address", true, "11"),
            param("to", "address", true, "22"),
            param("value", "uint256", false, "1000"),
        ],
    }
}

#[test]
fn empty_topics_fall_back_to_log_event() {
    let ctx = EventLogContext::default();
    let result = decode_one_log(&ctx, &[], &[1, 2, 3], &transfer());
    assert!(matches!(result, DecodedLog::Log(_)));
}

#[test]
fn missing_abi_falls_back_to_log_event() {
    let ctx = EventLogContext::default();
    let topics = vec![padded_addr(0xab)];
    let result = decode_one_log(&ctx, &topics, &[], &AbiOutcome::NoAbi);
    match result {
        DecodedLog::Log(l) => {
            assert_eq!(l.topic_list, vec![format!("{}{}", "00".repeat(12), "ab".repeat(20))]);
            assert_eq!(l.data, "");
        }
        DecodedLog::Event(_) => panic!("expected Log"),
    }
}

#[test]
fn matching_event_decodes_to_contract_event() {
    let topic0 = [0x77u8; 32];
    let topics = vec![topic0, padded_addr(0x11), padded_addr(0x22)];
    let ctx = EventLogContext {
        time_stamp: 1_700_000_000_000,
        block_number: 42,
        transaction_id_hex: "deadbeef".repeat(8),
        ..Default::default()
    };
    let result = decode_one_log(&ctx, &topics, &[0u8; 32], &transfer());
    match result {
        DecodedLog::Event(ev) => {
            assert_eq!(ev.event_name, "Transfer");
            assert_eq!(ev.event_signature, hex::encode(topic0));
            assert!(ev.event_signature_full.contains("address"));
            assert!(ev.event_signature_full.contains("uint256"));
            assert_eq!(ev.topic_map.len(), 2);
            assert!(ev.topic_map.get("from").is_some());
            assert!(ev.topic_map.get("to").is_some());
            assert_eq!(ev.data_map.len(), 1);
            assert_eq!(ev.data_map.get("value").unwrap(), "1000");
            assert_eq!(ev.context.block_number, 42);
        }
        DecodedLog::Log(_) => panic!("expected ContractEvent, got Log"),
    }
}

#[test]
fn unrelated_topic0_falls_back_to_log_event() {
    let topics = vec![[0xff; 32]];
    let result = decode_one_log(
        &EventLogContext::default(),
        &topics,
        &[],
        &AbiOutcome::Undecodable,
    );
    assert!(matches!(result, DecodedLog::Log(_)));
}

#[test]
fn malformed_data_falls_back_to_log_event() {
    let topics = vec![[0x77; 32], padded_addr(0x11), padded_addr(0x22)];
    let result = decode_one_log(
        &EventLogContext::default(),
        &topics,
        &[],
        &AbiOutcome::Undecodable,
    );
    assert!(matches!(result, DecodedLog::Log(_)));
}

#[test]
fn anonymous_event_falls_back_to_log_event() {
    let topics = vec![[0xaa; 32]];
    let result = decode_one_log(
        &EventLogContext::default(),
        &topics,
        &[],
        &AbiOutcome::Undecodable,
    );
    assert!(matches!(result, DecodedLog::Log(_)));
}

#[test]
fn nameless_parameters_are_numbered() {
    let abi = AbiOutcome::Decoded {
        name: "E".to_string(),
        params: vec![
            param("", "address", true, "11"),
            param("", "uint256", false, "7"),
        ],
    };
    match decode_one_log(&EventLogContext::default(), &[[1; 32]], &[], &abi) {
        DecodedLog::Event(ev) => {
            assert_eq!(ev.topic_map.get("arg0").unwrap(), "11");
            assert_eq!(ev.data_map.get("arg1").unwrap(), "7");
            assert_eq!(ev.event_signature_full, "address,uint256");
        }
        DecodedLog::Log(_) => panic!("expected ContractEvent, got Log"),
    }
}

#[test]
fn parameters_are_filed_by_name() {
    let abi = AbiOutcome::Decoded {
        name: "E".to_string(),
        params: vec![
            param("to", "address", true, "22"),
            param("b", "uint256", false, "2"),
            param("from", "address", true, "11"),
            param("ab", "uint256", false, "3"),
            param("a", "uint256", false, "1"),
            param("b", "uint256", false, "4"),
        ],
    };
    match decode_one_log(&EventLogContext::default(), &[[1; 32]], &[], &abi) {
        DecodedLog::Event(ev) => {
            let topics: Vec<&str> = ev.topic_map.entries.iter().map(|e| e.0.as_str()).collect();
            assert_eq!(topics, vec!["from", "to"]);
            let data: Vec<(&str, &str)> =
                ev.data_map.entries.iter().map(|e| (e.0.as_str(), e.1.as_str())).collect();
            assert_eq!(data, vec![("a", "1"), ("ab", "3"), ("b", "4")]);
        }
        DecodedLog::Log(_) => panic!("expected ContractEvent, got Log"),
    }
}

#[test]
fn event_loader_refusals_read_as_written() {
    assert_eq!(
        EventLoaderError::MissingPath.message(),
        "event.subscribe.path is required when event.subscribe.enable = true (got empty string)"
    );
    assert_eq!(
        EventLoaderError::UnstemmablePath("..".to_string()).message(),
        "event.subscribe.path \"..\" has no file stem (java-tron uses the file stem as the plugin id)"
    );
    assert_eq!(
        EventLoaderError::Plugin("unknown plugin".to_string()).message(),
        "plugin loader failed: unknown plugin"
    );
}

#[test]
fn energy_multipliers_have_four_decimals() {
    assert_eq!(multiplier_text(0), "1.0000");
    assert_eq!(multiplier_text(2_500), "1.2500");
    assert_eq!(multiplier_text(34_001), "4.4001");
    assert_eq!(multiplier_text(-10_001), "0.0000");
    assert_eq!(multiplier_text(-30_000), "-2.0000");
}
