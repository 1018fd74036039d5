//! Node configuration: the sections, their defaults, and the rules that bring
//! out-of-range values back into range.
//!
//! Settings that are fractions (time ratios, queries per second) take no part
//! in these rules and are carried in their 64-bit form.

use vstd::prelude::*;
use vstd::string::*;

use crate::binary64::Bits64;
use crate::text::{
    append_int, decimal_reads_back, eq_ignoring_case, int_decimal, parse_i64, quoted, quoted_text,
    same_ignoring_case, signed_decimal, trim, trimmed, within, ascii_lower, i64_refusal,
};

verus! {

/// Why a configuration is refused.
#[derive(Debug, Clone, PartialEq, Eq)]
pub enum ConfigError {
    /// A block bound of the event filter is neither a word nor a number.
    FilterQuery { field: &'static str, value: String, reason: String },
    /// A `vm` setting is out of range.
    VmConfig(String),
    /// A `committee` setting lacks its prerequisite.
    Committee(String),
}

impl ConfigError {
    /// The refusal in words.
    pub open spec fn text(&self) -> Seq<char> {
        match *self {
            ConfigError::FilterQuery { field, value, reason } => "event.subscribe.filter."@ + field@
                + ": cannot parse "@ + quoted_text(value@) + ": "@ + reason@,
            ConfigError::VmConfig(s) => "vm."@ + s@,
            ConfigError::Committee(s) => "committee."@ + s@,
        }
    }

    /// The refusal in words.
    pub fn message(&self) -> (r: String)
        ensures
            r@ == self.text(),
    {
        let mut out = String::new();
        match self {
            ConfigError::FilterQuery { field, value, reason } => {
                out.append("event.subscribe.filter.");
                out.append(*field);
                out.append(": cannot parse ");
                let q = quoted(value.as_str());
                out.append(q.as_str());
                out.append(": ");
                out.append(reason.as_str());
            },
            ConfigError::VmConfig(s) => {
                out.append("vm.");
                out.append(s.as_str());
            },
            ConfigError::Committee(s) => {
                out.append("committee.");
                out.append(s.as_str());
            },
        }
        assert(out@ =~= self.text());
        out
    }
}

/// `v` brought into `[lo, hi]`.
pub open spec fn clamped(v: int, lo: int, hi: int) -> int {
    if v < lo {
        lo
    } else if v > hi {
        hi
    } else {
        v
    }
}

// ---------------------------------------------------------------------------
// storage
// ---------------------------------------------------------------------------

/// The binary64 numbers of the defaults.
const ONE: u64 = 0x3ff0_0000_0000_0000;

const THREE: u64 = 0x4008_0000_0000_0000;

const FIVE: u64 = 0x4014_0000_0000_0000;

const TEN: u64 = 0x4024_0000_0000_0000;

const TEN_THOUSAND: u64 = 0x40c3_8800_0000_0000;

const FIFTY_THOUSAND: u64 = 0x40e8_6a00_0000_0000;

/// Store tuning.
#[derive(Debug, Clone, Copy, PartialEq, Eq, Structural)]
pub struct DbSettingsConfig {
    pub level_number: i32,
    /// `0` means "auto".
    pub compact_threads: i32,
    pub blocksize: i32,
    pub max_bytes_for_level_base: i64,
    pub max_bytes_for_level_multiplier: Bits64,
    pub level0_file_num_compaction_trigger: i32,
    pub target_file_size_base: i64,
    pub target_file_size_multiplier: i32,
    pub max_open_files: i32,
}

impl Default for DbSettingsConfig {
    fn default() -> (r: Self)
        ensures
            r.level_number == 7,
            r.compact_threads == 0,
            r.blocksize == 16,
            r.max_bytes_for_level_base == 256,
            r.max_bytes_for_level_multiplier.bits == 0x4024_0000_0000_0000,
            r.level0_file_num_compaction_trigger == 2,
            r.target_file_size_base == 64,
            r.target_file_size_multiplier == 1,
            r.max_open_files == 5000,
    {
        DbSettingsConfig {
            level_number: 7,
            compact_threads: 0,
            blocksize: 16,
            max_bytes_for_level_base: 256,
            max_bytes_for_level_multiplier: Bits64 { bits: TEN },
            level0_file_num_compaction_trigger: 2,
            target_file_size_base: 64,
            target_file_size_multiplier: 1,
            max_open_files: 5000,
        }
    }
}

impl DbSettingsConfig {
    /// A copy with an automatic thread count expanded to the host's, at least
    /// one. `cpus` is None where the host's count cannot be had.
    pub fn resolve(&self, cpus: Option<i32>) -> (r: Self)
        ensures
            r == (DbSettingsConfig {
                compact_threads: if self.compact_threads != 0 {
                    self.compact_threads
                } else if cpus is Some && cpus->0 > 1 {
                    cpus->0
                } else {
                    1
                },
                ..*self
            }),
    {
        let mut out = *self;
        if out.compact_threads == 0 {
            let n: i32 = match cpus {
                Some(n) => n,
                None => 1,
            };
            out.compact_threads = if n > 1 { n } else { 1 };
        }
        out
    }
}

/// Transaction-cache tuning.
#[derive(Debug, Clone, Copy, PartialEq, Eq, Structural)]
pub struct TxCacheConfig {
    /// Clamped to `[100, 10_000]`.
    pub estimated_transactions: i32,
    pub init_optimization: bool,
}

impl Default for TxCacheConfig {
    fn default() -> (r: Self)
        ensures
            r == (TxCacheConfig { estimated_transactions: 1000, init_optimization: false }),
    {
        TxCacheConfig { estimated_transactions: 1000, init_optimization: false }
    }
}

impl TxCacheConfig {
    pub const MIN_ESTIMATED_TXS: i32 = 100;

    pub const MAX_ESTIMATED_TXS: i32 = 10_000;

    /// The section with its estimate in range.
    pub open spec fn in_range(self) -> Self {
        TxCacheConfig {
            estimated_transactions: clamped(self.estimated_transactions as int, 100, 10_000) as i32,
            ..self
        }
    }

    /// Brings the estimate into range.
    pub fn clamp(&mut self)
        ensures
            *final(self) == old(self).in_range(),
    {
        if self.estimated_transactions > Self::MAX_ESTIMATED_TXS {
            self.estimated_transactions = Self::MAX_ESTIMATED_TXS;
        } else if self.estimated_transactions < Self::MIN_ESTIMATED_TXS {
            self.estimated_transactions = Self::MIN_ESTIMATED_TXS;
        }
    }
}

/// `[storage]`.
#[derive(Debug, Clone)]
pub struct StorageConfig {
    pub write_buffer_size_mb: usize,
    pub max_open_files: i32,
    pub compact_on_start: bool,
    pub db_settings: DbSettingsConfig,
    pub tx_cache: TxCacheConfig,
    pub snapshot_reorg: bool,
    pub snapshot_horizon: usize,
    pub block_cache_mb: usize,
}

impl Default for StorageConfig {
    fn default() -> (r: Self)
        ensures
            r.write_buffer_size_mb == 64,
            r.max_open_files == 1024,
            !r.compact_on_start,
            call_ensures(DbSettingsConfig::default, (), r.db_settings),
            call_ensures(TxCacheConfig::default, (), r.tx_cache),
            !r.snapshot_reorg,
            r.snapshot_horizon == 64,
            r.block_cache_mb == 1024,
    {
        StorageConfig {
            write_buffer_size_mb: 64,
            max_open_files: 1024,
            compact_on_start: false,
            db_settings: DbSettingsConfig::default(),
            tx_cache: TxCacheConfig::default(),
            snapshot_reorg: false,
            snapshot_horizon: 64,
            block_cache_mb: 1024,
        }
    }
}

// ---------------------------------------------------------------------------
// witness, bundler and the listening surfaces
// ---------------------------------------------------------------------------

/// `[witness]`: block production. One of the three key sources is set.
#[derive(Debug, Clone)]
pub struct WitnessConfig {
    pub key_hex: Option<String>,
    pub key_env: Option<String>,
    pub keystore: Option<String>,
    pub keystore_password_env: Option<String>,
    pub max_txs_per_block: usize,
}

impl Default for WitnessConfig {
    fn default() -> (r: Self)
        ensures
            r.key_hex is None,
            r.key_env is None,
            r.keystore is None,
            r.keystore_password_env is None,
            r.max_txs_per_block == 0,
    {
        WitnessConfig {
            key_hex: None,
            key_env: None,
            keystore: None,
            keystore_password_env: None,
            max_txs_per_block: 0,
        }
    }
}

impl WitnessConfig {
    /// What a section that is there but says nothing amounts to.
    pub fn of_empty_section() -> (r: Self)
        ensures
            r.key_hex is None,
            r.key_env is None,
            r.keystore is None,
            r.keystore_password_env is None,
            r.max_txs_per_block == 1000,
    {
        WitnessConfig {
            key_hex: None,
            key_env: None,
            keystore: None,
            keystore_password_env: None,
            max_txs_per_block: 1000,
        }
    }
}

/// `[bundler]`: the account-abstraction bundler, off unless enabled.
#[derive(Debug, Clone)]
pub struct BundlerConfig {
    pub enable: bool,
    pub entry_points: Vec<String>,
    pub key_hex: Option<String>,
    pub key_env: Option<String>,
    pub keystore: Option<String>,
    pub keystore_password_env: Option<String>,
    pub beneficiary: Option<String>,
    pub fee_limit_sun: i64,
    pub bundling_mode: String,
    pub bundle_interval_ms: u64,
    pub max_bundle_size: usize,
    pub enforce_validation_rules: bool,
}

impl Default for BundlerConfig {
    fn default() -> (r: Self)
        ensures
            !r.enable,
            r.entry_points@.len() == 0,
            r.key_hex is None,
            r.key_env is None,
            r.keystore is None,
            r.keystore_password_env is None,
            r.beneficiary is None,
            r.fee_limit_sun == 0,
            r.bundling_mode@.len() == 0,
            r.bundle_interval_ms == 0,
            r.max_bundle_size == 0,
            !r.enforce_validation_rules,
    {
        BundlerConfig {
            enable: false,
            entry_points: Vec::new(),
            key_hex: None,
            key_env: None,
            keystore: None,
            keystore_password_env: None,
            beneficiary: None,
            fee_limit_sun: 0,
            bundling_mode: String::new(),
            bundle_interval_ms: 0,
            max_bundle_size: 0,
            enforce_validation_rules: false,
        }
    }
}

impl BundlerConfig {
    /// What a section that is there but says nothing amounts to.
    pub fn of_empty_section() -> (r: Self)
        ensures
            !r.enable,
            r.entry_points@.len() == 0,
            r.key_hex is None,
            r.key_env is None,
            r.keystore is None,
            r.keystore_password_env is None,
            r.beneficiary is None,
            r.fee_limit_sun == 1_000_000_000,
            r.bundling_mode@ == "auto"@,
            r.bundle_interval_ms == 2_000,
            r.max_bundle_size == 50,
            r.enforce_validation_rules,
    {
        BundlerConfig {
            enable: false,
            entry_points: Vec::new(),
            key_hex: None,
            key_env: None,
            keystore: None,
            keystore_password_env: None,
            beneficiary: None,
            fee_limit_sun: 1_000_000_000,
            bundling_mode: "auto".to_owned(),
            bundle_interval_ms: 2_000,
            max_bundle_size: 50,
            enforce_validation_rules: true,
        }
    }
}

/// `[http]`: the REST surface.
#[derive(Debug, Clone)]
pub struct HttpRestConfig {
    pub host: String,
    pub port: u16,
    pub disabled: bool,
}

impl Default for HttpRestConfig {
    fn default() -> (r: Self)
        ensures
            r.host@ == "127.0.0.1"@,
            r.port == 8091,
            !r.disabled,
    {
        HttpRestConfig { host: "127.0.0.1".to_owned(), port: 8091, disabled: false }
    }
}

/// `[grpc]`: the gRPC surface.
#[derive(Debug, Clone)]
pub struct GrpcConfig {
    pub host: String,
    pub port: u16,
    pub disabled: bool,
}

impl Default for GrpcConfig {
    fn default() -> (r: Self)
        ensures
            r.host@ == "127.0.0.1"@,
            r.port == 50052,
            !r.disabled,
    {
        GrpcConfig { host: "127.0.0.1".to_owned(), port: 50052, disabled: false }
    }
}

/// `[metrics]`: the Prometheus endpoint.
#[derive(Debug, Clone)]
pub struct MetricsConfig {
    pub host: String,
    pub port: u16,
    pub disabled: bool,
}

impl Default for MetricsConfig {
    fn default() -> (r: Self)
        ensures
            r.host@ == "127.0.0.1"@,
            r.port == 9091,
            !r.disabled,
    {
        MetricsConfig { host: "127.0.0.1".to_owned(), port: 9091, disabled: false }
    }
}

/// The EIP-155 chain id of mainnet.
pub const MAINNET_CHAIN_ID: u64 = 728_126_428;

/// `[rpc]`: the JSON-RPC surface.
#[derive(Debug, Clone)]
pub struct RpcConfig {
    pub host: String,
    pub port: u16,
    pub disabled: bool,
    pub chain_id: u64,
    pub eth_call_gas_cap: u64,
}

impl Default for RpcConfig {
    fn default() -> (r: Self)
        ensures
            r.host@ == "127.0.0.1"@,
            r.port == 8546,
            !r.disabled,
            r.chain_id == MAINNET_CHAIN_ID,
            r.eth_call_gas_cap == 50_000_000,
    {
        RpcConfig {
            host: "127.0.0.1".to_owned(),
            port: 8546,
            disabled: false,
            chain_id: MAINNET_CHAIN_ID,
            eth_call_gas_cap: 50_000_000,
        }
    }
}

/// A head to pretend to be at: a block number and its id in hexadecimal.
#[derive(Debug, Clone)]
pub struct TipTestCheckpoint {
    pub block_num: i64,
    pub block_id_hex: String,
}

/// `[p2p]`: peers, discovery and fetch tuning.
#[derive(Debug, Clone)]
pub struct P2pConfig {
    pub peers: Vec<String>,
    pub max_blocks: Option<usize>,
    pub disabled: bool,
    pub use_mainnet_seeds: bool,
    pub progress_log_interval: usize,
    pub advertise_port: i32,
    pub max_peers: usize,
    pub listen: bool,
    pub listen_host: String,
    pub discover_enable: bool,
    pub discover_bootstrap_ms: u64,
    pub discover_tree_urls: Vec<String>,
    pub discover_tree_query_timeout_ms: u64,
    pub node_discovery_persist: bool,
    pub node_discovery_persist_interval_ms: u64,
    pub fetch_block_timeout_ms: u64,
    pub sync_fetch_inflight_per_peer: usize,
    pub fast_forward_nodes: Vec<String>,
    pub tip_test: Option<TipTestCheckpoint>,
    pub multi_peer_fetch: bool,
    pub follow_tip: bool,
    pub explore: bool,
    pub mempool: bool,
    pub mempool_json: Option<String>,
}

impl Default for P2pConfig {
    fn default() -> (r: Self)
        ensures
            r.peers@.len() == 0,
            r.max_blocks is None,
            !r.disabled,
            !r.use_mainnet_seeds,
            r.progress_log_interval == 100,
            r.advertise_port == 18_889,
            r.max_peers == 60,
            r.listen,
            r.listen_host@ == "0.0.0.0"@,
            r.discover_enable,
            r.discover_bootstrap_ms == 5_000,
            r.discover_tree_urls@.len() == 1,
            r.discover_tree_urls@[0]@
                == "tree://AKMQMNAJJBL73LXWPXDI4I5ZWWIZ4AWO34DWQ636QOBBXNFXH3LQS@main.trondisco.net"@,
            r.discover_tree_query_timeout_ms == 5_000,
            r.node_discovery_persist,
            r.node_discovery_persist_interval_ms == 60_000,
            r.fetch_block_timeout_ms == 200,
            r.sync_fetch_inflight_per_peer == 64,
            r.fast_forward_nodes@.len() == 0,
            r.tip_test is None,
            r.multi_peer_fetch,
            !r.follow_tip,
            !r.explore,
            !r.mempool,
            r.mempool_json is None,
    {
        let mut urls: Vec<String> = Vec::new();
        urls.push(
            "tree://AKMQMNAJJBL73LXWPXDI4I5ZWWIZ4AWO34DWQ636QOBBXNFXH3LQS@main.trondisco.net".to_owned(),
        );
        P2pConfig {
            peers: Vec::new(),
            max_blocks: None,
            disabled: false,
            use_mainnet_seeds: false,
            progress_log_interval: 100,
            advertise_port: 18_889,
            max_peers: 60,
            listen: true,
            listen_host: "0.0.0.0".to_owned(),
            discover_enable: true,
            discover_bootstrap_ms: 5_000,
            discover_tree_urls: urls,
            discover_tree_query_timeout_ms: 5_000,
            node_discovery_persist: true,
            node_discovery_persist_interval_ms: 60_000,
            fetch_block_timeout_ms: 200,
            sync_fetch_inflight_per_peer: 64,
            fast_forward_nodes: Vec::new(),
            tip_test: None,
            multi_peer_fetch: true,
            follow_tip: false,
            explore: false,
            mempool: false,
            mempool_json: None,
        }
    }
}

// ---------------------------------------------------------------------------
// event subscription
// ---------------------------------------------------------------------------

/// One row of the event topics.
#[derive(Debug, Clone)]
pub struct EventTopicConfig {
    pub trigger_name: String,
    pub enable: bool,
    pub topic: String,
    pub redundancy: bool,
    pub eth_compatible: bool,
    pub solidified: bool,
}

impl Default for EventTopicConfig {
    fn default() -> (r: Self)
        ensures
            r.trigger_name@.len() == 0,
            !r.enable,
            r.topic@.len() == 0,
            !r.redundancy,
            !r.eth_compatible,
            !r.solidified,
    {
        EventTopicConfig {
            trigger_name: String::new(),
            enable: false,
            topic: String::new(),
            redundancy: false,
            eth_compatible: false,
            solidified: false,
        }
    }
}

/// Block range and contract filter of the contract triggers.
#[derive(Debug, Clone)]
pub struct EventFilterConfig {
    pub from_block: String,
    pub to_block: String,
    pub contract_addresses: Vec<String>,
    pub contract_topics: Vec<String>,
}

impl Default for EventFilterConfig {
    fn default() -> (r: Self)
        ensures
            r.from_block@.len() == 0,
            r.to_block@.len() == 0,
            r.contract_addresses@.len() == 0,
            r.contract_topics@.len() == 0,
    {
        EventFilterConfig {
            from_block: String::new(),
            to_block: String::new(),
            contract_addresses: Vec::new(),
            contract_topics: Vec::new(),
        }
    }
}

/// `[event]`: the external event plugin.
#[derive(Debug, Clone)]
pub struct EventSubscribeConfig {
    pub enable: bool,
    pub path: String,
    pub server: String,
    pub db_config: String,
    pub start_sync_block_num: i64,
    pub use_native_queue: bool,
    pub bind_port: u16,
    pub send_queue_length: usize,
    pub topics: Vec<EventTopicConfig>,
    pub filter: EventFilterConfig,
    pub contract_parse: bool,
}

impl Default for EventSubscribeConfig {
    fn default() -> (r: Self)
        ensures
            !r.enable,
            r.path@.len() == 0,
            r.server@.len() == 0,
            r.db_config@.len() == 0,
            r.start_sync_block_num == 0,
            !r.use_native_queue,
            r.bind_port == 0,
            r.send_queue_length == 0,
            r.topics@.len() == 0,
            call_ensures(EventFilterConfig::default, (), r.filter),
            !r.contract_parse,
    {
        EventSubscribeConfig {
            enable: false,
            path: String::new(),
            server: String::new(),
            db_config: String::new(),
            start_sync_block_num: 0,
            use_native_queue: false,
            bind_port: 0,
            send_queue_length: 0,
            topics: Vec::new(),
            filter: EventFilterConfig::default(),
            contract_parse: false,
        }
    }
}

/// Resolved block range: `from_block` 0 is the earliest block, `to_block` -1
/// means no upper bound.
#[derive(Debug, Clone, Copy, PartialEq, Eq, Structural)]
pub struct FilterQuery {
    pub from_block: i64,
    pub to_block: i64,
}

/// The bound that `s` names: `sentinel` for the empty string or `word` in any
/// case, else the decimal number. None where it is neither.
pub open spec fn block_bound(s: Seq<char>, word: Seq<char>, sentinel: int) -> Option<int> {
    let t = trimmed(s);
    if t.len() == 0 || same_ignoring_case(t, word) {
        Some(sentinel)
    } else {
        within(signed_decimal(t), i64::MIN as int, i64::MAX as int)
    }
}

/// Every block number is read back from its decimal rendering, at either end
/// of the range.
pub proof fn block_bounds_read_back(n: i64)
    ensures
        block_bound(int_decimal(n as int), "earliest"@, 0) == Some(n as int),
        block_bound(int_decimal(n as int), "latest"@, -1) == Some(n as int),
{
    decimal_reads_back(n as int);
    let s = int_decimal(n as int);
    reveal_strlit("earliest");
    reveal_strlit("latest");
    let low = |c: char| ascii_lower(c);
    assert(s.map_values(low)[0] == ascii_lower(s[0]));
    assert("earliest"@.map_values(low)[0] == 'e');
    assert("latest"@.map_values(low)[0] == 'l');
}

fn resolve_bound(s: &str, word: &'static str, sentinel: i64, field: &'static str) -> (r: Result<
    i64,
    ConfigError,
>)
    ensures
        match block_bound(s@, word@, sentinel as int) {
            Some(v) => r == Ok::<i64, ConfigError>(v as i64) && i64::MIN <= v <= i64::MAX,
            None => r matches Err(ConfigError::FilterQuery { field: f, value, reason }) && f@
                == field@ && value@ == s@ && reason@ == i64_refusal(trimmed(s@)),
        },
{
    let t = trim(s);
    if t.unicode_len() == 0 || eq_ignoring_case(t, word) {
        return Ok(sentinel);
    }
    match parse_i64(t) {
        Ok(v) => Ok(v),
        Err(reason) => Err(ConfigError::FilterQuery { field, value: s.to_owned(), reason }),
    }
}

impl FilterQuery {
    pub const EARLIEST_BLOCK_NUM: i64 = 0;

    pub const LATEST_BLOCK_NUM: i64 = -1;

    /// `""` and `"earliest"` give 0; everything else is a decimal number.
    pub fn parse_from_block(s: &str) -> (r: Result<i64, ConfigError>)
        ensures
            match block_bound(s@, "earliest"@, 0) {
                Some(v) => r == Ok::<i64, ConfigError>(v as i64) && i64::MIN <= v <= i64::MAX,
                None => r matches Err(ConfigError::FilterQuery { field, value, reason }) && field@
                    == "from_block"@ && value@ == s@ && reason@ == i64_refusal(trimmed(s@)),
            },
    {
        resolve_bound(s, "earliest", Self::EARLIEST_BLOCK_NUM, "from_block")
    }

    /// `""` and `"latest"` give -1; everything else is a decimal number.
    pub fn parse_to_block(s: &str) -> (r: Result<i64, ConfigError>)
        ensures
            match block_bound(s@, "latest"@, -1) {
                Some(v) => r == Ok::<i64, ConfigError>(v as i64) && i64::MIN <= v <= i64::MAX,
                None => r matches Err(ConfigError::FilterQuery { field, value, reason }) && field@
                    == "to_block"@ && value@ == s@ && reason@ == i64_refusal(trimmed(s@)),
            },
    {
        resolve_bound(s, "latest", Self::LATEST_BLOCK_NUM, "to_block")
    }

    /// Resolves both ends of a filter's range, the lower end first.
    pub fn from_event_filter(cfg: &EventFilterConfig) -> (r: Result<Self, ConfigError>)
        ensures
            ({
                let lo = block_bound(cfg.from_block@, "earliest"@, 0);
                let hi = block_bound(cfg.to_block@, "latest"@, -1);
                match r {
                    Ok(q) => lo == Some(q.from_block as int) && hi == Some(q.to_block as int),
                    Err(ConfigError::FilterQuery { field, value, reason }) => if lo is None {
                        field@ == "from_block"@ && value@ == cfg.from_block@ && reason@
                            == i64_refusal(trimmed(value@))
                    } else {
                        hi is None && field@ == "to_block"@ && value@ == cfg.to_block@ && reason@
                            == i64_refusal(trimmed(value@))
                    },
                    Err(_) => false,
                }
            }),
    {
        match Self::parse_from_block(cfg.from_block.as_str()) {
            Ok(from_block) => match Self::parse_to_block(cfg.to_block.as_str()) {
                Ok(to_block) => Ok(FilterQuery { from_block, to_block }),
                Err(e) => Err(e),
            },
            Err(e) => Err(e),
        }
    }
}

// ---------------------------------------------------------------------------
// node backup
// ---------------------------------------------------------------------------

/// `[node_backup]`: the keepalive election.
#[derive(Debug, Clone)]
pub struct NodeBackupConfig {
    pub priority: i32,
    pub port: u16,
    pub keep_alive_interval: u64,
    pub members: Vec<String>,
}

impl Default for NodeBackupConfig {
    fn default() -> (r: Self)
        ensures
            r.priority == 0,
            r.port == 10001,
            r.keep_alive_interval == 3_000,
            r.members@.len() == 0,
    {
        NodeBackupConfig {
            priority: 0,
            port: 10001,
            keep_alive_interval: 3_000,
            members: Vec::new(),
        }
    }
}

// ---------------------------------------------------------------------------
// vm
// ---------------------------------------------------------------------------

/// `[vm]`: contract execution.
#[derive(Debug, Clone, Copy, PartialEq, Eq, Structural)]
pub struct VmConfig {
    pub support_constant: bool,
    pub max_energy_limit_for_constant: i64,
    pub lru_cache_size: i32,
    pub min_time_ratio: Bits64,
    pub max_time_ratio: Bits64,
    pub long_running_time: i32,
    pub estimate_energy: bool,
    pub estimate_energy_max_retry: i32,
    pub vm_trace: bool,
    pub save_internal_tx: bool,
    pub save_featured_internal_tx: bool,
    pub save_cancel_all_unfreeze_v2_details: bool,
    pub constant_call_timeout_ms: i64,
    pub parallel_exec: bool,
    pub pipelined_apply: bool,
}

impl Default for VmConfig {
    fn default() -> (r: Self)
        ensures
            r == (VmConfig {
                support_constant: false,
                max_energy_limit_for_constant: 100_000_000,
                lru_cache_size: 500,
                min_time_ratio: (Bits64 { bits: 0 }),
                max_time_ratio: (Bits64 { bits: 0x4014_0000_0000_0000 }),
                long_running_time: 10,
                estimate_energy: false,
                estimate_energy_max_retry: 3,
                vm_trace: false,
                save_internal_tx: false,
                save_featured_internal_tx: false,
                save_cancel_all_unfreeze_v2_details: false,
                constant_call_timeout_ms: 0,
                parallel_exec: true,
                pipelined_apply: true,
            }),
    {
        VmConfig {
            support_constant: false,
            max_energy_limit_for_constant: 100_000_000,
            lru_cache_size: 500,
            min_time_ratio: Bits64 { bits: 0 },
            max_time_ratio: Bits64 { bits: FIVE },
            long_running_time: 10,
            estimate_energy: false,
            estimate_energy_max_retry: 3,
            vm_trace: false,
            save_internal_tx: false,
            save_featured_internal_tx: false,
            save_cancel_all_unfreeze_v2_details: false,
            constant_call_timeout_ms: 0,
            parallel_exec: true,
            pipelined_apply: true,
        }
    }
}

impl VmConfig {
    pub const MIN_MAX_ENERGY_LIMIT_FOR_CONSTANT: i64 = 3_000_000;

    pub const MAX_ESTIMATE_RETRY: i32 = 10;

    /// The largest timeout that still converts to microseconds.
    pub const MAX_CONSTANT_CALL_TIMEOUT_MS: i64 = 9_223_372_036_854_775;

    /// The section with its energy ceiling and retry count in range.
    pub open spec fn in_range(self) -> Self {
        VmConfig {
            max_energy_limit_for_constant: if self.max_energy_limit_for_constant < 3_000_000 {
                3_000_000
            } else {
                self.max_energy_limit_for_constant
            },
            estimate_energy_max_retry: clamped(self.estimate_energy_max_retry as int, 0, 10) as i32,
            ..self
        }
    }

    /// Brings the energy ceiling and the retry count into range.
    pub fn clamp(&mut self)
        ensures
            *final(self) == old(self).in_range(),
    {
        if self.max_energy_limit_for_constant < Self::MIN_MAX_ENERGY_LIMIT_FOR_CONSTANT {
            self.max_energy_limit_for_constant = Self::MIN_MAX_ENERGY_LIMIT_FOR_CONSTANT;
        }
        if self.estimate_energy_max_retry < 0 {
            self.estimate_energy_max_retry = 0;
        }
        if self.estimate_energy_max_retry > Self::MAX_ESTIMATE_RETRY {
            self.estimate_energy_max_retry = Self::MAX_ESTIMATE_RETRY;
        }
    }

    /// What is wrong with the constant-call timeout, if anything.
    pub open spec fn timeout_fault(self) -> Option<Seq<char>> {
        let t = self.constant_call_timeout_ms as int;
        if t < 0 {
            Some(
                "vm.constantCallTimeoutMs must be > 0 when configured, got "@ + int_decimal(t),
            )
        } else if t > 9_223_372_036_854_775 {
            Some(
                "vm.constantCallTimeoutMs must be <= "@ + int_decimal(9_223_372_036_854_775)
                    + " to fit VM deadline conversion, got "@ + int_decimal(t),
            )
        } else {
            None
        }
    }

    /// The constant-call timeout is zero (unset) or a positive number of
    /// milliseconds that converts to microseconds.
    pub fn validate_constant_call_timeout(&self) -> (r: Result<(), ConfigError>)
        ensures
            match self.timeout_fault() {
                None => r is Ok,
                Some(text) => r matches Err(ConfigError::VmConfig(s)) && s@ == text,
            },
    {
        if self.constant_call_timeout_ms == 0 {
            return Ok(());
        }
        if self.constant_call_timeout_ms < 0 {
            let mut s = "vm.constantCallTimeoutMs must be > 0 when configured, got ".to_owned();
            append_int(&mut s, self.constant_call_timeout_ms);
            return Err(ConfigError::VmConfig(s));
        }
        if self.constant_call_timeout_ms > Self::MAX_CONSTANT_CALL_TIMEOUT_MS {
            let mut s = "vm.constantCallTimeoutMs must be <= ".to_owned();
            append_int(&mut s, Self::MAX_CONSTANT_CALL_TIMEOUT_MS);
            s.append(" to fit VM deadline conversion, got ");
            append_int(&mut s, self.constant_call_timeout_ms);
            return Err(ConfigError::VmConfig(s));
        }
        Ok(())
    }

    /// The warning owed where details are asked for but their prerequisites
    /// are off.
    pub fn cross_field_warnings(&self) -> (r: Option<&'static str>)
        ensures
            ({
                let inert = self.save_cancel_all_unfreeze_v2_details && !(self.save_internal_tx
                    && self.save_featured_internal_tx);
                match r {
                    Some(s) => inert && s@
                        == "Configuring [vm.saveCancelAllUnfreezeV2Details] won't work as vm.saveInternalTx or vm.saveFeaturedInternalTx is off."@,
                    None => !inert,
                }
            }),
    {
        if self.save_cancel_all_unfreeze_v2_details && (!self.save_internal_tx
            || !self.save_featured_internal_tx) {
            Some(
                "Configuring [vm.saveCancelAllUnfreezeV2Details] won't work as vm.saveInternalTx or vm.saveFeaturedInternalTx is off.",
            )
        } else {
            None
        }
    }
}

// ---------------------------------------------------------------------------
// rate limiter
// ---------------------------------------------------------------------------

/// One rate-limiter binding: a component, a strategy and its parameters.
#[derive(Debug, Clone)]
pub struct RateLimiterItem {
    pub component: String,
    pub strategy: String,
    pub params: String,
}

impl Default for RateLimiterItem {
    fn default() -> (r: Self)
        ensures
            r.component@.len() == 0,
            r.strategy@.len() == 0,
            r.params@.len() == 0,
    {
        RateLimiterItem {
            component: String::new(),
            strategy: String::new(),
            params: String::new(),
        }
    }
}

/// Messages per second that are taken from one peer, by kind.
#[derive(Debug, Clone, Copy, PartialEq, Eq, Structural)]
pub struct RateLimiterP2pConfig {
    pub sync_block_chain: Bits64,
    pub fetch_inv_data: Bits64,
    pub disconnect: Bits64,
}

impl Default for RateLimiterP2pConfig {
    fn default() -> (r: Self)
        ensures
            r.sync_block_chain.bits == 0x4008_0000_0000_0000,
            r.fetch_inv_data.bits == 0x4008_0000_0000_0000,
            r.disconnect.bits == 0x3ff0_0000_0000_0000,
    {
        RateLimiterP2pConfig {
            sync_block_chain: Bits64 { bits: THREE },
            fetch_inv_data: Bits64 { bits: THREE },
            disconnect: Bits64 { bits: ONE },
        }
    }
}

/// `[rate_limiter]`: the per-component bindings, the limits on peers, and the
/// ceilings over all requests. A ceiling of zero is none.
#[derive(Debug, Clone)]
pub struct RateLimiterConfig {
    pub http: Vec<RateLimiterItem>,
    pub rpc: Vec<RateLimiterItem>,
    pub p2p: RateLimiterP2pConfig,
    /// Requests per second.
    pub global_qps: Bits64,
    /// Requests per second of one address.
    pub global_ip_qps: Bits64,
}

impl Default for RateLimiterConfig {
    fn default() -> (r: Self)
        ensures
            r.http@.len() == 0,
            r.rpc@.len() == 0,
            call_ensures(RateLimiterP2pConfig::default, (), r.p2p),
            r.global_qps.bits == 0x40e8_6a00_0000_0000,
            r.global_ip_qps.bits == 0x40c3_8800_0000_0000,
    {
        RateLimiterConfig {
            http: Vec::new(),
            rpc: Vec::new(),
            p2p: RateLimiterP2pConfig::default(),
            global_qps: Bits64 { bits: FIFTY_THOUSAND },
            global_ip_qps: Bits64 { bits: TEN_THOUSAND },
        }
    }
}

impl RateLimiterConfig {
    /// Whether any HTTP component is bound.
    pub fn http_flag(&self) -> (r: bool)
        ensures
            r == (self.http@.len() > 0),
    {
        self.http.len() > 0
    }

    /// Whether any RPC component is bound.
    pub fn rpc_flag(&self) -> (r: bool)
        ensures
            r == (self.rpc@.len() > 0),
    {
        self.rpc.len() > 0
    }
}

// ---------------------------------------------------------------------------
// local witness
// ---------------------------------------------------------------------------

/// Local-witness key sources.
#[derive(Debug, Clone)]
pub struct LocalWitnessConfig {
    pub private_keys: Vec<String>,
    pub account_address: Option<String>,
    pub keystores: Vec<String>,
}

impl Default for LocalWitnessConfig {
    fn default() -> (r: Self)
        ensures
            r.private_keys@.len() == 0,
            r.account_address is None,
            r.keystores@.len() == 0,
    {
        LocalWitnessConfig {
            private_keys: Vec::new(),
            account_address: None,
            keystores: Vec::new(),
        }
    }
}

/// The key source in force.
#[derive(Debug, Clone, PartialEq, Eq)]
pub enum LocalWitnessSource<'a> {
    PrivateKeys(&'a [String]),
    Keystores(&'a [String]),
    Absent,
}

impl LocalWitnessConfig {
    /// The first non-empty source: private keys, then keystores.
    pub fn source(&self) -> (r: LocalWitnessSource<'_>)
        ensures
            match r {
                LocalWitnessSource::PrivateKeys(keys) => self.private_keys@.len() > 0 && keys@
                    == self.private_keys@,
                LocalWitnessSource::Keystores(files) => self.private_keys@.len() == 0
                    && self.keystores@.len() > 0 && files@ == self.keystores@,
                LocalWitnessSource::Absent => self.private_keys@.len() == 0 && self.keystores@.len()
                    == 0,
            },
    {
        if self.private_keys.len() > 0 {
            LocalWitnessSource::PrivateKeys(self.private_keys.as_slice())
        } else if self.keystores.len() > 0 {
            LocalWitnessSource::Keystores(self.keystores.as_slice())
        } else {
            LocalWitnessSource::Absent
        }
    }
}

// ---------------------------------------------------------------------------
// committee
// ---------------------------------------------------------------------------

/// `[committee]`: the bootstrap values of the governance flags.
#[derive(Debug, Clone, Copy, PartialEq, Eq, Structural)]
pub struct CommitteeConfig {
    pub allow_creation_of_contracts: i64,
    pub allow_multi_sign: i64,
    pub allow_adaptive_energy: i64,
    pub allow_delegate_resource: i64,
    pub allow_same_token_name: i64,
    pub allow_tvm_transfer_trc10: i64,
    pub allow_tvm_constantinople: i64,
    pub allow_tvm_solidity_059: i64,
    pub forbid_transfer_to_contract: i64,
    pub allow_shielded_trc20_transaction: i64,
    pub allow_market_transaction: i64,
    pub allow_transaction_fee_pool: i64,
    pub allow_black_hole_optimization: i64,
    pub allow_new_resource_model: i64,
    pub allow_tvm_istanbul: i64,
    pub allow_proto_filter_num: i64,
    pub allow_account_state_root: i64,
    pub changed_delegation: i64,
    pub allow_pbft: i64,
    pub pbft_expire_num: i64,
    pub allow_tvm_freeze: i64,
    pub allow_tvm_vote: i64,
    pub allow_tvm_london: i64,
    pub allow_tvm_compatible_evm: i64,
    pub allow_higher_limit_for_max_cpu_time_of_one_tx: i64,
    pub allow_new_reward_algorithm: i64,
    pub allow_optimized_return_value_of_chain_id: i64,
    pub allow_tvm_shanghai: i64,
    pub allow_old_reward_opt: i64,
    pub allow_energy_adjustment: i64,
    pub allow_strict_math: i64,
    pub consensus_logic_optimization: i64,
    pub allow_tvm_cancun: i64,
    pub allow_tvm_blob: i64,
    /// Clamped to `[0, 365]`.
    pub unfreeze_delay_days: i64,
    pub allow_receipts_merkle_root: i64,
    pub allow_account_asset_optimization: i64,
    pub allow_asset_optimization: i64,
    /// Clamped to `[0, 1]`.
    pub allow_new_reward: i64,
    /// Clamped to `[0, 1_000_000_000]`.
    pub memo_fee: i64,
    /// Clamped to `[0, 1]`.
    pub allow_delegate_optimization: i64,
    /// Clamped to `[0, 1]`.
    pub allow_dynamic_energy: i64,
    /// Clamped to `[0, 100_000_000_000_000_000]`.
    pub dynamic_energy_threshold: i64,
    /// Clamped to `[0, 10_000]`.
    pub dynamic_energy_increase_factor: i64,
    /// Clamped to `[0, 100_000]`.
    pub dynamic_energy_max_factor: i64,
}

impl CommitteeConfig {
    /// Every flag zero but for the PBFT expiry.
    pub open spec fn initial() -> Self {
        CommitteeConfig {
            allow_creation_of_contracts: 0,
            allow_multi_sign: 0,
            allow_adaptive_energy: 0,
            allow_delegate_resource: 0,
            allow_same_token_name: 0,
            allow_tvm_transfer_trc10: 0,
            allow_tvm_constantinople: 0,
            allow_tvm_solidity_059: 0,
            forbid_transfer_to_contract: 0,
            allow_shielded_trc20_transaction: 0,
            allow_market_transaction: 0,
            allow_transaction_fee_pool: 0,
            allow_black_hole_optimization: 0,
            allow_new_resource_model: 0,
            allow_tvm_istanbul: 0,
            allow_proto_filter_num: 0,
            allow_account_state_root: 0,
            changed_delegation: 0,
            allow_pbft: 0,
            pbft_expire_num: 20,
            allow_tvm_freeze: 0,
            allow_tvm_vote: 0,
            allow_tvm_london: 0,
            allow_tvm_compatible_evm: 0,
            allow_higher_limit_for_max_cpu_time_of_one_tx: 0,
            allow_new_reward_algorithm: 0,
            allow_optimized_return_value_of_chain_id: 0,
            allow_tvm_shanghai: 0,
            allow_old_reward_opt: 0,
            allow_energy_adjustment: 0,
            allow_strict_math: 0,
            consensus_logic_optimization: 0,
            allow_tvm_cancun: 0,
            allow_tvm_blob: 0,
            unfreeze_delay_days: 0,
            allow_receipts_merkle_root: 0,
            allow_account_asset_optimization: 0,
            allow_asset_optimization: 0,
            allow_new_reward: 0,
            memo_fee: 0,
            allow_delegate_optimization: 0,
            allow_dynamic_energy: 0,
            dynamic_energy_threshold: 0,
            dynamic_energy_increase_factor: 0,
            dynamic_energy_max_factor: 0,
        }
    }
}

impl Default for CommitteeConfig {
    fn default() -> (r: Self)
        ensures
            r == CommitteeConfig::initial(),
    {
        CommitteeConfig {
            allow_creation_of_contracts: 0,
            allow_multi_sign: 0,
            allow_adaptive_energy: 0,
            allow_delegate_resource: 0,
            allow_same_token_name: 0,
            allow_tvm_transfer_trc10: 0,
            allow_tvm_constantinople: 0,
            allow_tvm_solidity_059: 0,
            forbid_transfer_to_contract: 0,
            allow_shielded_trc20_transaction: 0,
            allow_market_transaction: 0,
            allow_transaction_fee_pool: 0,
            allow_black_hole_optimization: 0,
            allow_new_resource_model: 0,
            allow_tvm_istanbul: 0,
            allow_proto_filter_num: 0,
            allow_account_state_root: 0,
            changed_delegation: 0,
            allow_pbft: 0,
            pbft_expire_num: 20,
            allow_tvm_freeze: 0,
            allow_tvm_vote: 0,
            allow_tvm_london: 0,
            allow_tvm_compatible_evm: 0,
            allow_higher_limit_for_max_cpu_time_of_one_tx: 0,
            allow_new_reward_algorithm: 0,
            allow_optimized_return_value_of_chain_id: 0,
            allow_tvm_shanghai: 0,
            allow_old_reward_opt: 0,
            allow_energy_adjustment: 0,
            allow_strict_math: 0,
            consensus_logic_optimization: 0,
            allow_tvm_cancun: 0,
            allow_tvm_blob: 0,
            unfreeze_delay_days: 0,
            allow_receipts_merkle_root: 0,
            allow_account_asset_optimization: 0,
            allow_asset_optimization: 0,
            allow_new_reward: 0,
            memo_fee: 0,
            allow_delegate_optimization: 0,
            allow_dynamic_energy: 0,
            dynamic_energy_threshold: 0,
            dynamic_energy_increase_factor: 0,
            dynamic_energy_max_factor: 0,
        }
    }
}

impl CommitteeConfig {
    /// The section with every ranged value in range.
    pub open spec fn in_range(self) -> Self {
        CommitteeConfig {
            unfreeze_delay_days: clamped(self.unfreeze_delay_days as int, 0, 365) as i64,
            allow_delegate_optimization: clamped(
                self.allow_delegate_optimization as int,
                0,
                1,
            ) as i64,
            allow_dynamic_energy: clamped(self.allow_dynamic_energy as int, 0, 1) as i64,
            dynamic_energy_threshold: clamped(
                self.dynamic_energy_threshold as int,
                0,
                100_000_000_000_000_000,
            ) as i64,
            dynamic_energy_increase_factor: clamped(
                self.dynamic_energy_increase_factor as int,
                0,
                10_000,
            ) as i64,
            dynamic_energy_max_factor: clamped(
                self.dynamic_energy_max_factor as int,
                0,
                100_000,
            ) as i64,
            allow_new_reward: clamped(self.allow_new_reward as int, 0, 1) as i64,
            memo_fee: clamped(self.memo_fee as int, 0, 1_000_000_000) as i64,
            ..self
        }
    }

    /// Brings every ranged value into range.
    pub fn clamp(&mut self)
        ensures
            *final(self) == old(self).in_range(),
    {
        Self::clamp_range(&mut self.unfreeze_delay_days, 0, 365);
        Self::clamp_range(&mut self.allow_delegate_optimization, 0, 1);
        Self::clamp_range(&mut self.allow_dynamic_energy, 0, 1);
        Self::clamp_range(&mut self.dynamic_energy_threshold, 0, 100_000_000_000_000_000);
        Self::clamp_range(&mut self.dynamic_energy_increase_factor, 0, 10_000);
        Self::clamp_range(&mut self.dynamic_energy_max_factor, 0, 100_000);
        Self::clamp_range(&mut self.allow_new_reward, 0, 1);
        Self::clamp_range(&mut self.memo_fee, 0, 1_000_000_000);
    }

    /// Whether the old-reward optimisation is on without any of the three
    /// proposals it builds on.
    pub open spec fn lacks_reward_prereq(self) -> bool {
        self.allow_old_reward_opt == 1 && self.allow_new_reward_algorithm != 1
            && self.allow_new_reward != 1 && self.allow_tvm_vote != 1
    }

    /// The old-reward optimisation needs one of the three reward proposals.
    pub fn validate_old_reward_prereq(&self) -> (r: Result<(), ConfigError>)
        ensures
            if self.lacks_reward_prereq() {
                r matches Err(ConfigError::Committee(s)) && s@
                    == "At least one of the following proposals is required to be opened first: committee.allowNewRewardAlgorithm = 1 or committee.allowNewReward = 1 or committee.allowTvmVote = 1."@
            } else {
                r is Ok
            },
    {
        if self.allow_old_reward_opt == 1 && self.allow_new_reward_algorithm != 1
            && self.allow_new_reward != 1 && self.allow_tvm_vote != 1 {
            return Err(
                ConfigError::Committee(
                    "At least one of the following proposals is required to be opened first: committee.allowNewRewardAlgorithm = 1 or committee.allowNewReward = 1 or committee.allowTvmVote = 1.".to_owned(),
                ),
            );
        }
        Ok(())
    }

    fn clamp_range(value: &mut i64, min: i64, max: i64)
        requires
            min <= max,
        ensures
            *final(value) == clamped(*old(value) as int, min as int, max as int),
    {
        if *value < min {
            *value = min;
        }
        if *value > max {
            *value = max;
        }
    }
}

/// Clamping settles in one pass: a clamped section is unchanged by another
/// clamp.
pub proof fn clamping_is_idempotent(c: CommitteeConfig, v: VmConfig, t: TxCacheConfig)
    ensures
        c.in_range().in_range() == c.in_range(),
        v.in_range().in_range() == v.in_range(),
        t.in_range().in_range() == t.in_range(),
{
}

// ---------------------------------------------------------------------------
// index
// ---------------------------------------------------------------------------

/// Size and coverage preset of the index.
#[derive(Debug, Clone, Copy, PartialEq, Eq, Structural)]
pub enum IndexScope {
    /// Native transfers and accounts only.
    Native,
    /// Token transfers and internal transactions too.
    Trc20,
    /// All contract logs too.
    All,
}

impl Default for IndexScope {
    fn default() -> (r: Self)
        ensures
            r == IndexScope::Trc20,
    {
        IndexScope::Trc20
    }
}

/// Which stream the index follows.
#[derive(Debug, Clone, Copy, PartialEq, Eq, Structural)]
pub enum IndexStream {
    Head,
    Solidified,
}

impl Default for IndexStream {
    fn default() -> (r: Self)
        ensures
            r == IndexStream::Head,
    {
        IndexStream::Head
    }
}

/// In which direction history is filled in.
#[derive(Debug, Clone, Copy, PartialEq, Eq, Structural)]
pub enum IndexBackfillOrder {
    HeadFirst,
    FloorFirst,
}

impl Default for IndexBackfillOrder {
    fn default() -> (r: Self)
        ensures
            r == IndexBackfillOrder::HeadFirst,
    {
        IndexBackfillOrder::HeadFirst
    }
}

/// Retention strategy of the archive.
#[derive(Debug, Clone, Copy, PartialEq, Eq, Structural)]
pub enum ArchiveMode {
    Rolling,
    Full,
}

impl Default for ArchiveMode {
    fn default() -> (r: Self)
        ensures
            r == ArchiveMode::Rolling,
    {
        ArchiveMode::Rolling
    }
}

/// `[index.archive]`: the historical-state archive.
#[derive(Debug, Clone, Copy, PartialEq, Eq, Structural)]
pub struct ArchiveConfig {
    pub enabled: bool,
    pub mode: ArchiveMode,
    pub retain_blocks: u64,
}

impl Default for ArchiveConfig {
    fn default() -> (r: Self)
        ensures
            r == (ArchiveConfig {
                enabled: false,
                mode: ArchiveMode::Rolling,
                retain_blocks: 2_592_000,
            }),
    {
        ArchiveConfig { enabled: false, mode: ArchiveMode::Rolling, retain_blocks: 2_592_000 }
    }
}

/// `[index.commitment]`: the state-commitment layer.
#[derive(Debug, Clone, Copy, PartialEq, Eq, Structural)]
pub struct CommitmentConfig {
    pub enabled: bool,
    pub confirmation_lag_blocks: u64,
    pub max_lag_blocks: u64,
}

impl Default for CommitmentConfig {
    fn default() -> (r: Self)
        ensures
            r == (CommitmentConfig {
                enabled: false,
                confirmation_lag_blocks: 20,
                max_lag_blocks: 256,
            }),
    {
        CommitmentConfig { enabled: false, confirmation_lag_blocks: 20, max_lag_blocks: 256 }
    }
}

/// `[index.backfill]`: backfill tuning.
#[derive(Debug, Clone, Copy, PartialEq, Eq, Structural)]
pub struct IndexBackfillConfig {
    pub order: IndexBackfillOrder,
    pub window_blocks: usize,
    pub window_tx_budget: usize,
    pub fsync_barrier_windows: u32,
    pub start_height: i64,
}

impl Default for IndexBackfillConfig {
    fn default() -> (r: Self)
        ensures
            r == (IndexBackfillConfig {
                order: IndexBackfillOrder::HeadFirst,
                window_blocks: 1024,
                window_tx_budget: 20_000,
                fsync_barrier_windows: 16,
                start_height: 0,
            }),
    {
        IndexBackfillConfig {
            order: IndexBackfillOrder::default(),
            window_blocks: 1024,
            window_tx_budget: 20_000,
            fsync_barrier_windows: 16,
            start_height: 0,
        }
    }
}

/// `[index.firehose]`: the durable log for external sinks.
#[derive(Debug, Clone, Copy, PartialEq, Eq, Structural)]
pub struct IndexFirehoseConfig {
    pub enable: bool,
    pub retain_mb: u64,
}

impl Default for IndexFirehoseConfig {
    fn default() -> (r: Self)
        ensures
            r == (IndexFirehoseConfig { enable: false, retain_mb: 32_768 }),
    {
        IndexFirehoseConfig { enable: false, retain_mb: 32_768 }
    }
}

/// `[index]`: the address-history index.
#[derive(Debug, Clone, Copy, PartialEq, Eq)]
pub struct IndexConfig {
    pub enable: bool,
    pub scope: IndexScope,
    pub capture_native: Option<bool>,
    pub capture_trc20: Option<bool>,
    pub capture_trc721: Option<bool>,
    pub capture_internal: Option<bool>,
    pub capture_logs: Option<bool>,
    pub capture_callee_contract: bool,
    pub capture_state_deltas: bool,
    pub archive: ArchiveConfig,
    pub commitment: CommitmentConfig,
    pub stream: IndexStream,
    pub backfill: IndexBackfillConfig,
    pub firehose: IndexFirehoseConfig,
}

impl Default for IndexConfig {
    fn default() -> (r: Self)
        ensures
            !r.enable,
            r.scope == IndexScope::Trc20,
            r.capture_native is None,
            r.capture_trc20 is None,
            r.capture_trc721 is None,
            r.capture_internal is None,
            r.capture_logs is None,
            !r.capture_callee_contract,
            !r.capture_state_deltas,
            call_ensures(ArchiveConfig::default, (), r.archive),
            call_ensures(CommitmentConfig::default, (), r.commitment),
            r.stream == IndexStream::Head,
            call_ensures(IndexBackfillConfig::default, (), r.backfill),
            call_ensures(IndexFirehoseConfig::default, (), r.firehose),
    {
        IndexConfig {
            enable: false,
            scope: IndexScope::default(),
            capture_native: None,
            capture_trc20: None,
            capture_trc721: None,
            capture_internal: None,
            capture_logs: None,
            capture_callee_contract: false,
            capture_state_deltas: false,
            archive: ArchiveConfig::default(),
            commitment: CommitmentConfig::default(),
            stream: IndexStream::default(),
            backfill: IndexBackfillConfig::default(),
            firehose: IndexFirehoseConfig::default(),
        }
    }
}

/// Which kinds of rows the index records.
#[derive(Debug, Clone, Copy, PartialEq, Eq, Structural)]
pub struct CaptureSet {
    pub native: bool,
    pub trc20: bool,
    pub trc721: bool,
    pub internal: bool,
    pub logs: bool,
    pub callee_contract: bool,
}

/// The index engine's tuning, in range.
#[derive(Debug, Clone, Copy, PartialEq, Eq, Structural)]
pub struct EngineOptions {
    pub window_blocks: usize,
    pub window_tx_budget: usize,
    pub head_first: bool,
    pub start_height: i64,
    pub follow_solidified: bool,
    pub sync_every_windows: u32,
}

/// An explicit setting, or else the preset.
pub open spec fn explicit_or(setting: Option<bool>, preset: bool) -> bool {
    match setting {
        Some(b) => b,
        None => preset,
    }
}

fn pick(setting: Option<bool>, preset: bool) -> (r: bool)
    ensures
        r == explicit_or(setting, preset),
{
    match setting {
        Some(b) => b,
        None => preset,
    }
}

impl IndexConfig {
    /// The effective capture set: an explicit setting beats the preset. NFT
    /// transfers ride with token transfers in the presets.
    pub open spec fn captures(self) -> CaptureSet {
        let tokens = self.scope != IndexScope::Native;
        CaptureSet {
            native: explicit_or(self.capture_native, true),
            trc20: explicit_or(self.capture_trc20, tokens),
            trc721: explicit_or(self.capture_trc721, tokens),
            internal: explicit_or(self.capture_internal, tokens),
            logs: explicit_or(self.capture_logs, self.scope == IndexScope::All),
            callee_contract: self.capture_callee_contract,
        }
    }

    /// Whether applied blocks carry their state deltas: asked for itself, or
    /// implied by the archive or the commitment layer, each of which needs them.
    pub fn captures_state_deltas(&self) -> (r: bool)
        ensures
            r == (self.capture_state_deltas || self.archive.enabled || self.commitment.enabled),
    {
        self.capture_state_deltas || self.archive.enabled || self.commitment.enabled
    }

    /// Resolves the preset and the overrides into the effective capture set.
    pub fn capture_set(&self) -> (r: CaptureSet)
        ensures
            r == self.captures(),
    {
        let (native, trc20, internal, logs) = match self.scope {
            IndexScope::Native => (true, false, false, false),
            IndexScope::Trc20 => (true, true, true, false),
            IndexScope::All => (true, true, true, true),
        };
        CaptureSet {
            native: pick(self.capture_native, native),
            trc20: pick(self.capture_trc20, trc20),
            trc721: pick(self.capture_trc721, trc20),
            internal: pick(self.capture_internal, internal),
            logs: pick(self.capture_logs, logs),
            callee_contract: self.capture_callee_contract,
        }
    }

    /// Maps the backfill settings onto the engine's options.
    pub fn engine_options(&self) -> (r: EngineOptions)
        ensures
            r == (EngineOptions {
                window_blocks: clamped(self.backfill.window_blocks as int, 1, 65_536) as usize,
                window_tx_budget: clamped(
                    self.backfill.window_tx_budget as int,
                    64,
                    2_000_000,
                ) as usize,
                head_first: self.backfill.order == IndexBackfillOrder::HeadFirst,
                start_height: if self.backfill.start_height < 0 {
                    0
                } else {
                    self.backfill.start_height
                },
                follow_solidified: self.stream == IndexStream::Solidified,
                sync_every_windows: clamped(
                    self.backfill.fsync_barrier_windows as int,
                    1,
                    4096,
                ) as u32,
            }),
    {
        let b = self.backfill;
        EngineOptions {
            window_blocks: clamp_usize(b.window_blocks, 1, 65_536),
            window_tx_budget: clamp_usize(b.window_tx_budget, 64, 2_000_000),
            head_first: b.order == IndexBackfillOrder::HeadFirst,
            start_height: if b.start_height < 0 { 0 } else { b.start_height },
            follow_solidified: self.stream == IndexStream::Solidified,
            sync_every_windows: if b.fsync_barrier_windows < 1 {
                1
            } else if b.fsync_barrier_windows > 4096 {
                4096
            } else {
                b.fsync_barrier_windows
            },
        }
    }
}

fn clamp_usize(v: usize, lo: usize, hi: usize) -> (r: usize)
    requires
        lo <= hi,
    ensures
        r == clamped(v as int, lo as int, hi as int),
{
    if v < lo {
        lo
    } else if v > hi {
        hi
    } else {
        v
    }
}

/// What the index records does not depend on the archive or the commitment
/// layer: switching either leaves the capture set as it was.
pub proof fn archive_and_commitment_leave_the_capture_set_alone(
    c: IndexConfig,
    archive: ArchiveConfig,
    commitment: CommitmentConfig,
    deltas: bool,
)
    ensures
        (IndexConfig { archive, commitment, capture_state_deltas: deltas, ..c }).captures()
            == c.captures(),
{
}

// ---------------------------------------------------------------------------
// the whole
// ---------------------------------------------------------------------------

/// The node's configuration.
#[derive(Debug, Clone)]
pub struct NodeConfig {
    pub data_dir: String,
    pub rpc: RpcConfig,
    pub p2p: P2pConfig,
    pub metrics: MetricsConfig,
    pub grpc: GrpcConfig,
    pub http: HttpRestConfig,
    pub witness: Option<WitnessConfig>,
    pub bundler: Option<BundlerConfig>,
    pub open_history_query_when_lite_fn: bool,
    pub storage: StorageConfig,
    pub event: Option<EventSubscribeConfig>,
    pub node_backup: NodeBackupConfig,
    pub vm: VmConfig,
    pub rate_limiter: RateLimiterConfig,
    pub local_witness: LocalWitnessConfig,
    pub committee: CommitteeConfig,
    pub index: IndexConfig,
}

impl Default for NodeConfig {
    fn default() -> (r: Self)
        ensures
            r.data_dir@ == "./tron-data"@,
            call_ensures(RpcConfig::default, (), r.rpc),
            call_ensures(P2pConfig::default, (), r.p2p),
            call_ensures(MetricsConfig::default, (), r.metrics),
            call_ensures(GrpcConfig::default, (), r.grpc),
            call_ensures(HttpRestConfig::default, (), r.http),
            r.witness is None,
            r.bundler is None,
            !r.open_history_query_when_lite_fn,
            call_ensures(StorageConfig::default, (), r.storage),
            r.event is None,
            call_ensures(NodeBackupConfig::default, (), r.node_backup),
            call_ensures(VmConfig::default, (), r.vm),
            call_ensures(RateLimiterConfig::default, (), r.rate_limiter),
            call_ensures(LocalWitnessConfig::default, (), r.local_witness),
            call_ensures(CommitteeConfig::default, (), r.committee),
            call_ensures(IndexConfig::default, (), r.index),
    {
        NodeConfig {
            data_dir: "./tron-data".to_owned(),
            rpc: RpcConfig::default(),
            p2p: P2pConfig::default(),
            metrics: MetricsConfig::default(),
            grpc: GrpcConfig::default(),
            http: HttpRestConfig::default(),
            witness: None,
            bundler: None,
            open_history_query_when_lite_fn: false,
            storage: StorageConfig::default(),
            event: None,
            node_backup: NodeBackupConfig::default(),
            vm: VmConfig::default(),
            rate_limiter: RateLimiterConfig::default(),
            local_witness: LocalWitnessConfig::default(),
            committee: CommitteeConfig::default(),
            index: IndexConfig::default(),
        }
    }
}

impl NodeConfig {
    /// The `vm` section in range and with its timeout checked. The
    /// configuration itself stays as it was read.
    pub fn resolve_vm(&self) -> (r: Result<VmConfig, ConfigError>)
        ensures
            match self.vm.timeout_fault() {
                None => r == Ok::<VmConfig, ConfigError>(self.vm.in_range()),
                Some(text) => r matches Err(ConfigError::VmConfig(s)) && s@ == text,
            },
    {
        let mut out = self.vm;
        out.clamp();
        match out.validate_constant_call_timeout() {
            Ok(_) => Ok(out),
            Err(e) => Err(e),
        }
    }

    /// The transaction-cache section in range.
    pub fn resolve_tx_cache(&self) -> (r: TxCacheConfig)
        ensures
            r == self.storage.tx_cache.in_range(),
    {
        let mut out = self.storage.tx_cache;
        out.clamp();
        out
    }

    /// The store tuning with its thread count resolved.
    pub fn resolve_db_settings(&self, cpus: Option<i32>) -> (r: DbSettingsConfig)
        ensures
            call_ensures(DbSettingsConfig::resolve, (&self.storage.db_settings, cpus), r),
    {
        self.storage.db_settings.resolve(cpus)
    }

    /// The committee section in range and with its prerequisite checked.
    pub fn resolve_committee(&self) -> (r: Result<CommitteeConfig, ConfigError>)
        ensures
            if self.committee.in_range().lacks_reward_prereq() {
                r matches Err(ConfigError::Committee(s)) && s@
                    == "At least one of the following proposals is required to be opened first: committee.allowNewRewardAlgorithm = 1 or committee.allowNewReward = 1 or committee.allowTvmVote = 1."@
            } else {
                r == Ok::<CommitteeConfig, ConfigError>(self.committee.in_range())
            },
    {
        let mut out = self.committee;
        out.clamp();
        match out.validate_old_reward_prereq() {
            Ok(_) => Ok(out),
            Err(e) => Err(e),
        }
    }
}

/// A committee setting outside its range is moved to the nearer end of it, one
/// inside is kept, and a setting without a range is left alone.
pub proof fn committee_settings_are_held_to_their_ranges(c: CommitteeConfig)
    ensures
        0 <= c.unfreeze_delay_days <= 365 ==> c.in_range().unfreeze_delay_days == c.unfreeze_delay_days,
        c.unfreeze_delay_days < 0 ==> c.in_range().unfreeze_delay_days == 0,
        c.unfreeze_delay_days > 365 ==> c.in_range().unfreeze_delay_days == 365,
        0 <= c.allow_delegate_optimization <= 1 ==> c.in_range().allow_delegate_optimization == c.allow_delegate_optimization,
        c.allow_delegate_optimization < 0 ==> c.in_range().allow_delegate_optimization == 0,
        c.allow_delegate_optimization > 1 ==> c.in_range().allow_delegate_optimization == 1,
        0 <= c.allow_dynamic_energy <= 1 ==> c.in_range().allow_dynamic_energy == c.allow_dynamic_energy,
        c.allow_dynamic_energy < 0 ==> c.in_range().allow_dynamic_energy == 0,
        c.allow_dynamic_energy > 1 ==> c.in_range().allow_dynamic_energy == 1,
        0 <= c.dynamic_energy_threshold <= 100_000_000_000_000_000 ==> c.in_range().dynamic_energy_threshold == c.dynamic_energy_threshold,
        c.dynamic_energy_threshold < 0 ==> c.in_range().dynamic_energy_threshold == 0,
        c.dynamic_energy_threshold > 100_000_000_000_000_000 ==> c.in_range().dynamic_energy_threshold == 100_000_000_000_000_000,
        0 <= c.dynamic_energy_increase_factor <= 10_000 ==> c.in_range().dynamic_energy_increase_factor == c.dynamic_energy_increase_factor,
        c.dynamic_energy_increase_factor < 0 ==> c.in_range().dynamic_energy_increase_factor == 0,
        c.dynamic_energy_increase_factor > 10_000 ==> c.in_range().dynamic_energy_increase_factor == 10_000,
        0 <= c.dynamic_energy_max_factor <= 100_000 ==> c.in_range().dynamic_energy_max_factor == c.dynamic_energy_max_factor,
        c.dynamic_energy_max_factor < 0 ==> c.in_range().dynamic_energy_max_factor == 0,
        c.dynamic_energy_max_factor > 100_000 ==> c.in_range().dynamic_energy_max_factor == 100_000,
        0 <= c.allow_new_reward <= 1 ==> c.in_range().allow_new_reward == c.allow_new_reward,
        c.allow_new_reward < 0 ==> c.in_range().allow_new_reward == 0,
        c.allow_new_reward > 1 ==> c.in_range().allow_new_reward == 1,
        0 <= c.memo_fee <= 1_000_000_000 ==> c.in_range().memo_fee == c.memo_fee,
        c.memo_fee < 0 ==> c.in_range().memo_fee == 0,
        c.memo_fee > 1_000_000_000 ==> c.in_range().memo_fee == 1_000_000_000,
        c.in_range().allow_creation_of_contracts == c.allow_creation_of_contracts,
        c.in_range().allow_multi_sign == c.allow_multi_sign,
        c.in_range().allow_adaptive_energy == c.allow_adaptive_energy,
        c.in_range().allow_delegate_resource == c.allow_delegate_resource,
        c.in_range().allow_same_token_name == c.allow_same_token_name,
        c.in_range().allow_pbft == c.allow_pbft,
        c.in_range().pbft_expire_num == c.pbft_expire_num,
        c.in_range().allow_new_reward_algorithm == c.allow_new_reward_algorithm,
        c.in_range().allow_tvm_vote == c.allow_tvm_vote,
        c.in_range().allow_old_reward_opt == c.allow_old_reward_opt,
        c.in_range().allow_tvm_freeze == c.allow_tvm_freeze,
        c.in_range().allow_tvm_london == c.allow_tvm_london,
        c.in_range().changed_delegation == c.changed_delegation,
{
}

/// A value is moved only as far as the nearer end of its range.
pub proof fn clamping_keeps_what_is_in_range(v: int, lo: int, hi: int)
    requires
        lo <= hi,
    ensures
        lo <= v <= hi ==> clamped(v, lo, hi) == v,
        v < lo ==> clamped(v, lo, hi) == lo,
        v > hi ==> clamped(v, lo, hi) == hi,
{
}

/// The machine's settings: constant calls get at least three million energy,
/// estimates are retried at most ten times, and a cache is made for between a
/// hundred and ten thousand transactions; all else stays.
pub proof fn machine_settings_are_held_to_their_ranges(v: VmConfig, t: TxCacheConfig)
    ensures
        v.max_energy_limit_for_constant >= 3_000_000 ==> v.in_range().max_energy_limit_for_constant
            == v.max_energy_limit_for_constant,
        v.max_energy_limit_for_constant < 3_000_000 ==> v.in_range().max_energy_limit_for_constant
            == 3_000_000,
        0 <= v.estimate_energy_max_retry <= 10 ==> v.in_range().estimate_energy_max_retry
            == v.estimate_energy_max_retry,
        v.estimate_energy_max_retry < 0 ==> v.in_range().estimate_energy_max_retry == 0,
        v.estimate_energy_max_retry > 10 ==> v.in_range().estimate_energy_max_retry == 10,
        v.in_range().constant_call_timeout_ms == v.constant_call_timeout_ms,
        v.in_range().support_constant == v.support_constant,
        v.in_range().estimate_energy == v.estimate_energy,
        v.in_range().lru_cache_size == v.lru_cache_size,
        v.in_range().long_running_time == v.long_running_time,
        v.in_range().parallel_exec == v.parallel_exec,
        v.in_range().pipelined_apply == v.pipelined_apply,
        100 <= t.estimated_transactions <= 10_000 ==> t.in_range().estimated_transactions
            == t.estimated_transactions,
        t.estimated_transactions < 100 ==> t.in_range().estimated_transactions == 100,
        t.estimated_transactions > 10_000 ==> t.in_range().estimated_transactions == 10_000,
        t.in_range().init_optimization == t.init_optimization,
{
}

/// A timeout is refused where it is negative or too long for the deadline, and
/// only there; zero leaves it unset.
pub proof fn timeouts_must_fit_the_deadline(v: VmConfig)
    ensures
        v.timeout_fault() is None <==> 0 <= v.constant_call_timeout_ms
            && v.constant_call_timeout_ms <= 9_223_372_036_854_775,
        v.constant_call_timeout_ms < 0 ==> v.timeout_fault() == Some(
            "vm.constantCallTimeoutMs must be > 0 when configured, got "@ + int_decimal(
                v.constant_call_timeout_ms as int,
            ),
        ),
{
}

/// The old rewards may be optimised only where one of the three proposals that
/// they rest on is open.
pub proof fn reward_optimisation_needs_a_proposal(c: CommitteeConfig)
    ensures
        c.allow_old_reward_opt != 1 ==> !c.lacks_reward_prereq(),
        c.allow_new_reward_algorithm == 1 ==> !c.lacks_reward_prereq(),
        c.allow_new_reward == 1 ==> !c.lacks_reward_prereq(),
        c.allow_tvm_vote == 1 ==> !c.lacks_reward_prereq(),
        c.allow_old_reward_opt == 1 && c.allow_new_reward_algorithm != 1 && c.allow_new_reward != 1
            && c.allow_tvm_vote != 1 ==> c.lacks_reward_prereq(),
{
}

/// A bound left out, or given by its word in whatever case, is the sentinel;
/// any other text is a number within the machine's range or refused.
pub proof fn bounds_are_words_or_numbers(s: Seq<char>, word: Seq<char>, sentinel: int)
    ensures
        trimmed(s).len() == 0 ==> block_bound(s, word, sentinel) == Some(sentinel),
        same_ignoring_case(trimmed(s), word) ==> block_bound(s, word, sentinel) == Some(sentinel),
        trimmed(s).len() > 0 && !same_ignoring_case(trimmed(s), word) && signed_decimal(trimmed(s))
            is None ==> block_bound(s, word, sentinel) is None,
        trimmed(s).len() > 0 && !same_ignoring_case(trimmed(s), word) && signed_decimal(trimmed(s))
            is Some ==> {
            let n = signed_decimal(trimmed(s))->Some_0;
            &&& i64::MIN <= n <= i64::MAX ==> block_bound(s, word, sentinel) == Some(n)
            &&& n < i64::MIN || n > i64::MAX ==> block_bound(s, word, sentinel) is None
        },
{
}

/// What is captured where nothing is set: native transfers always, tokens and
/// internal transfers except in the native scope, and logs only in the full
/// one. A setting of its own overrides the scope.
pub proof fn scopes_preset_the_captures(c: IndexConfig, on: bool)
    ensures
        c.capture_native is None ==> c.captures().native,
        c.capture_trc20 is None ==> (c.captures().trc20 <==> c.scope is Trc20 || c.scope is All),
        c.capture_trc721 is None ==> (c.captures().trc721 <==> c.scope is Trc20 || c.scope is All),
        c.capture_internal is None ==> (c.captures().internal <==> c.scope is Trc20 || c.scope
            is All),
        c.capture_logs is None ==> (c.captures().logs <==> c.scope is All),
        c.capture_native == Some(on) ==> c.captures().native == on,
        c.capture_trc20 == Some(on) ==> c.captures().trc20 == on,
        c.capture_trc721 == Some(on) ==> c.captures().trc721 == on,
        c.capture_internal == Some(on) ==> c.captures().internal == on,
        c.capture_logs == Some(on) ==> c.captures().logs == on,
        c.captures().callee_contract == c.capture_callee_contract,
{
}

/// The indexing engine's options are those of the section, each held to its
/// range.
pub proof fn engine_options_follow_the_section(c: IndexConfig, o: EngineOptions)
    requires
        call_ensures(IndexConfig::engine_options, (&c,), o),
    ensures
        1 <= o.window_blocks <= 65_536,
        1 <= c.backfill.window_blocks <= 65_536 ==> o.window_blocks == c.backfill.window_blocks,
        64 <= o.window_tx_budget <= 2_000_000,
        64 <= c.backfill.window_tx_budget <= 2_000_000 ==> o.window_tx_budget
            == c.backfill.window_tx_budget,
        1 <= o.sync_every_windows <= 4_096,
        1 <= c.backfill.fsync_barrier_windows <= 4_096 ==> o.sync_every_windows
            == c.backfill.fsync_barrier_windows,
        o.head_first <==> c.backfill.order is HeadFirst,
        o.follow_solidified <==> c.stream is Solidified,
        c.backfill.start_height >= 0 ==> o.start_height == c.backfill.start_height,
        c.backfill.start_height < 0 ==> o.start_height == 0,
{
}

/// State changes are captured where anything that needs them is on.
pub proof fn deltas_are_captured_on_demand(c: IndexConfig, r: bool)
    requires
        call_ensures(IndexConfig::captures_state_deltas, (&c,), r),
    ensures
        c.capture_state_deltas ==> r,
        c.archive.enabled ==> r,
        c.commitment.enabled ==> r,
        r ==> c.capture_state_deltas || c.archive.enabled || c.commitment.enabled,
{
}

/// Compaction threads that are not set follow the machine, and there is always
/// one; no other setting of the store changes.
pub proof fn threads_follow_the_machine(
    s: DbSettingsConfig,
    cpus: Option<i32>,
    r: DbSettingsConfig,
)
    requires
        call_ensures(DbSettingsConfig::resolve, (&s, cpus), r),
    ensures
        s.compact_threads != 0 ==> r == s,
        s.compact_threads == 0 && cpus is Some && cpus->Some_0 >= 1 ==> r.compact_threads
            == cpus->Some_0,
        s.compact_threads == 0 && (cpus is None || cpus->Some_0 < 1) ==> r.compact_threads == 1,
        r.level_number == s.level_number,
        r.blocksize == s.blocksize,
        r.max_open_files == s.max_open_files,
        r.target_file_size_base == s.target_file_size_base,
        r.max_bytes_for_level_base == s.max_bytes_for_level_base,
{
}

/// Private keys count before keystores, and without either there is no source.
pub proof fn private_keys_count_first(c: LocalWitnessConfig, r: LocalWitnessSource<'_>)
    requires
        call_ensures(LocalWitnessConfig::source, (&c,), r),
    ensures
        c.private_keys@.len() > 0 ==> r is PrivateKeys,
        c.private_keys@.len() == 0 && c.keystores@.len() > 0 ==> r is Keystores,
        c.private_keys@.len() == 0 && c.keystores@.len() == 0 ==> r is Absent,
{
}

/// The details of cancelled unfreezes need both kinds of internal transactions
/// to be saved; otherwise there is a warning.
pub proof fn details_need_internal_transactions(v: VmConfig, r: Option<&'static str>)
    requires
        call_ensures(VmConfig::cross_field_warnings, (&v,), r),
    ensures
        r is Some <==> v.save_cancel_all_unfreeze_v2_details && (!v.save_internal_tx
            || !v.save_featured_internal_tx),
{
}

/// The settings that a node runs with: refused where they cannot be, and
/// otherwise held to their ranges.
pub proof fn nodes_run_with_settings_in_range(
    c: NodeConfig,
    vm: Result<VmConfig, ConfigError>,
    committee: Result<CommitteeConfig, ConfigError>,
    cache: TxCacheConfig,
)
    requires
        call_ensures(NodeConfig::resolve_vm, (&c,), vm),
        call_ensures(NodeConfig::resolve_committee, (&c,), committee),
        call_ensures(NodeConfig::resolve_tx_cache, (&c,), cache),
    ensures
        vm is Ok <==> 0 <= c.vm.constant_call_timeout_ms && c.vm.constant_call_timeout_ms
            <= 9_223_372_036_854_775,
        vm is Ok ==> (vm->Ok_0).max_energy_limit_for_constant >= 3_000_000 && 0 <= (
        vm->Ok_0).estimate_energy_max_retry && (vm->Ok_0).estimate_energy_max_retry <= 10,
        committee is Ok ==> 0 <= (committee->Ok_0).memo_fee && (committee->Ok_0).memo_fee
            <= 1_000_000_000 && 0 <= (committee->Ok_0).unfreeze_delay_days && (
        committee->Ok_0).unfreeze_delay_days <= 365,
        c.committee.allow_old_reward_opt != 1 ==> committee is Ok,
        committee is Ok && c.committee.allow_old_reward_opt == 1 ==> (
        committee->Ok_0).allow_new_reward_algorithm == 1 || (committee->Ok_0).allow_new_reward == 1
            || (committee->Ok_0).allow_tvm_vote == 1,
        100 <= cache.estimated_transactions <= 10_000,
{
}

} // verus!
