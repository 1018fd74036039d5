//! The verified logic of a TRON full node: what the daemon decides and
//! computes between reading from a store, a socket or a clock and writing
//! back to one.

pub mod abi_event_decoder;
pub mod account_report;
pub mod address_set;
pub mod admin;
pub mod audit;
pub mod backup;
pub mod binary64;
pub mod bytes;
pub mod chain;
pub mod cli;
pub mod clock;
pub mod config;
pub mod diag;
pub mod diag_report;
pub mod dump_state;
pub mod durability;
pub mod event_loader;
pub mod explore;
pub mod fetch_block;
pub mod firehose;
pub mod head_probe;
pub mod inbound;
pub mod index_hook;
pub mod key_counts;
pub mod logfmt;
pub mod mempool_explore;
pub mod mempool_validator;
pub mod node_persist;
pub mod node_statistics;
pub mod order;
pub mod p2p_rate_limiter;
pub mod panel;
pub mod pbft_runtime;
pub mod peer_registry;
pub mod peer_state;
pub mod ref_block;
pub mod relay;
pub mod replay;
pub mod reports;
pub mod resilience;
pub mod table;
pub mod text;
