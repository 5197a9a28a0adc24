//! Cross-shard receipt sink with congestion control.
//!
//! When a shard executes a chunk, it produces receipts destined for other
//! shards. The sink decides, per receipt, whether to forward it immediately
//! as part of the chunk's outgoing receipts or to buffer it in a persistent
//! per-destination queue, driven by the destination's advertised congestion
//! state and per-shard gas/byte limits. The sink also maintains the shard's
//! own congestion metrics and emits per-destination bandwidth requests.

pub mod bandwidth;
pub mod bootstrap;
pub mod config;
pub mod congestion_info;
pub mod delayed;
pub mod errors;
pub mod laws;
pub mod metadata;
pub mod queues;
pub mod receipt;
pub mod sink;
pub mod trie;
pub mod types;

pub use errors::{IntegerOverflowError, RuntimeError, StorageError};
