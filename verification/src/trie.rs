//! The mutable view of the shard's persistent state that a chunk
//! application works on: the delayed-receipt queue, the per-destination
//! outgoing buffers, and their metadata. The caller owns it and commits it
//! wholesale after the chunk, or discards it on error.

use vstd::prelude::*;

use crate::metadata::OutgoingMetadatas;
use crate::queues::{DelayedReceiptQueue, ShardsOutgoingReceiptBuffer};

verus! {

/// Pending state of the shard's receipt queues for one chunk application.
#[derive(Debug, Clone, PartialEq, Eq)]
pub struct TrieUpdate {
    pub delayed_receipts: DelayedReceiptQueue,
    pub outgoing_buffers: ShardsOutgoingReceiptBuffer,
    pub outgoing_metadatas: OutgoingMetadatas,
}

impl TrieUpdate {
    /// Every shard keyed at most once in the buffers and the metadata.
    pub open spec fn wf(&self) -> bool {
        self.outgoing_buffers.wf() && self.outgoing_metadatas.wf()
    }
}

} // verus!
