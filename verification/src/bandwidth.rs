//! Bandwidth requests derived from the outgoing buffers.
//!
//! Per destination with a non-empty outgoing buffer the sink requests the
//! bandwidth it would need to send the buffered receipts: one requested
//! value per receipt group, the cumulative buffered size up to that group,
//! capped at the per-shard bandwidth limit. When the metadata does not yet
//! describe the whole buffer, a basic request of one maximal receipt keeps
//! the destination live.

use vstd::prelude::*;

use crate::types::ShardId;

verus! {

/// Parameters the bandwidth scheduler computed for this chunk.
#[derive(Debug, Clone, Copy, PartialEq, Eq, Structural)]
pub struct BandwidthSchedulerParams {
    /// Most bandwidth a shard can be granted toward one destination.
    pub max_shard_bandwidth: u64,
    /// Upper bound on the size of a single receipt.
    pub max_receipt_size: u64,
}

/// The scheduler's output handed to the sink when the feature is on.
#[derive(Debug, Clone, Copy, PartialEq, Eq, Structural)]
pub struct BandwidthSchedulerOutput {
    pub params: BandwidthSchedulerParams,
}

/// One destination's bandwidth request.
#[derive(Debug, Clone, PartialEq, Eq)]
pub struct BandwidthRequest {
    pub to_shard: ShardId,
    /// Bandwidth grants the destination may choose from, one per receipt
    /// group, each the cumulative buffered size up to that group.
    pub requested_values: Vec<u64>,
}

/// The bandwidth requests of one chunk.
#[derive(Debug, Clone, PartialEq, Eq)]
pub struct BandwidthRequestsV1 {
    pub requests: Vec<BandwidthRequest>,
}

/// Versioned container of the chunk's bandwidth requests.
#[derive(Debug, Clone, PartialEq, Eq)]
pub enum BandwidthRequests {
    V1(BandwidthRequestsV1),
}

/// Sum of `sizes`, as a mathematical integer.
pub open spec fn sum_sizes(sizes: Seq<u64>) -> int
    decreases sizes.len(),
{
    if sizes.len() == 0 {
        0
    } else {
        sum_sizes(sizes.drop_last()) + sizes.last()
    }
}

pub proof fn lemma_sum_sizes_nonneg(sizes: Seq<u64>)
    ensures
        sum_sizes(sizes) >= 0,
    decreases sizes.len(),
{
    if sizes.len() > 0 {
        lemma_sum_sizes_nonneg(sizes.drop_last());
    }
}

/// The value requested for group `i`: the cumulative size of the buffered
/// receipts up to and including that group, capped at the per-shard limit.
pub open spec fn spec_requested_value(sizes: Seq<u64>, i: int, cap: u64) -> int {
    if sum_sizes(sizes.take(i + 1)) <= cap {
        sum_sizes(sizes.take(i + 1))
    } else {
        cap as int
    }
}

/// The values of the basic request: a single maximal receipt.
pub open spec fn spec_basic_request_values(params: BandwidthSchedulerParams) -> Seq<u64> {
    seq![params.max_receipt_size]
}

impl BandwidthRequest {
    /// The basic request emitted while the metadata does not yet describe
    /// the whole buffer: one maximal receipt is enough for liveness, since
    /// no receipt exceeds `max_receipt_size`.
    pub fn make_max_receipt_size_request(
        to_shard: ShardId,
        params: &BandwidthSchedulerParams,
    ) -> (r: BandwidthRequest)
        ensures
            r.to_shard == to_shard,
            r.requested_values@ == spec_basic_request_values(*params),
    {
        let mut requested_values: Vec<u64> = Vec::new();
        requested_values.push(params.max_receipt_size);
        proof {
            assert(requested_values@ =~= spec_basic_request_values(*params));
        }
        BandwidthRequest { to_shard, requested_values }
    }

    /// The proper request derived from the metadata's receipt-group sizes.
    pub fn make_from_receipt_sizes(
        to_shard: ShardId,
        group_sizes: &Vec<u64>,
        params: &BandwidthSchedulerParams,
    ) -> (r: BandwidthRequest)
        ensures
            r.to_shard == to_shard,
            r.requested_values@.len() == group_sizes@.len(),
            forall|i: int|
                0 <= i < group_sizes@.len() ==> #[trigger] r.requested_values@[i]
                    == spec_requested_value(group_sizes@, i, params.max_shard_bandwidth),
    {
        let cap = params.max_shard_bandwidth;
        let mut requested_values: Vec<u64> = Vec::new();
        let mut running: u64 = 0;
        let mut k: usize = 0;
        proof {
            assert(group_sizes@.take(0) =~= Seq::<u64>::empty());
        }
        while k < group_sizes.len()
            invariant
                k <= group_sizes@.len(),
                requested_values@.len() == k,
                forall|i: int|
                    0 <= i < k ==> #[trigger] requested_values@[i] == spec_requested_value(
                        group_sizes@,
                        i,
                        cap,
                    ),
                running == if sum_sizes(group_sizes@.take(k as int)) <= cap {
                    sum_sizes(group_sizes@.take(k as int))
                } else {
                    cap as int
                },
                cap == params.max_shard_bandwidth,
            decreases group_sizes@.len() - k,
        {
            proof {
                assert(group_sizes@.take(k + 1).drop_last() =~= group_sizes@.take(k as int));
                lemma_sum_sizes_nonneg(group_sizes@.take(k as int));
            }
            running = match running.checked_add(group_sizes[k]) {
                Some(s) => {
                    if s < cap {
                        s
                    } else {
                        cap
                    }
                },
                None => cap,
            };
            requested_values.push(running);
            k = k + 1;
        }
        BandwidthRequest { to_shard, requested_values }
    }
}

} // verus!
