//! The global laws of the sink, proved from the operation contracts.
//!
//! Each proof function here states a property that spans several
//! operations: that the congestion totals keep tracking the persisted
//! queues, that drains respect the buffers' FIFO order, and that the
//! forwarded weight toward a destination never exceeds its advertised
//! limit.

use vstd::prelude::*;

use crate::config::RuntimeConfig;
use crate::congestion_info::CongestionInfo;
use crate::queues::{
    buffer_push_relation, congestion_totals_match, lemma_buffer_entries_from_views,
    lemma_find_shard_props, lemma_sum_buffers_congruent, lemma_sum_buffers_gas_update_one,
    lemma_sum_buffers_size_update_one, lemma_sum_buffers_update_views,
    lemma_sum_stored_gas_take_skip, lemma_sum_stored_size_take_skip, spec_find_shard,
    sum_stored_gas, sum_stored_size, ShardsOutgoingReceiptBuffer,
};
use crate::receipt::{spec_inner_receipt, spec_stored_gas, spec_stored_size,
    ReceiptOrStateStoredReceipt};
use crate::sink::{spec_drain_state, spec_limit_for, ReceiptSinkV2};
use crate::trie::TrieUpdate;
use crate::types::{Gas, ShardId};

verus! {

/// Buffering a receipt keeps the congestion totals tracking the queues:
/// when the running totals matched the persisted queues before a receipt
/// of this weight entered `shard`'s buffer, they match afterwards.
pub proof fn lemma_buffer_preserves_totals(
    info0: CongestionInfo,
    info1: CongestionInfo,
    b0: ShardsOutgoingReceiptBuffer,
    b1: ShardsOutgoingReceiptBuffer,
    delayed: Seq<ReceiptOrStateStoredReceipt>,
    shard: ShardId,
    stored: ReceiptOrStateStoredReceipt,
    config: RuntimeConfig,
)
    requires
        buffer_push_relation(b0, b1, shard, stored),
        info1.receipt_bytes == info0.receipt_bytes + spec_stored_size(stored),
        info1.buffered_receipts_gas == info0.buffered_receipts_gas + spec_stored_gas(
            stored,
            config,
        ),
        info1.delayed_receipts_gas == info0.delayed_receipts_gas,
        congestion_totals_match(info0, delayed, b0.entries@, config),
    ensures
        congestion_totals_match(info1, delayed, b1.entries@, config),
{
    let e0 = b0.entries@;
    let e1 = b1.entries@;
    let f = spec_find_shard(e0, shard);
    lemma_find_shard_props(e0, shard);
    if f >= 0 {
        assert(e0[f].receipts@.push(stored).drop_last() =~= e0[f].receipts@);
        assert(e1[f].receipts@ == e0[f].receipts@.push(stored));
        assert(sum_stored_gas(e1[f].receipts@, config) == sum_stored_gas(e0[f].receipts@, config)
            + spec_stored_gas(stored, config));
        assert(sum_stored_size(e1[f].receipts@) == sum_stored_size(e0[f].receipts@)
            + spec_stored_size(stored));
        lemma_sum_buffers_gas_update_one(e0, e1, f, config);
        lemma_sum_buffers_size_update_one(e0, e1, f);
    } else {
        assert(e1.drop_last() =~= e0);
        assert(e1.len() == e0.len() + 1);
        assert(e1.last().receipts@ == seq![stored]);
        assert(seq![stored].drop_last() =~= Seq::<ReceiptOrStateStoredReceipt>::empty());
        reveal_with_fuel(sum_stored_gas, 2);
        reveal_with_fuel(sum_stored_size, 2);
        assert(sum_stored_gas(seq![stored], config) == spec_stored_gas(stored, config));
        assert(sum_stored_size(seq![stored]) == spec_stored_size(stored));
        assert(crate::queues::sum_buffers_gas(e1, config) == crate::queues::sum_buffers_gas(
            e1.drop_last(),
            config,
        ) + sum_stored_gas(e1.last().receipts@, config));
        assert(crate::queues::sum_buffers_size(e1) == crate::queues::sum_buffers_size(
            e1.drop_last(),
        ) + sum_stored_size(e1.last().receipts@));
    }
}

/// Draining a buffer keeps the congestion totals tracking the queues: when
/// the running totals matched the persisted queues before a drain of
/// `shard`'s buffer, they match afterwards.
pub proof fn lemma_drain_preserves_totals(
    s0: ReceiptSinkV2,
    t0: TrieUpdate,
    s1: ReceiptSinkV2,
    t1: TrieUpdate,
    shard: ShardId,
    config: RuntimeConfig,
    k: int,
)
    requires
        t0.outgoing_buffers.wf(),
        spec_drain_state(s0, t0, s1, t1, shard, config, k),
        congestion_totals_match(
            s0.own_congestion_info,
            t0.delayed_receipts@,
            t0.outgoing_buffers.entries@,
            config,
        ),
    ensures
        congestion_totals_match(
            s1.own_congestion_info,
            t1.delayed_receipts@,
            t1.outgoing_buffers.entries@,
            config,
        ),
{
    let e0 = t0.outgoing_buffers.entries@;
    let e1 = t1.outgoing_buffers.entries@;
    let buf0 = t0.outgoing_buffers.buffer_view(shard);
    lemma_buffer_entries_from_views(t0.outgoing_buffers, t1.outgoing_buffers, shard);
    let f = spec_find_shard(e0, shard);
    lemma_find_shard_props(e0, shard);
    if f < 0 {
        assert(k == 0);
        assert(buf0.take(0) =~= Seq::<ReceiptOrStateStoredReceipt>::empty());
        lemma_sum_buffers_congruent(e0, e1, config);
    } else {
        assert(e0[f].receipts@ == buf0);
        assert forall|t: int| 0 <= t < e0.len() && t != f implies #[trigger] e0[t].receipts@
            == e1[t].receipts@ by {
            assert(e0[t].shard != shard);
        }
        lemma_sum_buffers_update_views(e0, e1, f, config);
        assert(e1[f].receipts@ == buf0.skip(k));
        lemma_sum_stored_gas_take_skip(buf0, k, config);
        lemma_sum_stored_size_take_skip(buf0, k);
    }
}

/// FIFO law for drains: the receipt forwarded at position `i` of a drain
/// is the `i`-th oldest receipt of the buffer, so receipts leave every
/// buffer in exactly the order they entered it, and what remains is the
/// untouched tail.
pub proof fn lemma_drain_respects_fifo(
    s0: ReceiptSinkV2,
    t0: TrieUpdate,
    s1: ReceiptSinkV2,
    t1: TrieUpdate,
    shard: ShardId,
    config: RuntimeConfig,
    k: int,
    i: int,
)
    requires
        spec_drain_state(s0, t0, s1, t1, shard, config, k),
        0 <= i < k,
    ensures
        s1.outgoing_receipts@[s0.outgoing_receipts@.len() + i] == spec_inner_receipt(
            t0.outgoing_buffers.buffer_view(shard)[i],
        ),
        t1.outgoing_buffers.buffer_view(shard) == t0.outgoing_buffers.buffer_view(shard).skip(k),
{
    let buf0 = t0.outgoing_buffers.buffer_view(shard);
    assert(buf0.take(k)[i] == buf0[i]);
    assert(s1.outgoing_receipts@[s0.outgoing_receipts@.len() + i] == buf0.take(k).map_values(
        |st: ReceiptOrStateStoredReceipt| spec_inner_receipt(st),
    )[i]);
}

/// A chain of forwards within a limit: each receipt's weight strictly fits
/// what remains, and is deducted.
pub open spec fn spec_forward_chain(weights: Seq<(Gas, u64)>, gas_limit: Gas, size_limit: u64) -> bool
    decreases weights.len(),
{
    if weights.len() == 0 {
        true
    } else {
        gas_limit > weights[0].0 && size_limit > weights[0].1 && spec_forward_chain(
            weights.drop_first(),
            (gas_limit - weights[0].0) as Gas,
            (size_limit - weights[0].1) as u64,
        )
    }
}

/// Total gas of a forward chain.
pub open spec fn sum_chain_gas(weights: Seq<(Gas, u64)>) -> int
    decreases weights.len(),
{
    if weights.len() == 0 {
        0
    } else {
        weights[0].0 + sum_chain_gas(weights.drop_first())
    }
}

/// Total size of a forward chain.
pub open spec fn sum_chain_size(weights: Seq<(Gas, u64)>) -> int
    decreases weights.len(),
{
    if weights.len() == 0 {
        0
    } else {
        weights[0].1 + sum_chain_size(weights.drop_first())
    }
}

/// Per-destination limit law: whatever is forwarded toward a destination
/// in one chunk passes the strict fit check against the running limit, so
/// the total forwarded gas and size never exceed the advertised limit.
pub proof fn lemma_forward_chain_bounded(weights: Seq<(Gas, u64)>, gas_limit: Gas, size_limit: u64)
    requires
        spec_forward_chain(weights, gas_limit, size_limit),
    ensures
        sum_chain_gas(weights) <= gas_limit,
        sum_chain_size(weights) <= size_limit,
    decreases weights.len(),
{
    if weights.len() > 0 {
        lemma_forward_chain_bounded(
            weights.drop_first(),
            (gas_limit - weights[0].0) as Gas,
            (size_limit - weights[0].1) as u64,
        );
    }
}

/// The drain form of the limit law: a drain's forwarded receipts weigh at
/// most the destination's limit as it stood when the chunk began.
pub proof fn lemma_drain_within_limit(
    s0: ReceiptSinkV2,
    t0: TrieUpdate,
    s1: ReceiptSinkV2,
    t1: TrieUpdate,
    shard: ShardId,
    config: RuntimeConfig,
    k: int,
)
    requires
        spec_drain_state(s0, t0, s1, t1, shard, config, k),
    ensures
        sum_stored_gas(t0.outgoing_buffers.buffer_view(shard).take(k), config) <= spec_limit_for(
            s0.outgoing_limit,
            shard,
            config,
        ).gas,
        sum_stored_size(t0.outgoing_buffers.buffer_view(shard).take(k)) <= spec_limit_for(
            s0.outgoing_limit,
            shard,
            config,
        ).size,
{
}

/// Conservation of receipts: every receipt offered to the congestion-aware
/// sink ends up forwarded or buffered, never both and never lost — the
/// count of forwarded plus buffered receipts toward the destination grows
/// by exactly one, and every other destination's buffer is untouched.
pub proof fn lemma_forward_or_buffer_conserves_receipts(
    s0: ReceiptSinkV2,
    s1: ReceiptSinkV2,
    t0: TrieUpdate,
    t1: TrieUpdate,
    receipt: crate::receipt::Receipt,
    shard: ShardId,
    apply_state: crate::sink::ApplyState,
)
    requires
        crate::sink::forward_or_buffer_relation(
            s0,
            s1,
            t0,
            t1,
            receipt,
            shard,
            apply_state,
            Ok(()),
        ),
    ensures
        s1.outgoing_receipts@.len() + t1.outgoing_buffers.buffer_view(shard).len()
            == s0.outgoing_receipts@.len() + t0.outgoing_buffers.buffer_view(shard).len() + 1,
        forall|other: ShardId|
            other != shard ==> #[trigger] t1.outgoing_buffers.buffer_view(other)
                == t0.outgoing_buffers.buffer_view(other),
{
}

/// Applying the delayed-queue deltas closes the books: when the totals
/// matched the queues at the start of the chunk, the wrapper's counters
/// tracked its queue, and the buffered total was kept current, the updated
/// info matches the queues as the chunk leaves them.
pub proof fn lemma_apply_changes_restores_totals(
    w: crate::delayed::DelayedReceiptQueueWrapper,
    info0: CongestionInfo,
    info1: CongestionInfo,
    buffers: Seq<crate::queues::ShardBufferEntry>,
    config: RuntimeConfig,
)
    requires
        w.delta_consistent(config),
        congestion_totals_match(info0, w.initial@, buffers, config),
        info1.delayed_receipts_gas == info0.delayed_receipts_gas + w.new_delayed_gas
            - w.removed_delayed_gas,
        info1.receipt_bytes == info0.receipt_bytes + w.new_delayed_bytes - w.removed_delayed_bytes,
        info1.buffered_receipts_gas == info0.buffered_receipts_gas,
    ensures
        congestion_totals_match(info1, w.queue@, buffers, config),
{
}

/// Buffering keeps every stored gas readable: a receipt enters a buffer
/// only after its congestion gas was computed without overflow, so when
/// every buffered receipt's gas could be re-read before, it still can.
/// Together with the drain law below, this sustains one premise of the
/// bootstrap round trip across a whole chunk.
pub proof fn lemma_buffering_keeps_readable(
    b0: ShardsOutgoingReceiptBuffer,
    b1: ShardsOutgoingReceiptBuffer,
    shard: ShardId,
    stored: ReceiptOrStateStoredReceipt,
    config: RuntimeConfig,
)
    requires
        buffer_push_relation(b0, b1, shard, stored),
        !crate::receipt::spec_stored_gas_overflows(stored, config),
        !crate::queues::buffers_have_gas_overflow(b0.entries@, config),
    ensures
        !crate::queues::buffers_have_gas_overflow(b1.entries@, config),
{
    let e0 = b0.entries@;
    let e1 = b1.entries@;
    let f = spec_find_shard(e0, shard);
    lemma_find_shard_props(e0, shard);
    if f >= 0 {
        crate::queues::lemma_buffers_overflow_row(e0, f, config);
        crate::queues::lemma_push_keeps_gas_readable(e0[f].receipts@, stored, config);
        crate::queues::lemma_buffers_overflow_update_views(e0, e1, f, config);
    } else {
        assert(e1.drop_last() =~= e0);
        assert(e1.last().receipts@ == seq![stored]);
        assert(seq![stored].drop_last() =~= Seq::<ReceiptOrStateStoredReceipt>::empty());
        reveal_with_fuel(crate::queues::has_gas_overflow, 2);
        assert(!crate::queues::has_gas_overflow(seq![stored], config));
    }
}

/// Draining keeps every stored gas readable: a drain only removes
/// receipts, so when every buffered receipt's gas could be re-read before,
/// it still can.
pub proof fn lemma_drain_keeps_readable(
    s0: ReceiptSinkV2,
    t0: TrieUpdate,
    s1: ReceiptSinkV2,
    t1: TrieUpdate,
    shard: ShardId,
    config: RuntimeConfig,
    k: int,
)
    requires
        t0.outgoing_buffers.wf(),
        spec_drain_state(s0, t0, s1, t1, shard, config, k),
        !crate::queues::buffers_have_gas_overflow(t0.outgoing_buffers.entries@, config),
    ensures
        !crate::queues::buffers_have_gas_overflow(t1.outgoing_buffers.entries@, config),
{
    let e0 = t0.outgoing_buffers.entries@;
    let e1 = t1.outgoing_buffers.entries@;
    let buf0 = t0.outgoing_buffers.buffer_view(shard);
    lemma_buffer_entries_from_views(t0.outgoing_buffers, t1.outgoing_buffers, shard);
    let f = spec_find_shard(e0, shard);
    lemma_find_shard_props(e0, shard);
    if f < 0 {
        assert(k == 0);
        crate::queues::lemma_buffers_overflow_congruent(e0, e1, config);
    } else {
        assert(e0[f].receipts@ == buf0);
        assert forall|t: int| 0 <= t < e0.len() && t != f implies #[trigger] e0[t].receipts@
            == e1[t].receipts@ by {
            assert(e0[t].shard != shard);
        }
        crate::queues::lemma_buffers_overflow_row(e0, f, config);
        crate::queues::lemma_skip_keeps_gas_readable(buf0, k, config);
        assert(e1[f].receipts@ == buf0.skip(k));
        crate::queues::lemma_buffers_overflow_update_views(e0, e1, f, config);
    }
}

/// Round trip: when the congestion totals match the persisted queues and
/// no stored gas overflows on re-reading, rebuilding the info from the
/// queues gives back exactly the published info.
pub proof fn lemma_bootstrap_round_trip(
    info: CongestionInfo,
    trie: TrieUpdate,
    config: RuntimeConfig,
)
    requires
        congestion_totals_match(
            info,
            trie.delayed_receipts@,
            trie.outgoing_buffers.entries@,
            config,
        ),
        !crate::queues::has_gas_overflow(trie.delayed_receipts@, config),
        !crate::queues::buffers_have_gas_overflow(trie.outgoing_buffers.entries@, config),
    ensures
        crate::bootstrap::spec_bootstrap_ok(trie, config),
        crate::bootstrap::spec_bootstrap_result(trie, config, info.allowed_shard) == info,
{
    crate::queues::lemma_sum_stored_gas_nonneg(trie.delayed_receipts@, config);
    crate::queues::lemma_sum_stored_size_nonneg(trie.delayed_receipts@);
    crate::queues::lemma_sum_buffers_gas_nonneg(trie.outgoing_buffers.entries@, config);
    crate::queues::lemma_sum_buffers_size_nonneg(trie.outgoing_buffers.entries@);
}

} // verus!
