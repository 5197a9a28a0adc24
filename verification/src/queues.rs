//! The persistent receipt queues: the delayed-receipt FIFO and the
//! per-destination outgoing buffers.
//!
//! Both are strict FIFOs: pushes only at the tail, pops only at the head.
//! The module also defines the gas and size sums over queue contents that
//! the congestion totals must track.

use vstd::prelude::*;

use crate::config::{
    lemma_sum_attached_gas_nonneg, lemma_sum_exec_fees_nonneg, lemma_sum_send_fees_nonneg,
    RuntimeConfig,
};
use crate::receipt::{spec_stored_gas, spec_stored_gas_overflows, spec_stored_size,
    ReceiptOrStateStoredReceipt};
use crate::types::ShardId;

verus! {

/// Sum of the congestion gas attributed to `s`, as a mathematical integer.
pub open spec fn sum_stored_gas(s: Seq<ReceiptOrStateStoredReceipt>, config: RuntimeConfig) -> int
    decreases s.len(),
{
    if s.len() == 0 {
        0
    } else {
        sum_stored_gas(s.drop_last(), config) + spec_stored_gas(s.last(), config)
    }
}

/// Sum of the congestion sizes attributed to `s`, as a mathematical integer.
pub open spec fn sum_stored_size(s: Seq<ReceiptOrStateStoredReceipt>) -> int
    decreases s.len(),
{
    if s.len() == 0 {
        0
    } else {
        sum_stored_size(s.drop_last()) + spec_stored_size(s.last())
    }
}

/// Whether reading the congestion gas of any receipt in `s` overflows.
pub open spec fn has_gas_overflow(s: Seq<ReceiptOrStateStoredReceipt>, config: RuntimeConfig) -> bool
    decreases s.len(),
{
    if s.len() == 0 {
        false
    } else {
        has_gas_overflow(s.drop_last(), config) || spec_stored_gas_overflows(s.last(), config)
    }
}

pub proof fn lemma_spec_stored_gas_nonneg(stored: ReceiptOrStateStoredReceipt, config: RuntimeConfig)
    ensures
        spec_stored_gas(stored, config) >= 0,
{
    match stored {
        ReceiptOrStateStoredReceipt::Receipt(receipt) => {
            match receipt.payload {
                crate::receipt::ReceiptEnum::Action(ar) => {
                    lemma_sum_exec_fees_nonneg(ar.actions@);
                    lemma_sum_send_fees_nonneg(ar.actions@);
                    lemma_sum_attached_gas_nonneg(ar.actions@);
                },
                _ => {},
            }
        },
        ReceiptOrStateStoredReceipt::StateStoredReceipt(_) => {},
    }
}

pub proof fn lemma_sum_stored_gas_nonneg(s: Seq<ReceiptOrStateStoredReceipt>, config: RuntimeConfig)
    ensures
        sum_stored_gas(s, config) >= 0,
    decreases s.len(),
{
    if s.len() > 0 {
        lemma_sum_stored_gas_nonneg(s.drop_last(), config);
        lemma_spec_stored_gas_nonneg(s.last(), config);
    }
}

pub proof fn lemma_sum_stored_size_nonneg(s: Seq<ReceiptOrStateStoredReceipt>)
    ensures
        sum_stored_size(s) >= 0,
    decreases s.len(),
{
    if s.len() > 0 {
        lemma_sum_stored_size_nonneg(s.drop_last());
    }
}

pub proof fn lemma_sum_stored_gas_concat(
    a: Seq<ReceiptOrStateStoredReceipt>,
    b: Seq<ReceiptOrStateStoredReceipt>,
    config: RuntimeConfig,
)
    ensures
        sum_stored_gas(a + b, config) == sum_stored_gas(a, config) + sum_stored_gas(b, config),
    decreases b.len(),
{
    if b.len() == 0 {
        assert(a + b =~= a);
    } else {
        assert((a + b).drop_last() =~= a + b.drop_last());
        lemma_sum_stored_gas_concat(a, b.drop_last(), config);
    }
}

pub proof fn lemma_sum_stored_size_concat(
    a: Seq<ReceiptOrStateStoredReceipt>,
    b: Seq<ReceiptOrStateStoredReceipt>,
)
    ensures
        sum_stored_size(a + b) == sum_stored_size(a) + sum_stored_size(b),
    decreases b.len(),
{
    if b.len() == 0 {
        assert(a + b =~= a);
    } else {
        assert((a + b).drop_last() =~= a + b.drop_last());
        lemma_sum_stored_size_concat(a, b.drop_last());
    }
}

/// A queue's sum splits at any position into the prefix and suffix sums.
pub proof fn lemma_sum_stored_gas_take_skip(
    s: Seq<ReceiptOrStateStoredReceipt>,
    n: int,
    config: RuntimeConfig,
)
    requires
        0 <= n <= s.len(),
    ensures
        sum_stored_gas(s, config) == sum_stored_gas(s.take(n), config) + sum_stored_gas(
            s.skip(n),
            config,
        ),
{
    assert(s =~= s.take(n) + s.skip(n));
    lemma_sum_stored_gas_concat(s.take(n), s.skip(n), config);
}

pub proof fn lemma_sum_stored_size_take_skip(s: Seq<ReceiptOrStateStoredReceipt>, n: int)
    requires
        0 <= n <= s.len(),
    ensures
        sum_stored_size(s) == sum_stored_size(s.take(n)) + sum_stored_size(s.skip(n)),
{
    assert(s =~= s.take(n) + s.skip(n));
    lemma_sum_stored_size_concat(s.take(n), s.skip(n));
}

pub proof fn lemma_sum_stored_gas_prefix(
    s: Seq<ReceiptOrStateStoredReceipt>,
    n: int,
    config: RuntimeConfig,
)
    requires
        0 <= n <= s.len(),
    ensures
        sum_stored_gas(s.take(n), config) <= sum_stored_gas(s, config),
{
    lemma_sum_stored_gas_take_skip(s, n, config);
    lemma_sum_stored_gas_nonneg(s.skip(n), config);
}

pub proof fn lemma_sum_stored_size_prefix(s: Seq<ReceiptOrStateStoredReceipt>, n: int)
    requires
        0 <= n <= s.len(),
    ensures
        sum_stored_size(s.take(n)) <= sum_stored_size(s),
{
    lemma_sum_stored_size_take_skip(s, n);
    lemma_sum_stored_size_nonneg(s.skip(n));
}

/// Readability splits over concatenation: a combined queue holds an
/// unreadable receipt exactly when one of its parts does.
pub proof fn lemma_has_gas_overflow_concat(
    a: Seq<ReceiptOrStateStoredReceipt>,
    b: Seq<ReceiptOrStateStoredReceipt>,
    config: RuntimeConfig,
)
    ensures
        has_gas_overflow(a + b, config) == (has_gas_overflow(a, config) || has_gas_overflow(
            b,
            config,
        )),
    decreases b.len(),
{
    if b.len() == 0 {
        assert(a + b =~= a);
    } else {
        assert((a + b).drop_last() =~= a + b.drop_last());
        lemma_has_gas_overflow_concat(a, b.drop_last(), config);
    }
}

/// What remains of a readable queue is readable.
pub proof fn lemma_skip_keeps_gas_readable(
    s: Seq<ReceiptOrStateStoredReceipt>,
    n: int,
    config: RuntimeConfig,
)
    requires
        0 <= n <= s.len(),
        !has_gas_overflow(s, config),
    ensures
        !has_gas_overflow(s.skip(n), config),
{
    assert(s =~= s.take(n) + s.skip(n));
    lemma_has_gas_overflow_concat(s.take(n), s.skip(n), config);
}

/// A readable queue grown by a readable receipt stays readable.
pub proof fn lemma_push_keeps_gas_readable(
    s: Seq<ReceiptOrStateStoredReceipt>,
    stored: ReceiptOrStateStoredReceipt,
    config: RuntimeConfig,
)
    requires
        !has_gas_overflow(s, config),
        !spec_stored_gas_overflows(stored, config),
    ensures
        !has_gas_overflow(s.push(stored), config),
{
    assert(s.push(stored).drop_last() =~= s);
}

/// Every row of readable buffers is readable.
pub proof fn lemma_buffers_overflow_row(
    entries: Seq<ShardBufferEntry>,
    t: int,
    config: RuntimeConfig,
)
    requires
        0 <= t < entries.len(),
        !buffers_have_gas_overflow(entries, config),
    ensures
        !has_gas_overflow(entries[t].receipts@, config),
    decreases entries.len(),
{
    if t < entries.len() - 1 {
        lemma_buffers_overflow_row(entries.drop_last(), t, config);
    }
}

/// Buffer readability only reads the receipts: entry rows with equal views
/// read alike.
pub proof fn lemma_buffers_overflow_congruent(
    a: Seq<ShardBufferEntry>,
    b: Seq<ShardBufferEntry>,
    config: RuntimeConfig,
)
    requires
        a.len() == b.len(),
        forall|t: int| 0 <= t < a.len() ==> #[trigger] a[t].receipts@ == b[t].receipts@,
    ensures
        buffers_have_gas_overflow(b, config) == buffers_have_gas_overflow(a, config),
    decreases a.len(),
{
    if a.len() > 0 {
        lemma_buffers_overflow_congruent(a.drop_last(), b.drop_last(), config);
        assert(a.last().receipts@ == b.last().receipts@);
    }
}

/// Changing one row of readable buffers to a readable row keeps the
/// buffers readable.
pub proof fn lemma_buffers_overflow_update_views(
    a: Seq<ShardBufferEntry>,
    b: Seq<ShardBufferEntry>,
    f: int,
    config: RuntimeConfig,
)
    requires
        a.len() == b.len(),
        0 <= f < a.len(),
        forall|t: int| 0 <= t < a.len() && t != f ==> #[trigger] a[t].receipts@ == b[t].receipts@,
        !buffers_have_gas_overflow(a, config),
        !has_gas_overflow(b[f].receipts@, config),
    ensures
        !buffers_have_gas_overflow(b, config),
    decreases a.len(),
{
    if f == a.len() - 1 {
        lemma_buffers_overflow_congruent(a.drop_last(), b.drop_last(), config);
    } else {
        lemma_buffers_overflow_update_views(a.drop_last(), b.drop_last(), f, config);
        assert(a.last().receipts@ == b.last().receipts@);
    }
}

/// An overflow among the first `n` receipts is an overflow in the queue.
pub proof fn lemma_has_gas_overflow_prefix(
    s: Seq<ReceiptOrStateStoredReceipt>,
    n: int,
    config: RuntimeConfig,
)
    requires
        0 <= n <= s.len(),
        has_gas_overflow(s.take(n), config),
    ensures
        has_gas_overflow(s, config),
    decreases s.len() - n,
{
    if n < s.len() {
        assert(s.take(n + 1).drop_last() =~= s.take(n));
        lemma_has_gas_overflow_prefix(s, n + 1, config);
    } else {
        assert(s.take(n) =~= s);
    }
}

/// The persistent FIFO of receipts the shard accepted but could not yet
/// apply.
#[derive(Debug, Clone, PartialEq, Eq)]
pub struct DelayedReceiptQueue {
    pub receipts: Vec<ReceiptOrStateStoredReceipt>,
}

impl View for DelayedReceiptQueue {
    type V = Seq<ReceiptOrStateStoredReceipt>;

    open spec fn view(&self) -> Seq<ReceiptOrStateStoredReceipt> {
        self.receipts@
    }
}

impl DelayedReceiptQueue {
    pub fn new() -> (r: Self)
        ensures
            r@ =~= Seq::<ReceiptOrStateStoredReceipt>::empty(),
    {
        DelayedReceiptQueue { receipts: Vec::new() }
    }

    pub fn len(&self) -> (r: u64)
        ensures
            r == self@.len(),
    {
        self.receipts.len() as u64
    }

    /// Read the receipt at `index` without disturbing the queue.
    pub fn get(&self, index: usize) -> (r: &ReceiptOrStateStoredReceipt)
        requires
            index < self@.len(),
        ensures
            *r == self@[index as int],
    {
        &self.receipts[index]
    }

    /// Append at the tail.
    pub fn push_back(&mut self, stored: ReceiptOrStateStoredReceipt)
        ensures
            final(self)@ == old(self)@.push(stored),
    {
        self.receipts.push(stored);
    }

    /// Remove from the head.
    pub fn pop_front(&mut self) -> (r: Option<ReceiptOrStateStoredReceipt>)
        ensures
            old(self)@.len() == 0 ==> r is None && *final(self) == *old(self),
            old(self)@.len() > 0 ==> r == Some(old(self)@[0]) && final(self)@ == old(self)@.drop_first(),
    {
        if self.receipts.len() == 0 {
            None
        } else {
            let stored = self.receipts.remove(0);
            proof {
                assert(final(self)@ =~= old(self)@.drop_first());
            }
            Some(stored)
        }
    }
}

/// One destination's outgoing buffer: the shard and its queued receipts.
#[derive(Debug, Clone, PartialEq, Eq)]
pub struct ShardBufferEntry {
    pub shard: ShardId,
    pub receipts: Vec<ReceiptOrStateStoredReceipt>,
}

/// Index of the first entry for `shard`, or -1 when there is none.
pub open spec fn spec_find_shard(entries: Seq<ShardBufferEntry>, shard: ShardId) -> int
    decreases entries.len(),
{
    if entries.len() == 0 {
        -1
    } else if entries[0].shard == shard {
        0
    } else {
        let rest = spec_find_shard(entries.drop_first(), shard);
        if rest < 0 {
            -1
        } else {
            1 + rest
        }
    }
}

pub proof fn lemma_find_shard_props(entries: Seq<ShardBufferEntry>, shard: ShardId)
    ensures
        -1 <= spec_find_shard(entries, shard) < entries.len(),
        spec_find_shard(entries, shard) >= 0 ==> entries[spec_find_shard(entries, shard)].shard
            == shard && forall|i: int|
            0 <= i < spec_find_shard(entries, shard) ==> entries[i].shard != shard,
        spec_find_shard(entries, shard) == -1 ==> forall|i: int|
            0 <= i < entries.len() ==> entries[i].shard != shard,
    decreases entries.len(),
{
    if entries.len() > 0 && entries[0].shard != shard {
        lemma_find_shard_props(entries.drop_first(), shard);
        let rest = spec_find_shard(entries.drop_first(), shard);
        if rest < 0 {
            assert forall|i: int| 0 <= i < entries.len() implies entries[i].shard != shard by {
                if i > 0 {
                    assert(entries[i] == entries.drop_first()[i - 1]);
                }
            }
        } else {
            assert(entries[1 + rest] == entries.drop_first()[rest]);
            assert forall|i: int| 0 <= i < 1 + rest implies entries[i].shard != shard by {
                if i > 0 {
                    assert(entries[i] == entries.drop_first()[i - 1]);
                }
            }
        }
    }
}

/// The first matching index determines the find result.
pub proof fn lemma_find_shard_first(entries: Seq<ShardBufferEntry>, shard: ShardId, k: int)
    requires
        0 <= k < entries.len(),
        entries[k].shard == shard,
        forall|i: int| 0 <= i < k ==> entries[i].shard != shard,
    ensures
        spec_find_shard(entries, shard) == k,
    decreases k,
{
    if k > 0 {
        lemma_find_shard_first(entries.drop_first(), shard, k - 1);
    }
}

/// A shard absent from every entry is not found.
pub proof fn lemma_find_shard_none(entries: Seq<ShardBufferEntry>, shard: ShardId)
    requires
        forall|i: int| 0 <= i < entries.len() ==> entries[i].shard != shard,
    ensures
        spec_find_shard(entries, shard) == -1,
    decreases entries.len(),
{
    if entries.len() > 0 {
        lemma_find_shard_none(entries.drop_first(), shard);
    }
}

/// Entry sequences with the same shards in the same places find alike.
pub proof fn lemma_find_shard_same_shards(
    a: Seq<ShardBufferEntry>,
    b: Seq<ShardBufferEntry>,
    shard: ShardId,
)
    requires
        a.len() == b.len(),
        forall|i: int| 0 <= i < a.len() ==> a[i].shard == b[i].shard,
    ensures
        spec_find_shard(a, shard) == spec_find_shard(b, shard),
    decreases a.len(),
{
    if a.len() > 0 {
        assert(a[0].shard == b[0].shard);
        lemma_find_shard_same_shards(a.drop_first(), b.drop_first(), shard);
    }
}

/// The mapping from destination shard to its outgoing buffer.
#[derive(Debug, Clone, PartialEq, Eq)]
pub struct ShardsOutgoingReceiptBuffer {
    pub entries: Vec<ShardBufferEntry>,
}

/// How the buffers change when `stored` is appended to `shard`'s buffer:
/// that buffer grows at the tail, every other buffer is untouched, and a
/// buffer is created exactly when the shard had none.
pub open spec fn buffer_push_relation(
    b0: ShardsOutgoingReceiptBuffer,
    b1: ShardsOutgoingReceiptBuffer,
    shard: ShardId,
    stored: ReceiptOrStateStoredReceipt,
) -> bool {
    let f = spec_find_shard(b0.entries@, shard);
    &&& b1.buffer_view(shard) == b0.buffer_view(shard).push(stored)
    &&& forall|other: ShardId|
        other != shard ==> #[trigger] b1.buffer_view(other) == b0.buffer_view(other)
    &&& b0.wf() ==> b1.wf()
    &&& f >= 0 ==> {
        &&& b1.shards_view() == b0.shards_view()
        &&& b1.entries@.len() == b0.entries@.len()
        &&& forall|t: int|
            0 <= t < b0.entries@.len() && t != f ==> b1.entries@[t] == b0.entries@[t]
        &&& b1.entries@[f].shard == shard
        &&& b1.entries@[f].receipts@ == b0.entries@[f].receipts@.push(stored)
    }
    &&& f < 0 ==> {
        &&& b1.shards_view() == b0.shards_view().push(shard)
        &&& b1.entries@.len() == b0.entries@.len() + 1
        &&& forall|t: int| 0 <= t < b0.entries@.len() ==> b1.entries@[t] == b0.entries@[t]
        &&& b1.entries@[b0.entries@.len() as int].shard == shard
        &&& b1.entries@[b0.entries@.len() as int].receipts@ == seq![stored]
    }
}

/// How the buffers change when the oldest receipt of `shard`'s non-empty
/// buffer is removed: that buffer loses its head, every other buffer is
/// untouched, and no buffer appears or disappears.
pub open spec fn buffer_pop_relation(
    b0: ShardsOutgoingReceiptBuffer,
    b1: ShardsOutgoingReceiptBuffer,
    shard: ShardId,
) -> bool {
    let f = spec_find_shard(b0.entries@, shard);
    &&& b1.buffer_view(shard) == b0.buffer_view(shard).drop_first()
    &&& forall|other: ShardId|
        other != shard ==> #[trigger] b1.buffer_view(other) == b0.buffer_view(other)
    &&& b1.shards_view() == b0.shards_view()
    &&& b0.wf() ==> b1.wf()
    &&& f >= 0
    &&& b1.entries@.len() == b0.entries@.len()
    &&& forall|t: int| 0 <= t < b0.entries@.len() && t != f ==> b1.entries@[t] == b0.entries@[t]
    &&& b1.entries@[f].shard == shard
    &&& b1.entries@[f].receipts@ == b0.entries@[f].receipts@.drop_first()
}

/// Sum of the congestion gas over every outgoing buffer.
pub open spec fn sum_buffers_gas(entries: Seq<ShardBufferEntry>, config: RuntimeConfig) -> int
    decreases entries.len(),
{
    if entries.len() == 0 {
        0
    } else {
        sum_buffers_gas(entries.drop_last(), config) + sum_stored_gas(
            entries.last().receipts@,
            config,
        )
    }
}

/// Sum of the congestion sizes over every outgoing buffer.
pub open spec fn sum_buffers_size(entries: Seq<ShardBufferEntry>) -> int
    decreases entries.len(),
{
    if entries.len() == 0 {
        0
    } else {
        sum_buffers_size(entries.drop_last()) + sum_stored_size(entries.last().receipts@)
    }
}

/// Whether reading the congestion gas of any buffered receipt overflows.
pub open spec fn buffers_have_gas_overflow(
    entries: Seq<ShardBufferEntry>,
    config: RuntimeConfig,
) -> bool
    decreases entries.len(),
{
    if entries.len() == 0 {
        false
    } else {
        buffers_have_gas_overflow(entries.drop_last(), config) || has_gas_overflow(
            entries.last().receipts@,
            config,
        )
    }
}

pub proof fn lemma_sum_buffers_gas_nonneg(entries: Seq<ShardBufferEntry>, config: RuntimeConfig)
    ensures
        sum_buffers_gas(entries, config) >= 0,
    decreases entries.len(),
{
    if entries.len() > 0 {
        lemma_sum_buffers_gas_nonneg(entries.drop_last(), config);
        lemma_sum_stored_gas_nonneg(entries.last().receipts@, config);
    }
}

pub proof fn lemma_sum_buffers_size_nonneg(entries: Seq<ShardBufferEntry>)
    ensures
        sum_buffers_size(entries) >= 0,
    decreases entries.len(),
{
    if entries.len() > 0 {
        lemma_sum_buffers_size_nonneg(entries.drop_last());
        lemma_sum_stored_size_nonneg(entries.last().receipts@);
    }
}

/// Changing one entry moves the buffer-wide sums by that entry's delta.
pub proof fn lemma_sum_buffers_gas_update_one(
    a: Seq<ShardBufferEntry>,
    b: Seq<ShardBufferEntry>,
    f: int,
    config: RuntimeConfig,
)
    requires
        a.len() == b.len(),
        0 <= f < a.len(),
        forall|t: int| 0 <= t < a.len() && t != f ==> a[t] == b[t],
    ensures
        sum_buffers_gas(b, config) == sum_buffers_gas(a, config) - sum_stored_gas(
            a[f].receipts@,
            config,
        ) + sum_stored_gas(b[f].receipts@, config),
    decreases a.len(),
{
    if f == a.len() - 1 {
        assert(a.drop_last() =~= b.drop_last());
    } else {
        lemma_sum_buffers_gas_update_one(a.drop_last(), b.drop_last(), f, config);
        assert(a.last() == b.last());
    }
}

pub proof fn lemma_sum_buffers_size_update_one(
    a: Seq<ShardBufferEntry>,
    b: Seq<ShardBufferEntry>,
    f: int,
)
    requires
        a.len() == b.len(),
        0 <= f < a.len(),
        forall|t: int| 0 <= t < a.len() && t != f ==> a[t] == b[t],
    ensures
        sum_buffers_size(b) == sum_buffers_size(a) - sum_stored_size(a[f].receipts@)
            + sum_stored_size(b[f].receipts@),
    decreases a.len(),
{
    if f == a.len() - 1 {
        assert(a.drop_last() =~= b.drop_last());
    } else {
        lemma_sum_buffers_size_update_one(a.drop_last(), b.drop_last(), f);
        assert(a.last() == b.last());
    }
}

/// The core congestion invariant: the running totals equal the sums over
/// the persisted queues — delayed gas over the delayed queue, buffered gas
/// over the outgoing buffers, and bytes over both.
pub open spec fn congestion_totals_match(
    info: crate::congestion_info::CongestionInfo,
    delayed: Seq<ReceiptOrStateStoredReceipt>,
    buffers: Seq<ShardBufferEntry>,
    config: RuntimeConfig,
) -> bool {
    &&& info.delayed_receipts_gas == sum_stored_gas(delayed, config)
    &&& info.buffered_receipts_gas == sum_buffers_gas(buffers, config)
    &&& info.receipt_bytes == sum_stored_size(delayed) + sum_buffers_size(buffers)
}

/// Buffer sums only read the receipts: entry rows with equal views sum
/// equally.
pub proof fn lemma_sum_buffers_congruent(
    a: Seq<ShardBufferEntry>,
    b: Seq<ShardBufferEntry>,
    config: RuntimeConfig,
)
    requires
        a.len() == b.len(),
        forall|t: int| 0 <= t < a.len() ==> #[trigger] a[t].receipts@ == b[t].receipts@,
    ensures
        sum_buffers_gas(b, config) == sum_buffers_gas(a, config),
        sum_buffers_size(b) == sum_buffers_size(a),
    decreases a.len(),
{
    if a.len() > 0 {
        lemma_sum_buffers_congruent(a.drop_last(), b.drop_last(), config);
        assert(a.last().receipts@ == b.last().receipts@);
    }
}

/// Changing the receipts of one entry moves the buffer-wide sums by that
/// entry's delta, read at the level of views.
pub proof fn lemma_sum_buffers_update_views(
    a: Seq<ShardBufferEntry>,
    b: Seq<ShardBufferEntry>,
    f: int,
    config: RuntimeConfig,
)
    requires
        a.len() == b.len(),
        0 <= f < a.len(),
        forall|t: int| 0 <= t < a.len() && t != f ==> #[trigger] a[t].receipts@ == b[t].receipts@,
    ensures
        sum_buffers_gas(b, config) == sum_buffers_gas(a, config) - sum_stored_gas(
            a[f].receipts@,
            config,
        ) + sum_stored_gas(b[f].receipts@, config),
        sum_buffers_size(b) == sum_buffers_size(a) - sum_stored_size(a[f].receipts@)
            + sum_stored_size(b[f].receipts@),
    decreases a.len(),
{
    if f == a.len() - 1 {
        lemma_sum_buffers_congruent(a.drop_last(), b.drop_last(), config);
    } else {
        lemma_sum_buffers_update_views(a.drop_last(), b.drop_last(), f, config);
        assert(a.last().receipts@ == b.last().receipts@);
    }
}

/// With unique shards, the per-shard views pin the entry rows: after a
/// change that keeps the shard list and touches only `shard`'s buffer, all
/// other rows keep their receipts, row by row.
pub proof fn lemma_buffer_entries_from_views(
    b0: ShardsOutgoingReceiptBuffer,
    b1: ShardsOutgoingReceiptBuffer,
    shard: ShardId,
)
    requires
        b0.wf(),
        b1.shards_view() == b0.shards_view(),
        forall|other: ShardId|
            other != shard ==> #[trigger] b1.buffer_view(other) == b0.buffer_view(other),
    ensures
        b1.entries@.len() == b0.entries@.len(),
        forall|t: int|
            0 <= t < b0.entries@.len() ==> #[trigger] b1.entries@[t].shard == b0.entries@[t].shard,
        forall|t: int|
            0 <= t < b0.entries@.len() && b0.entries@[t].shard != shard
                ==> #[trigger] b1.entries@[t].receipts@ == b0.entries@[t].receipts@,
        spec_find_shard(b0.entries@, shard) >= 0 ==> b1.entries@[spec_find_shard(
            b0.entries@,
            shard,
        )].receipts@ == b1.buffer_view(shard),
{
    let e0 = b0.entries@;
    let e1 = b1.entries@;
    assert(e1.len() == e0.len()) by {
        assert(b0.shards_view().len() == e0.len());
        assert(b1.shards_view().len() == e1.len());
    }
    assert forall|t: int| 0 <= t < e0.len() implies #[trigger] e1[t].shard == e0[t].shard by {
        assert(b0.shards_view()[t] == e0[t].shard);
        assert(b1.shards_view()[t] == e1[t].shard);
    }
    assert forall|t: int| 0 <= t < e0.len() && e0[t].shard != shard implies #[trigger] e1[t].receipts@
        == e0[t].receipts@ by {
        let s = e0[t].shard;
        assert forall|i: int| 0 <= i < t implies e0[i].shard != s by {}
        lemma_find_shard_first(e0, s, t);
        lemma_find_shard_same_shards(e0, e1, s);
        assert(b0.buffer_view(s) == e0[t].receipts@);
        assert(b1.buffer_view(s) == e1[t].receipts@);
    }
    if spec_find_shard(e0, shard) >= 0 {
        let f = spec_find_shard(e0, shard);
        lemma_find_shard_props(e0, shard);
        lemma_find_shard_same_shards(e0, e1, shard);
        assert(b1.buffer_view(shard) == e1[f].receipts@);
    }
}

/// An overflow among the first `n` buffers is an overflow in the state.
pub proof fn lemma_buffers_overflow_prefix(
    entries: Seq<ShardBufferEntry>,
    n: int,
    config: RuntimeConfig,
)
    requires
        0 <= n <= entries.len(),
        buffers_have_gas_overflow(entries.take(n), config),
    ensures
        buffers_have_gas_overflow(entries, config),
    decreases entries.len() - n,
{
    if n < entries.len() {
        assert(entries.take(n + 1).drop_last() =~= entries.take(n));
        lemma_buffers_overflow_prefix(entries, n + 1, config);
    } else {
        assert(entries.take(n) =~= entries);
    }
}

impl ShardsOutgoingReceiptBuffer {
    /// The receipts buffered toward `shard`, oldest first; empty when the
    /// shard has no buffer.
    pub open spec fn buffer_view(&self, shard: ShardId) -> Seq<ReceiptOrStateStoredReceipt> {
        let idx = spec_find_shard(self.entries@, shard);
        if idx < 0 {
            Seq::empty()
        } else {
            self.entries@[idx].receipts@
        }
    }

    /// The shards with a buffer, in storage order.
    pub open spec fn shards_view(&self) -> Seq<ShardId> {
        self.entries@.map_values(|e: ShardBufferEntry| e.shard)
    }

    /// Each shard has at most one buffer.
    pub open spec fn wf(&self) -> bool {
        forall|i: int, j: int|
            0 <= i < j < self.entries@.len() ==> self.entries@[i].shard != self.entries@[j].shard
    }

    pub fn new() -> (r: Self)
        ensures
            r.entries@.len() == 0,
            r.wf(),
    {
        ShardsOutgoingReceiptBuffer { entries: Vec::new() }
    }

    /// Index of the entry holding `shard`'s buffer.
    fn find_index(&self, shard: ShardId) -> (r: Option<usize>)
        ensures
            match r {
                Some(i) => i < self.entries@.len() && spec_find_shard(self.entries@, shard)
                    == i && self.entries@[i as int].shard == shard,
                None => spec_find_shard(self.entries@, shard) == -1,
            },
    {
        let mut k: usize = 0;
        while k < self.entries.len()
            invariant
                k <= self.entries@.len(),
                forall|i: int| 0 <= i < k ==> self.entries@[i].shard != shard,
            decreases self.entries@.len() - k,
        {
            if self.entries[k].shard == shard {
                proof {
                    lemma_find_shard_first(self.entries@, shard, k as int);
                }
                return Some(k);
            }
            k = k + 1;
        }
        proof {
            lemma_find_shard_none(self.entries@, shard);
        }
        None
    }

    /// The shards with a buffer, in storage order.
    pub fn shards(&self) -> (r: Vec<ShardId>)
        ensures
            r@ == self.shards_view(),
    {
        let mut shards: Vec<ShardId> = Vec::new();
        let mut k: usize = 0;
        while k < self.entries.len()
            invariant
                k <= self.entries@.len(),
                shards@ =~= self.entries@.take(k as int).map_values(
                    |e: ShardBufferEntry| e.shard,
                ),
            decreases self.entries@.len() - k,
        {
            shards.push(self.entries[k].shard);
            proof {
                assert(shards@ =~= self.entries@.take(k + 1).map_values(
                    |e: ShardBufferEntry| e.shard,
                ));
            }
            k = k + 1;
        }
        proof {
            assert(self.entries@.take(self.entries@.len() as int) =~= self.entries@);
        }
        shards
    }

    /// The number of receipts buffered toward `shard`, or `None` when the
    /// shard has no buffer.
    pub fn buffer_len(&self, shard: ShardId) -> (r: Option<u64>)
        ensures
            spec_find_shard(self.entries@, shard) < 0 ==> r is None,
            spec_find_shard(self.entries@, shard) >= 0 ==> r == Some(
                self.buffer_view(shard).len() as u64,
            ) && self.buffer_view(shard).len() <= u64::MAX,
    {
        match self.find_index(shard) {
            Some(i) => Some(self.entries[i].receipts.len() as u64),
            None => None,
        }
    }

    /// Read the oldest receipt buffered toward `shard`.
    pub fn front(&self, shard: ShardId) -> (r: Option<&ReceiptOrStateStoredReceipt>)
        ensures
            self.buffer_view(shard).len() == 0 ==> r is None,
            self.buffer_view(shard).len() > 0 ==> r is Some && *r->Some_0 == self.buffer_view(
                shard,
            )[0],
    {
        match self.find_index(shard) {
            Some(i) => {
                if self.entries[i].receipts.len() == 0 {
                    None
                } else {
                    Some(&self.entries[i].receipts[0])
                }
            },
            None => None,
        }
    }

    /// Append a receipt at the tail of `shard`'s buffer, creating the
    /// buffer when the shard has none yet.
    pub fn push_back(&mut self, shard: ShardId, stored: ReceiptOrStateStoredReceipt)
        ensures
            buffer_push_relation(*old(self), *final(self), shard, stored),
    {
        let ghost old_entries = self.entries@;
        match self.find_index(shard) {
            Some(i) => {
                self.entries[i].receipts.push(stored);
                proof {
                    let new_entries = self.entries@;
                    assert(forall|t: int|
                        0 <= t < old_entries.len() ==> old_entries[t].shard == new_entries[t].shard);
                    assert forall|s: ShardId| true implies spec_find_shard(new_entries, s)
                        == spec_find_shard(old_entries, s) by {
                        lemma_find_shard_same_shards(old_entries, new_entries, s);
                    }
                    assert forall|other: ShardId| other != shard implies #[trigger] final(self).buffer_view(other) == old(self).buffer_view(other) by {
                        lemma_find_shard_props(old_entries, other);
                    }
                    assert(final(self).shards_view() =~= old(self).shards_view());
                }
            },
            None => {
                proof {
                    lemma_find_shard_props(old_entries, shard);
                }
                let mut receipts: Vec<ReceiptOrStateStoredReceipt> = Vec::new();
                receipts.push(stored);
                self.entries.push(ShardBufferEntry { shard, receipts });
                proof {
                    let new_entries = self.entries@;
                    lemma_find_shard_first(new_entries, shard, old_entries.len() as int);
                    assert(final(self).buffer_view(shard) =~= old(self).buffer_view(shard).push(
                        stored,
                    ));
                    assert forall|other: ShardId| other != shard implies #[trigger] final(self).buffer_view(other) == old(self).buffer_view(other) by {
                        lemma_find_shard_props(old_entries, other);
                        let f = spec_find_shard(old_entries, other);
                        if f >= 0 {
                            lemma_find_shard_first(new_entries, other, f);
                        } else {
                            lemma_find_shard_none(new_entries, other);
                        }
                    }
                    assert(final(self).shards_view() =~= old(self).shards_view().push(shard));
                }
            },
        }
    }

    /// Remove the oldest receipt buffered toward `shard`.
    pub fn pop_front(&mut self, shard: ShardId) -> (r: Option<ReceiptOrStateStoredReceipt>)
        ensures
            old(self).buffer_view(shard).len() == 0 ==> r is None && *final(self) == *old(self),
            old(self).buffer_view(shard).len() > 0 ==> r == Some(old(self).buffer_view(shard)[0])
                && buffer_pop_relation(*old(self), *final(self), shard),
    {
        let ghost old_entries = self.entries@;
        match self.find_index(shard) {
            Some(i) => {
                if self.entries[i].receipts.len() == 0 {
                    None
                } else {
                    let stored = self.entries[i].receipts.remove(0);
                    proof {
                        let new_entries = self.entries@;
                        assert(forall|t: int|
                            0 <= t < old_entries.len() ==> old_entries[t].shard
                                == new_entries[t].shard);
                        assert forall|s: ShardId| true implies spec_find_shard(new_entries, s)
                            == spec_find_shard(old_entries, s) by {
                            lemma_find_shard_same_shards(old_entries, new_entries, s);
                        }
                        assert(final(self).buffer_view(shard) =~= old(self).buffer_view(
                            shard,
                        ).drop_first());
                        assert forall|other: ShardId| other != shard implies #[trigger] final(self).buffer_view(other) == old(self).buffer_view(other) by {
                            lemma_find_shard_props(old_entries, other);
                        }
                        assert(final(self).shards_view() =~= old(self).shards_view());
                    }
                    Some(stored)
                }
            },
            None => None,
        }
    }
}

} // verus!
