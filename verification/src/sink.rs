//! The outgoing receipt sink: forward or buffer.
//!
//! When the runtime produces receipts for other shards, the sink either
//! puts them in the outgoing receipts list or buffers them in the trie,
//! applying backpressure from the receiving shard. A legacy variant
//! forwards everything; the congestion-aware variant enforces the
//! per-destination gas and size limits advertised by the peers.

use vstd::prelude::*;

use crate::bandwidth::{
    spec_basic_request_values, spec_requested_value, BandwidthRequest, BandwidthRequests,
    BandwidthRequestsV1, BandwidthSchedulerOutput, BandwidthSchedulerParams,
};
use crate::config::RuntimeConfig;
use crate::congestion_info::CongestionInfo;
use crate::errors::{RuntimeError, StorageError};
use crate::metadata::{
    meta_pop_relation, meta_push_relation, spec_group_pop_ok, spec_groups_after_pop, ReceiptGroup,
};
use crate::queues::{buffer_pop_relation, buffer_push_relation, sum_stored_gas, sum_stored_size};
use crate::receipt::{
    compute_receipt_congestion_gas, compute_receipt_size, receipt_congestion_gas, receipt_size,
    spec_inner_receipt, spec_receipt_gas, spec_receipt_gas_overflows, spec_stored_gas,
    spec_stored_gas_overflows, spec_stored_size, spec_wrap_receipt, wrap_receipt, Receipt,
    ReceiptOrStateStoredReceipt,
};
use crate::trie::TrieUpdate;
use crate::types::{
    bandwidth_scheduler_enabled, spec_bandwidth_scheduler_enabled,
    spec_congestion_control_enabled, AccountId, Gas, ProtocolVersion, ShardId,
};

verus! {

/// Limits for outgoing receipts to one shard within the current chunk.
/// Receipts are sent out until the limit is hit; after that they are
/// buffered.
#[derive(Debug, Clone, Copy, PartialEq, Eq, Structural)]
pub struct OutgoingLimit {
    pub gas: Gas,
    pub size: u64,
}

/// One destination's remaining limit, and whether the destination is
/// saturated: once a receipt toward it was refused, nothing more is
/// forwarded to it in this chunk, so that receipts cannot overtake the
/// buffered one and break per-destination order.
#[derive(Debug, Clone, Copy, PartialEq, Eq, Structural)]
pub struct OutgoingLimitEntry {
    pub shard: ShardId,
    pub limit: OutgoingLimit,
    pub saturated: bool,
}

/// Index of the first limit entry for `shard`, or -1 when there is none.
pub open spec fn spec_find_limit(entries: Seq<OutgoingLimitEntry>, shard: ShardId) -> int
    decreases entries.len(),
{
    if entries.len() == 0 {
        -1
    } else if entries[0].shard == shard {
        0
    } else {
        let rest = spec_find_limit(entries.drop_first(), shard);
        if rest < 0 {
            -1
        } else {
            1 + rest
        }
    }
}

pub proof fn lemma_find_limit_props(entries: Seq<OutgoingLimitEntry>, shard: ShardId)
    ensures
        -1 <= spec_find_limit(entries, shard) < entries.len(),
        spec_find_limit(entries, shard) >= 0 ==> entries[spec_find_limit(entries, shard)].shard
            == shard && forall|i: int|
            0 <= i < spec_find_limit(entries, shard) ==> entries[i].shard != shard,
        spec_find_limit(entries, shard) == -1 ==> forall|i: int|
            0 <= i < entries.len() ==> entries[i].shard != shard,
    decreases entries.len(),
{
    if entries.len() > 0 && entries[0].shard != shard {
        lemma_find_limit_props(entries.drop_first(), shard);
        let rest = spec_find_limit(entries.drop_first(), shard);
        if rest < 0 {
            assert forall|i: int| 0 <= i < entries.len() implies entries[i].shard != shard by {
                if i > 0 {
                    assert(entries[i] == entries.drop_first()[i - 1]);
                }
            }
        } else {
            assert(entries[1 + rest] == entries.drop_first()[rest]);
            assert forall|i: int| 0 <= i < 1 + rest implies entries[i].shard != shard by {
                if i > 0 {
                    assert(entries[i] == entries.drop_first()[i - 1]);
                }
            }
        }
    }
}

pub proof fn lemma_find_limit_first(entries: Seq<OutgoingLimitEntry>, shard: ShardId, k: int)
    requires
        0 <= k < entries.len(),
        entries[k].shard == shard,
        forall|i: int| 0 <= i < k ==> entries[i].shard != shard,
    ensures
        spec_find_limit(entries, shard) == k,
    decreases k,
{
    if k > 0 {
        lemma_find_limit_first(entries.drop_first(), shard, k - 1);
    }
}

pub proof fn lemma_find_limit_none(entries: Seq<OutgoingLimitEntry>, shard: ShardId)
    requires
        forall|i: int| 0 <= i < entries.len() ==> entries[i].shard != shard,
    ensures
        spec_find_limit(entries, shard) == -1,
    decreases entries.len(),
{
    if entries.len() > 0 {
        lemma_find_limit_none(entries.drop_first(), shard);
    }
}

pub proof fn lemma_find_limit_same_shards(
    a: Seq<OutgoingLimitEntry>,
    b: Seq<OutgoingLimitEntry>,
    shard: ShardId,
)
    requires
        a.len() == b.len(),
        forall|i: int| 0 <= i < a.len() ==> a[i].shard == b[i].shard,
    ensures
        spec_find_limit(a, shard) == spec_find_limit(b, shard),
    decreases a.len(),
{
    if a.len() > 0 {
        assert(a[0].shard == b[0].shard);
        lemma_find_limit_same_shards(a.drop_first(), b.drop_first(), shard);
    }
}

/// The per-destination limits the sink enforces within one chunk.
#[derive(Debug, Clone, PartialEq, Eq)]
pub struct OutgoingLimitMap {
    pub entries: Vec<OutgoingLimitEntry>,
}

impl OutgoingLimitMap {
    /// Whether `shard` has a limit entry.
    pub open spec fn has_limit(&self, shard: ShardId) -> bool {
        spec_find_limit(self.entries@, shard) >= 0
    }

    /// The remaining limit of `shard`.
    pub open spec fn limit_view(&self, shard: ShardId) -> OutgoingLimit {
        self.entries@[spec_find_limit(self.entries@, shard)].limit
    }

    /// Whether `shard` is saturated for this chunk.
    pub open spec fn saturated_view(&self, shard: ShardId) -> bool {
        self.entries@[spec_find_limit(self.entries@, shard)].saturated
    }

    /// The shards with a limit entry, in storage order.
    pub open spec fn shards_view(&self) -> Seq<ShardId> {
        self.entries@.map_values(|e: OutgoingLimitEntry| e.shard)
    }

    /// Each shard has at most one limit entry.
    pub open spec fn wf(&self) -> bool {
        forall|i: int, j: int|
            0 <= i < j < self.entries@.len() ==> self.entries@[i].shard != self.entries@[j].shard
    }

    pub fn new() -> (r: Self)
        ensures
            r.entries@.len() == 0,
            r.wf(),
            forall|shard: ShardId| !r.has_limit(shard),
    {
        let r = OutgoingLimitMap { entries: Vec::new() };
        proof {
            assert forall|shard: ShardId| !r.has_limit(shard) by {
                lemma_find_limit_props(r.entries@, shard);
            }
        }
        r
    }

    fn find_index(&self, shard: ShardId) -> (r: Option<usize>)
        ensures
            match r {
                Some(i) => i < self.entries@.len() && spec_find_limit(self.entries@, shard)
                    == i && self.entries@[i as int].shard == shard,
                None => spec_find_limit(self.entries@, shard) == -1,
            },
    {
        let mut k: usize = 0;
        while k < self.entries.len()
            invariant
                k <= self.entries@.len(),
                forall|i: int| 0 <= i < k ==> self.entries@[i].shard != shard,
            decreases self.entries@.len() - k,
        {
            if self.entries[k].shard == shard {
                proof {
                    lemma_find_limit_first(self.entries@, shard, k as int);
                }
                return Some(k);
            }
            k = k + 1;
        }
        proof {
            lemma_find_limit_none(self.entries@, shard);
        }
        None
    }

    /// The shards with a limit entry, in storage order.
    pub fn shards(&self) -> (r: Vec<ShardId>)
        ensures
            r@ == self.shards_view(),
    {
        let mut shards: Vec<ShardId> = Vec::new();
        let mut k: usize = 0;
        while k < self.entries.len()
            invariant
                k <= self.entries@.len(),
                shards@ =~= self.entries@.take(k as int).map_values(
                    |e: OutgoingLimitEntry| e.shard,
                ),
            decreases self.entries@.len() - k,
        {
            shards.push(self.entries[k].shard);
            proof {
                assert(shards@ =~= self.entries@.take(k + 1).map_values(
                    |e: OutgoingLimitEntry| e.shard,
                ));
            }
            k = k + 1;
        }
        proof {
            assert(self.entries@.take(self.entries@.len() as int) =~= self.entries@);
        }
        shards
    }

    /// The remaining limit of `shard`, when one is known.
    pub fn get(&self, shard: ShardId) -> (r: Option<OutgoingLimit>)
        ensures
            self.has_limit(shard) ==> r == Some(self.limit_view(shard)),
            !self.has_limit(shard) ==> r is None,
    {
        match self.find_index(shard) {
            Some(i) => Some(self.entries[i].limit),
            None => None,
        }
    }

    /// The limit entry of `shard`, inserted with `default` and unsaturated
    /// when missing.
    pub fn entry_or_insert(&mut self, shard: ShardId, default: OutgoingLimit) -> (l: OutgoingLimit)
        ensures
            old(self).has_limit(shard) ==> l == old(self).limit_view(shard) && *final(self)
                == *old(self),
            !old(self).has_limit(shard) ==> l == default && final(self).entries@ == old(self).entries@.push((OutgoingLimitEntry { shard, limit: default, saturated: false })),
            final(self).has_limit(shard),
            final(self).limit_view(shard) == l,
            forall|other: ShardId|
                other != shard ==> #[trigger] final(self).has_limit(other) == old(self).has_limit(
                    other,
                ) && (old(self).has_limit(other) ==> final(self).limit_view(other) == old(self).limit_view(other)),
            forall|d: ShardId|
                #[trigger] spec_saturated_for(*final(self), d) == spec_saturated_for(
                    *old(self),
                    d,
                ),
            old(self).has_limit(shard) ==> final(self).shards_view() == old(self).shards_view(),
            !old(self).has_limit(shard) ==> final(self).shards_view() == old(self).shards_view().push(shard),
            old(self).wf() ==> final(self).wf(),
    {
        let ghost old_entries = self.entries@;
        match self.find_index(shard) {
            Some(i) => self.entries[i].limit,
            None => {
                proof {
                    lemma_find_limit_props(old_entries, shard);
                }
                self.entries.push(OutgoingLimitEntry { shard, limit: default, saturated: false });
                proof {
                    let new_entries = self.entries@;
                    lemma_find_limit_first(new_entries, shard, old_entries.len() as int);
                    assert forall|other: ShardId| other != shard implies #[trigger] final(self).has_limit(other) == old(self).has_limit(other) && (old(self).has_limit(other)
                        ==> final(self).limit_view(other) == old(self).limit_view(other)) by {
                        lemma_find_limit_props(old_entries, other);
                        let f = spec_find_limit(old_entries, other);
                        if f >= 0 {
                            lemma_find_limit_first(new_entries, other, f);
                        } else {
                            lemma_find_limit_none(new_entries, other);
                        }
                    }
                    assert forall|d: ShardId| #[trigger] spec_saturated_for(*final(self), d)
                        == spec_saturated_for(*old(self), d) by {
                        lemma_find_limit_props(old_entries, d);
                        let f = spec_find_limit(old_entries, d);
                        if f >= 0 {
                            lemma_find_limit_first(new_entries, d, f);
                        } else if d == shard {
                            lemma_find_limit_first(new_entries, d, old_entries.len() as int);
                        } else {
                            lemma_find_limit_none(new_entries, d);
                        }
                    }
                    assert(final(self).shards_view() =~= old(self).shards_view().push(shard));
                }
                default
            },
        }
    }

    /// Overwrite the limit of `shard`, keeping its saturation state.
    pub fn set(&mut self, shard: ShardId, limit: OutgoingLimit)
        requires
            old(self).has_limit(shard),
        ensures
            final(self).has_limit(shard),
            final(self).limit_view(shard) == limit,
            forall|other: ShardId|
                other != shard ==> #[trigger] final(self).has_limit(other) == old(self).has_limit(
                    other,
                ) && (old(self).has_limit(other) ==> final(self).limit_view(other) == old(self).limit_view(other)),
            forall|d: ShardId|
                #[trigger] spec_saturated_for(*final(self), d) == spec_saturated_for(
                    *old(self),
                    d,
                ),
            final(self).shards_view() == old(self).shards_view(),
            old(self).wf() ==> final(self).wf(),
    {
        let ghost old_entries = self.entries@;
        proof {
            lemma_find_limit_props(old_entries, shard);
        }
        match self.find_index(shard) {
            Some(i) => {
                let saturated = self.entries[i].saturated;
                self.entries[i] = OutgoingLimitEntry { shard, limit, saturated };
                proof {
                    let new_entries = self.entries@;
                    assert(forall|t: int|
                        0 <= t < old_entries.len() ==> old_entries[t].shard == new_entries[t].shard);
                    assert forall|s: ShardId| true implies spec_find_limit(new_entries, s)
                        == spec_find_limit(old_entries, s) by {
                        lemma_find_limit_same_shards(old_entries, new_entries, s);
                    }
                    assert forall|other: ShardId| other != shard implies #[trigger] final(self).has_limit(other) == old(self).has_limit(other) && (old(self).has_limit(other)
                        ==> final(self).limit_view(other) == old(self).limit_view(other)) by {
                        lemma_find_limit_props(old_entries, other);
                    }
                    assert forall|d: ShardId| #[trigger] spec_saturated_for(*final(self), d)
                        == spec_saturated_for(*old(self), d) by {
                        lemma_find_limit_props(old_entries, d);
                    }
                    assert(final(self).shards_view() =~= old(self).shards_view());
                }
            },
            None => {
                proof {
                    assert(false);
                }
            },
        }
    }

    /// Whether `shard` is saturated for this chunk.
    pub fn is_saturated(&self, shard: ShardId) -> (r: bool)
        ensures
            r == spec_saturated_for(*self, shard),
    {
        match self.find_index(shard) {
            Some(i) => self.entries[i].saturated,
            None => false,
        }
    }

    /// Mark `shard` saturated: from here to the end of the chunk nothing
    /// more is forwarded toward it.
    pub fn mark_saturated(&mut self, shard: ShardId)
        requires
            old(self).has_limit(shard),
        ensures
            forall|d: ShardId|
                #[trigger] final(self).has_limit(d) == old(self).has_limit(d) && (old(
                    self,
                ).has_limit(d) ==> final(self).limit_view(d) == old(self).limit_view(d)),
            spec_saturated_for(*final(self), shard),
            forall|other: ShardId|
                other != shard ==> #[trigger] spec_saturated_for(*final(self), other)
                    == spec_saturated_for(*old(self), other),
            final(self).shards_view() == old(self).shards_view(),
            old(self).wf() ==> final(self).wf(),
    {
        let ghost old_entries = self.entries@;
        proof {
            lemma_find_limit_props(old_entries, shard);
        }
        match self.find_index(shard) {
            Some(i) => {
                let limit = self.entries[i].limit;
                self.entries[i] = OutgoingLimitEntry { shard, limit, saturated: true };
                proof {
                    let new_entries = self.entries@;
                    assert(forall|t: int|
                        0 <= t < old_entries.len() ==> old_entries[t].shard == new_entries[t].shard);
                    assert forall|d: ShardId| true implies spec_find_limit(new_entries, d)
                        == spec_find_limit(old_entries, d) by {
                        lemma_find_limit_same_shards(old_entries, new_entries, d);
                    }
                    assert forall|d: ShardId| #[trigger] final(self).has_limit(d) == old(
                        self,
                    ).has_limit(d) && (old(self).has_limit(d) ==> final(self).limit_view(d) == old(
                        self,
                    ).limit_view(d)) by {
                        lemma_find_limit_props(old_entries, d);
                    }
                    assert forall|other: ShardId| other != shard implies #[trigger] spec_saturated_for(
                        *final(self),
                        other,
                    ) == spec_saturated_for(*old(self), other) by {
                        lemma_find_limit_props(old_entries, other);
                    }
                    assert(final(self).shards_view() =~= old(self).shards_view());
                }
            },
            None => {
                proof {
                    assert(false);
                }
            },
        }
    }
}

/// What the sink reads of a peer shard's advertised congestion state: the
/// outgoing gas and size limits that the congestion-control policy derives
/// from the peer's congestion info and missed-chunks count.
#[derive(Debug, Clone, Copy, PartialEq, Eq, Structural)]
pub struct AdvertisedCongestion {
    /// The policy's `outgoing_gas_limit` toward this peer.
    pub outgoing_gas_limit: Gas,
    /// The policy's `outgoing_size_limit` toward this peer.
    pub outgoing_size_limit: u64,
}

/// One peer shard's advertised congestion state.
#[derive(Debug, Clone, Copy, PartialEq, Eq, Structural)]
pub struct ShardCongestionEntry {
    pub shard_id: ShardId,
    pub congestion: AdvertisedCongestion,
}

/// What the sink reads of the chunk application context.
#[derive(Debug, Clone, PartialEq, Eq)]
pub struct ApplyState {
    /// The shard this sink runs on.
    pub shard_id: ShardId,
    /// The current epoch, fixed for the whole chunk.
    pub epoch_id: u64,
    pub current_protocol_version: ProtocolVersion,
    pub config: RuntimeConfig,
    /// Advertised congestion state of every shard, own shard included.
    pub congestion_info: Vec<ShardCongestionEntry>,
}

impl ApplyState {
    /// Each shard advertised at most once.
    pub open spec fn wf(&self) -> bool {
        forall|i: int, j: int|
            0 <= i < j < self.congestion_info@.len() ==> self.congestion_info@[i].shard_id
                != self.congestion_info@[j].shard_id
    }
}

/// Maps receiver accounts to their shard. Deterministic for a given epoch.
pub trait EpochInfoProvider {
    /// The shard that owns `account_id` in `epoch_id`.
    spec fn shard_of(&self, account_id: AccountId, epoch_id: u64) -> ShardId;

    fn account_id_to_shard_id(&self, account_id: AccountId, epoch_id: u64) -> (shard: ShardId)
        ensures
            shard == self.shard_of(account_id, epoch_id),
    ;
}

/// The simplest account layout: each account lives on the shard of its own
/// number.
#[derive(Debug, Clone, Copy, PartialEq, Eq, Structural)]
pub struct DirectShardMapping;

impl EpochInfoProvider for DirectShardMapping {
    open spec fn shard_of(&self, account_id: AccountId, epoch_id: u64) -> ShardId {
        account_id
    }

    fn account_id_to_shard_id(&self, account_id: AccountId, epoch_id: u64) -> (shard: ShardId) {
        account_id
    }
}

/// Whether `shard` is saturated: it has a limit entry whose refusal flag
/// is set. A destination without an entry is never saturated.
pub open spec fn spec_saturated_for(m: OutgoingLimitMap, shard: ShardId) -> bool {
    m.has_limit(shard) && m.saturated_view(shard)
}

/// Whether a receipt of this weight may still be forwarded: the comparison
/// is strict, so a receipt that exactly equals the remaining limit is
/// buffered and the limit never reaches zero by forwarding.
pub open spec fn spec_fits(limit: OutgoingLimit, gas: Gas, size: u64) -> bool {
    limit.gas > gas && limit.size > size
}

/// The limit assumed for a destination with no entry: unlimited gas and the
/// usual size limit. Treating an unknown destination as unlimited is the
/// safest way to keep it available.
pub open spec fn spec_default_limit(config: RuntimeConfig) -> OutgoingLimit {
    OutgoingLimit { gas: u64::MAX, size: config.outgoing_receipts_usual_size_limit }
}

/// The remaining limit toward `shard`: its entry, or the default.
pub open spec fn spec_limit_for(m: OutgoingLimitMap, shard: ShardId, config: RuntimeConfig) -> OutgoingLimit {
    if m.has_limit(shard) {
        m.limit_view(shard)
    } else {
        spec_default_limit(config)
    }
}

/// The limit entry a new sink gives one peer: the advertised limits, except
/// that receipts staying on the own shard cannot be backpressured by gas.
pub open spec fn spec_initial_limit(own_shard: ShardId, entry: ShardCongestionEntry) -> OutgoingLimit {
    OutgoingLimit {
        gas: if entry.shard_id != own_shard {
            entry.congestion.outgoing_gas_limit
        } else {
            u64::MAX
        },
        size: entry.congestion.outgoing_size_limit,
    }
}

/// Whether a single receipt was forwarded, or handed back for buffering.
#[derive(Debug, Clone, PartialEq, Eq)]
pub enum ReceiptForwarding {
    Forwarded,
    NotForwarded(Receipt),
}

/// The legacy sink: every receipt is forwarded, no queues are touched and
/// no congestion info is produced.
#[derive(Debug, Clone, PartialEq, Eq)]
pub struct ReceiptSinkV1 {
    pub outgoing_receipts: Vec<Receipt>,
}

impl ReceiptSinkV1 {
    /// The legacy sink can only forward.
    pub fn forward(&mut self, receipt: Receipt)
        ensures
            final(self).outgoing_receipts@ == old(self).outgoing_receipts@.push(receipt),
    {
        self.outgoing_receipts.push(receipt);
    }
}

/// The congestion-aware sink.
#[derive(Debug, Clone, PartialEq, Eq)]
pub struct ReceiptSinkV2 {
    /// The local shard's congestion info, kept current while receipts are
    /// buffered or drained; a chunk output, not a forwarding input.
    pub own_congestion_info: CongestionInfo,
    pub outgoing_receipts: Vec<Receipt>,
    pub outgoing_limit: OutgoingLimitMap,
    pub bandwidth_scheduler_output: Option<BandwidthSchedulerOutput>,
    pub protocol_version: ProtocolVersion,
}

impl ReceiptSinkV2 {
    /// When the bandwidth scheduler is on, its output must be at hand; and
    /// the limit map keys each shard once.
    pub open spec fn wf(&self) -> bool {
        &&& spec_bandwidth_scheduler_enabled(self.protocol_version)
            ==> self.bandwidth_scheduler_output is Some
        &&& self.outgoing_limit.wf()
    }

    /// Forward a receipt of the given weight toward `shard` if the
    /// remaining limit strictly exceeds it, deducting what is forwarded;
    /// hand the receipt back otherwise. Either way the destination's limit
    /// entry exists afterwards.
    pub fn try_forward(
        receipt: Receipt,
        gas: Gas,
        size: u64,
        shard: ShardId,
        outgoing_limit: &mut OutgoingLimitMap,
        outgoing_receipts: &mut Vec<Receipt>,
        apply_state: &ApplyState,
    ) -> (r: Result<ReceiptForwarding, RuntimeError>)
        ensures
            ({
                let limit0 = spec_limit_for(*old(outgoing_limit), shard, apply_state.config);
                let may_forward = !spec_saturated_for(*old(outgoing_limit), shard) && spec_fits(
                    limit0,
                    gas,
                    size,
                );
                &&& r is Ok
                &&& may_forward ==> r == Ok::<ReceiptForwarding, RuntimeError>(
                    ReceiptForwarding::Forwarded,
                ) && final(outgoing_receipts)@ == old(outgoing_receipts)@.push(receipt) && final(outgoing_limit).limit_view(shard) == (OutgoingLimit {
                    gas: (limit0.gas - gas) as Gas,
                    size: (limit0.size - size) as u64,
                }) && !spec_saturated_for(*final(outgoing_limit), shard)
                &&& !may_forward ==> r == Ok::<ReceiptForwarding, RuntimeError>(
                    ReceiptForwarding::NotForwarded(receipt),
                ) && final(outgoing_receipts)@ == old(outgoing_receipts)@ && final(outgoing_limit).limit_view(shard) == limit0 && spec_saturated_for(*final(outgoing_limit), shard)
                &&& final(outgoing_limit).has_limit(shard)
                &&& forall|other: ShardId|
                    other != shard ==> #[trigger] final(outgoing_limit).has_limit(other) == old(outgoing_limit).has_limit(other) && (old(outgoing_limit).has_limit(other) ==> final(outgoing_limit).limit_view(other) == old(outgoing_limit).limit_view(other))
                &&& forall|other: ShardId|
                    other != shard ==> #[trigger] spec_saturated_for(*final(outgoing_limit), other)
                        == spec_saturated_for(*old(outgoing_limit), other)
                &&& old(outgoing_limit).has_limit(shard) ==> final(outgoing_limit).shards_view()
                    == old(outgoing_limit).shards_view()
                &&& !old(outgoing_limit).has_limit(shard) ==> final(outgoing_limit).shards_view()
                    == old(outgoing_limit).shards_view().push(shard)
                &&& old(outgoing_limit).wf() ==> final(outgoing_limit).wf()
            }),
    {
        // If no outgoing limit was defined for the receiving shard, the
        // feature is off for it or the shard is new: treat it as "no gas
        // limit" with the usual size limit, the safest way to keep the
        // destination available.
        let default_outgoing_limit = OutgoingLimit {
            gas: Gas::MAX,
            size: apply_state.config.outgoing_receipts_usual_size_limit,
        };
        let forward_limit = outgoing_limit.entry_or_insert(shard, default_outgoing_limit);

        if !outgoing_limit.is_saturated(shard) && forward_limit.gas > gas && forward_limit.size
            > size {
            outgoing_receipts.push(receipt);
            // underflow impossible: the limit strictly exceeds the weight
            outgoing_limit.set(
                shard,
                OutgoingLimit { gas: forward_limit.gas - gas, size: forward_limit.size - size },
            );
            Ok(ReceiptForwarding::Forwarded)
        } else {
            // the first refusal saturates the destination for this chunk:
            // forwarding anything behind the refused receipt would break
            // per-destination order
            outgoing_limit.mark_saturated(shard);
            Ok(ReceiptForwarding::NotForwarded(receipt))
        }
    }

    /// Put a receipt of the given weight in `shard`'s outgoing buffer and
    /// account for it in the own congestion info and, for state-stored
    /// receipts, in the outgoing metadata. Nothing changes on error.
    pub fn buffer_receipt(
        &mut self,
        receipt: Receipt,
        size: u64,
        gas: Gas,
        state_update: &mut TrieUpdate,
        shard: ShardId,
        use_state_stored_receipt: bool,
    ) -> (r: Result<(), RuntimeError>)
        ensures
            ({
                let stored = spec_wrap_receipt(receipt, gas, size, use_state_stored_receipt);
                let ok = old(self).own_congestion_info.receipt_bytes + size <= u64::MAX && old(self).own_congestion_info.buffered_receipts_gas + gas <= u128::MAX && (
                use_state_stored_receipt ==> old(state_update).outgoing_metadatas.spec_push_ok(shard, size, gas));
                &&& ok ==> r is Ok && ({
                    &&& final(self).own_congestion_info == (CongestionInfo {
                        receipt_bytes: (old(self).own_congestion_info.receipt_bytes + size) as u64,
                        buffered_receipts_gas: (old(self).own_congestion_info.buffered_receipts_gas
                            + gas) as u128,
                        ..old(self).own_congestion_info
                    })
                    &&& final(self).outgoing_receipts == old(self).outgoing_receipts
                    &&& final(self).outgoing_limit == old(self).outgoing_limit
                    &&& final(self).bandwidth_scheduler_output == old(self).bandwidth_scheduler_output
                    &&& final(self).protocol_version == old(self).protocol_version
                    &&& buffer_push_relation(
                        old(state_update).outgoing_buffers,
                        final(state_update).outgoing_buffers,
                        shard,
                        stored,
                    )
                    &&& use_state_stored_receipt ==> meta_push_relation(
                        old(state_update).outgoing_metadatas,
                        final(state_update).outgoing_metadatas,
                        shard,
                        size,
                        gas,
                    )
                    &&& !use_state_stored_receipt ==> final(state_update).outgoing_metadatas == old(state_update).outgoing_metadatas
                    &&& final(state_update).delayed_receipts == old(state_update).delayed_receipts
                })
                &&& !ok ==> r == Err::<(), RuntimeError>(RuntimeError::UnexpectedIntegerOverflow)
                    && *final(self) == *old(self) && *final(state_update) == *old(state_update)
            }),
    {
        let new_bytes = match self.own_congestion_info.receipt_bytes.checked_add(size) {
            Some(b) => b,
            None => {
                return Err(RuntimeError::UnexpectedIntegerOverflow);
            },
        };
        let new_gas = match self.own_congestion_info.buffered_receipts_gas.checked_add(
            gas as u128,
        ) {
            Some(g) => g,
            None => {
                return Err(RuntimeError::UnexpectedIntegerOverflow);
            },
        };
        let stored = wrap_receipt(receipt, gas, size, use_state_stored_receipt);

        if stored.should_update_outgoing_metadatas() {
            match state_update.outgoing_metadatas.update_on_receipt_pushed(shard, size, gas) {
                Ok(()) => {},
                Err(e) => {
                    return Err(e);
                },
            }
        }

        self.own_congestion_info.receipt_bytes = new_bytes;
        self.own_congestion_info.buffered_receipts_gas = new_gas;
        state_update.outgoing_buffers.push_back(shard, stored);
        Ok(())
    }

    /// Forward receipts already in the buffers to the outgoing receipts
    /// list, as much as the limits allow, for every destination with a
    /// limit entry.
    #[verifier::rlimit(60)]
    #[verifier::spinoff_prover]
    pub fn forward_from_buffer(
        &mut self,
        state_update: &mut TrieUpdate,
        apply_state: &ApplyState,
    ) -> (r: Result<(), RuntimeError>)
        ensures
            drain_all_relation(
                *old(self),
                *old(state_update),
                *final(self),
                *final(state_update),
                apply_state.config,
                r,
            ),
    {
        let ghost s0 = *self;
        let ghost t0 = *state_update;
        let ghost cfg = apply_state.config;
        let ghost e0 = s0.outgoing_limit.entries@;
        let ghost shards_v = s0.outgoing_limit.shards_view();
        // store the shards in a vector to avoid borrowing the limit map
        let shards = self.outgoing_limit.shards();
        let mut i: usize = 0;
        proof {
            assert(shards_v.take(0) =~= Seq::<ShardId>::empty());
            if s0.outgoing_limit.wf() {
                assert(spec_drained_stored(s0.outgoing_limit, t0, shards_v.take(0), cfg)
                    =~= Seq::<ReceiptOrStateStoredReceipt>::empty());
                assert(s0.outgoing_receipts@ + spec_drained_stored(
                    s0.outgoing_limit,
                    t0,
                    shards_v.take(0),
                    cfg,
                ).map_values(|st: ReceiptOrStateStoredReceipt| spec_inner_receipt(st))
                    =~= s0.outgoing_receipts@);
            }
        }
        while i < shards.len()
            invariant
                s0 == *old(self),
                t0 == *old(state_update),
                cfg == apply_state.config,
                e0 == s0.outgoing_limit.entries@,
                shards_v == s0.outgoing_limit.shards_view(),
                shards@ == shards_v,
                i <= shards_v.len(),
                drain_all_progress(s0, t0, *self, *state_update, cfg),
                s0.outgoing_limit.wf() ==> ({
                    let drained = spec_drained_stored(
                        s0.outgoing_limit,
                        t0,
                        shards_v.take(i as int),
                        cfg,
                    );
                    &&& forall|j: int|
                        0 <= j < i ==> spec_dest_drained(
                            s0,
                            t0,
                            *self,
                            *state_update,
                            #[trigger] shards_v[j],
                            cfg,
                        )
                    &&& forall|d: ShardId|
                        !shards_v.take(i as int).contains(d) ==> #[trigger] spec_dest_untouched(
                            s0,
                            t0,
                            *self,
                            *state_update,
                            d,
                        )
                    &&& self.outgoing_receipts@ == s0.outgoing_receipts@ + drained.map_values(
                        |st: ReceiptOrStateStoredReceipt| spec_inner_receipt(st),
                    )
                    &&& self.own_congestion_info.receipt_bytes + sum_stored_size(drained)
                        == s0.own_congestion_info.receipt_bytes
                    &&& self.own_congestion_info.buffered_receipts_gas + sum_stored_gas(
                        drained,
                        cfg,
                    ) == s0.own_congestion_info.buffered_receipts_gas
                }),
            decreases shards_v.len() - i,
        {
            let ghost sm = *self;
            let ghost tm = *state_update;
            let shard_id = shards[i];
            proof {
                if s0.outgoing_limit.wf() {
                    // the destination drained now is keyed exactly here and
                    // was untouched so far
                    assert(e0[i as int].shard == shard_id);
                    assert forall|j: int| 0 <= j < i implies e0[j].shard != shard_id by {}
                    lemma_find_limit_first(e0, shard_id, i as int);
                    assert(!shards_v.take(i as int).contains(shard_id)) by {
                        if shards_v.take(i as int).contains(shard_id) {
                            let j = choose|j: int|
                                0 <= j < i && shards_v.take(i as int)[j] == shard_id;
                            assert(e0[j].shard == shard_id);
                        }
                    }
                    assert(spec_dest_untouched(s0, t0, sm, tm, shard_id));
                }
            }
            match self.forward_from_buffer_to_shard(shard_id, state_update, apply_state) {
                Ok(()) => {
                    proof {
                        let bufm = tm.outgoing_buffers.buffer_view(shard_id);
                        let limitm = spec_limit_for(sm.outgoing_limit, shard_id, cfg);
                        let n = if spec_saturated_for(sm.outgoing_limit, shard_id) {
                            0
                        } else {
                            spec_drain_count(bufm, limitm.gas, limitm.size, cfg)
                        };
                        crate::queues::lemma_sum_stored_gas_nonneg(bufm.take(n), cfg);
                        crate::queues::lemma_sum_stored_size_nonneg(bufm.take(n));
                        if tm.outgoing_buffers.wf() && crate::queues::congestion_totals_match(
                            sm.own_congestion_info,
                            tm.delayed_receipts@,
                            tm.outgoing_buffers.entries@,
                            cfg,
                        ) {
                            crate::laws::lemma_drain_preserves_totals(
                                sm,
                                tm,
                                *self,
                                *state_update,
                                shard_id,
                                cfg,
                                n,
                            );
                        }
                        assert forall|d: ShardId| #[trigger] spec_limit_for(
                            self.outgoing_limit,
                            d,
                            cfg,
                        ).gas <= spec_limit_for(s0.outgoing_limit, d, cfg).gas && spec_limit_for(
                            self.outgoing_limit,
                            d,
                            cfg,
                        ).size <= spec_limit_for(s0.outgoing_limit, d, cfg).size by {
                            if d == shard_id {
                                assert(spec_limit_for(sm.outgoing_limit, d, cfg).gas
                                    <= spec_limit_for(s0.outgoing_limit, d, cfg).gas);
                            } else {
                                assert(spec_limit_for(self.outgoing_limit, d, cfg)
                                    == spec_limit_for(sm.outgoing_limit, d, cfg));
                            }
                        }
                        if s0.outgoing_limit.wf() {
                            // the drained destination saw exactly its
                            // original buffer, limit and metadata
                            let buf0d = t0.outgoing_buffers.buffer_view(shard_id);
                            assert(bufm == buf0d);
                            assert(limitm == spec_limit_for(s0.outgoing_limit, shard_id, cfg));
                            assert(spec_saturated_for(sm.outgoing_limit, shard_id)
                                == spec_saturated_for(s0.outgoing_limit, shard_id));
                            assert(spec_drain_state(
                                sm,
                                tm,
                                *self,
                                *state_update,
                                shard_id,
                                cfg,
                                n,
                            ));
                            assert(spec_dest_drained(
                                s0,
                                t0,
                                *self,
                                *state_update,
                                shard_id,
                                cfg,
                            ));
                            // the processed destinations stand where they were
                            assert forall|j: int| 0 <= j < i + 1 implies spec_dest_drained(
                                s0,
                                t0,
                                *self,
                                *state_update,
                                #[trigger] shards_v[j],
                                cfg,
                            ) by {
                                if j < i {
                                    assert(e0[j].shard == shards_v[j]);
                                    assert(shards_v[j] != shard_id);
                                    assert(spec_dest_drained(s0, t0, sm, tm, shards_v[j], cfg));
                                }
                            }
                            // the unprocessed destinations are still untouched
                            assert forall|d2: ShardId| !shards_v.take(
                                i + 1,
                            ).contains(d2) implies #[trigger] spec_dest_untouched(
                                s0,
                                t0,
                                *self,
                                *state_update,
                                d2,
                            ) by {
                                assert(shards_v.take(i + 1)[i as int] == shard_id);
                                assert(d2 != shard_id);
                                assert(!shards_v.take(i as int).contains(d2)) by {
                                    if shards_v.take(i as int).contains(d2) {
                                        let j = choose|j: int|
                                            0 <= j < i && shards_v.take(i as int)[j] == d2;
                                        assert(shards_v.take(i + 1)[j] == d2);
                                    }
                                }
                                assert(spec_dest_untouched(s0, t0, sm, tm, d2));
                            }
                            // the outgoing list and the totals moved by this
                            // destination's pops
                            let drained_i = spec_drained_stored(
                                s0.outgoing_limit,
                                t0,
                                shards_v.take(i as int),
                                cfg,
                            );
                            let drained_next = spec_drained_stored(
                                s0.outgoing_limit,
                                t0,
                                shards_v.take(i + 1),
                                cfg,
                            );
                            assert(shards_v.take(i + 1).drop_last() =~= shards_v.take(i as int));
                            assert(shards_v.take(i + 1).last() == shard_id);
                            assert(drained_next == drained_i + buf0d.take(n));
                            crate::queues::lemma_sum_stored_gas_concat(
                                drained_i,
                                buf0d.take(n),
                                cfg,
                            );
                            crate::queues::lemma_sum_stored_size_concat(drained_i, buf0d.take(n));
                            assert(self.outgoing_receipts@ =~= s0.outgoing_receipts@
                                + drained_next.map_values(
                                |st: ReceiptOrStateStoredReceipt| spec_inner_receipt(st),
                            ));
                        }
                    }
                },
                Err(e) => {
                    return Err(e);
                },
            }
            i = i + 1;
        }
        proof {
            if s0.outgoing_limit.wf() {
                assert(shards_v.take(shards_v.len() as int) =~= shards_v);
                assert forall|d: ShardId| s0.outgoing_limit.has_limit(d) implies #[trigger] spec_dest_drained(
                    s0,
                    t0,
                    *self,
                    *state_update,
                    d,
                    cfg,
                ) by {
                    lemma_find_limit_props(e0, d);
                    let f = spec_find_limit(e0, d);
                    assert(shards_v[f] == d);
                }
                assert forall|d: ShardId| !s0.outgoing_limit.has_limit(d) implies #[trigger] spec_dest_untouched(
                    s0,
                    t0,
                    *self,
                    *state_update,
                    d,
                ) by {
                    lemma_find_limit_props(e0, d);
                    assert(!shards_v.contains(d)) by {
                        if shards_v.contains(d) {
                            let j = choose|j: int| 0 <= j < shards_v.len() && shards_v[j] == d;
                            assert(e0[j].shard == d);
                        }
                    }
                    assert(!shards_v.take(shards_v.len() as int).contains(d));
                }
            }
        }
        Ok(())
    }

    /// Forward receipts already buffered toward `shard_id` into the
    /// outgoing receipts list, from the head of the buffer, as far as the
    /// remaining limit allows: the first receipt that does not fit stops
    /// the drain, whatever would fit behind it.
    #[verifier::rlimit(50)]
    #[verifier::spinoff_prover]
    pub fn forward_from_buffer_to_shard(
        &mut self,
        shard_id: ShardId,
        state_update: &mut TrieUpdate,
        apply_state: &ApplyState,
    ) -> (r: Result<(), RuntimeError>)
        ensures
            drain_shard_relation(
                *old(self),
                *old(state_update),
                *final(self),
                *final(state_update),
                shard_id,
                apply_state.config,
                r,
            ),
            r is Ok ==> final(self).outgoing_receipts@.len() + final(state_update).outgoing_buffers.buffer_view(shard_id).len() == old(self).outgoing_receipts@.len()
                + old(state_update).outgoing_buffers.buffer_view(shard_id).len(),
    {
        let ghost s0 = *self;
        let ghost t0 = *state_update;
        let ghost cfg = apply_state.config;
        let ghost buf0 = t0.outgoing_buffers.buffer_view(shard_id);
        let ghost limit0 = spec_limit_for(s0.outgoing_limit, shard_id, cfg);
        let ghost has0 = t0.outgoing_metadatas.has_metadata(shard_id);
        let ghost total0: u64 = if has0 {
            t0.outgoing_metadatas.total_view(shard_id)
        } else {
            0u64
        };
        let ghost groups0 = if has0 {
            t0.outgoing_metadatas.groups_view(shard_id)
        } else {
            Seq::<ReceiptGroup>::empty()
        };
        let ghost mut k: int = 0;

        proof {
            assert(buf0.take(0) =~= Seq::<ReceiptOrStateStoredReceipt>::empty());
            assert(s0.outgoing_receipts@ + buf0.take(0).map_values(
                |st: ReceiptOrStateStoredReceipt| spec_inner_receipt(st),
            ) =~= s0.outgoing_receipts@);
            lemma_drain_count_bounds(buf0, limit0.gas, limit0.size, cfg);
            assert(buf0.skip(0) =~= buf0);
        }

        // a destination already saturated in this chunk gets nothing more
        if self.outgoing_limit.is_saturated(shard_id) {
            return Ok(());
        }

        let mut stopped_by_limit: bool = false;
        loop
            invariant_except_break
                !stopped_by_limit,
            invariant
                s0 == *old(self),
                t0 == *old(state_update),
                cfg == apply_state.config,
                buf0 == t0.outgoing_buffers.buffer_view(shard_id),
                limit0 == spec_limit_for(s0.outgoing_limit, shard_id, cfg),
                has0 == t0.outgoing_metadatas.has_metadata(shard_id),
                total0 == if has0 {
                    t0.outgoing_metadatas.total_view(shard_id)
                } else {
                    0u64
                },
                groups0 == if has0 {
                    t0.outgoing_metadatas.groups_view(shard_id)
                } else {
                    Seq::<ReceiptGroup>::empty()
                },
                !spec_saturated_for(s0.outgoing_limit, shard_id),
                forall|d: ShardId|
                    #[trigger] spec_saturated_for(self.outgoing_limit, d) == spec_saturated_for(
                        s0.outgoing_limit,
                        d,
                    ),
                spec_drain_state(s0, t0, *self, *state_update, shard_id, cfg, k),
            ensures
                spec_drain_state(s0, t0, *self, *state_update, shard_id, cfg, k),
                k == spec_drain_count(buf0, limit0.gas, limit0.size, cfg),
                !spec_drain_error(buf0, limit0.gas, limit0.size, cfg),
                forall|d: ShardId|
                    #[trigger] spec_saturated_for(self.outgoing_limit, d) == spec_saturated_for(
                        s0.outgoing_limit,
                        d,
                    ),
                stopped_by_limit == (buf0.skip(k).len() > 0),
                stopped_by_limit ==> self.outgoing_limit.has_limit(shard_id),
            decreases buf0.len() - k,
        {
            let ghost cur = spec_limit_for(self.outgoing_limit, shard_id, cfg);
            let step: Option<(Gas, u64, bool)> = {
                match state_update.outgoing_buffers.front(shard_id) {
                    None => None,
                    Some(stored) => {
                        let gas_r = receipt_congestion_gas(stored, &apply_state.config);
                        let size_r = receipt_size(stored);
                        let su = stored.should_update_outgoing_metadatas();
                        match (gas_r, size_r) {
                            (Ok(g), Ok(s)) => Some((g, s, su)),
                            _ => {
                                proof {
                                    assert(buf0.skip(k)[0] == buf0[k]);
                                    assert(spec_stored_gas_overflows(buf0[k], cfg));
                                    assert(spec_drain_error(buf0.skip(k), cur.gas, cur.size, cfg));
                                }
                                return Err(RuntimeError::UnexpectedIntegerOverflow);
                            },
                        }
                    },
                }
            };
            let (gas, size, should_update) = match step {
                None => {
                    break ;
                },
                Some(triple) => triple,
            };
            proof {
                assert(buf0.skip(k).len() > 0);
                assert(buf0.skip(k)[0] == buf0[k]);
                assert(!spec_stored_gas_overflows(buf0[k], cfg));
                crate::queues::lemma_spec_stored_gas_nonneg(buf0[k], cfg);
                assert(gas == spec_stored_gas(buf0[k], cfg));
                assert(size == spec_stored_size(buf0[k]));
            }

            let default_outgoing_limit = OutgoingLimit {
                gas: Gas::MAX,
                size: apply_state.config.outgoing_receipts_usual_size_limit,
            };
            let limit = self.outgoing_limit.entry_or_insert(shard_id, default_outgoing_limit);
            proof {
                assert(limit == cur);
                assert(spec_limit_for(self.outgoing_limit, shard_id, cfg) == cur);
            }

            if !(limit.gas > gas && limit.size > size) {
                stopped_by_limit = true;
                proof {
                    assert(spec_drain_count(buf0.skip(k), cur.gas, cur.size, cfg) == 0);
                    assert(!spec_drain_error(buf0.skip(k), cur.gas, cur.size, cfg));
                }
                break ;
            }

            proof {
                // the drain goes at least one receipt further
                assert(spec_drain_count(buf0.skip(k), cur.gas, cur.size, cfg) == 1
                    + spec_drain_count(
                    buf0.skip(k).drop_first(),
                    (cur.gas - gas) as Gas,
                    (cur.size - size) as u64,
                    cfg,
                ));
                assert(buf0.take(k + 1).drop_last() =~= buf0.take(k));
                assert(buf0.take(k + 1).last() == buf0[k]);
                lemma_drain_count_bounds(
                    buf0.skip(k).drop_first(),
                    (cur.gas - gas) as Gas,
                    (cur.size - size) as u64,
                    cfg,
                );
            }
            let ghost n = spec_drain_count(buf0, limit0.gas, limit0.size, cfg);
            proof {
                // bounds on what the whole drain pops, for the error paths
                assert(k + 1 <= n);
                assert(buf0.take(n).take(k + 1) =~= buf0.take(k + 1));
                crate::queues::lemma_sum_stored_size_prefix(buf0.take(n), k + 1);
                crate::queues::lemma_sum_stored_gas_prefix(buf0.take(n), k + 1, cfg);
            }

            let stored = match state_update.outgoing_buffers.pop_front(shard_id) {
                Some(st) => st,
                None => {
                    proof {
                        assert(false);
                    }
                    return Err(RuntimeError::UnexpectedIntegerOverflow);
                },
            };
            proof {
                assert(buf0.skip(k).drop_first() =~= buf0.skip(k + 1));
            }
            let receipt = stored.into_receipt();

            match Self::try_forward(
                receipt,
                gas,
                size,
                shard_id,
                &mut self.outgoing_limit,
                &mut self.outgoing_receipts,
                apply_state,
            ) {
                Ok(ReceiptForwarding::Forwarded) => {},
                Ok(ReceiptForwarding::NotForwarded(_)) => {
                    proof {
                        assert(false);
                    }
                    return Err(RuntimeError::UnexpectedIntegerOverflow);
                },
                Err(_) => {
                    proof {
                        assert(false);
                    }
                    return Err(RuntimeError::UnexpectedIntegerOverflow);
                },
            }

            match self.own_congestion_info.remove_receipt_bytes(size) {
                Ok(()) => {},
                Err(e) => {
                    return Err(e);
                },
            }
            match self.own_congestion_info.remove_buffered_receipt_gas(gas) {
                Ok(()) => {},
                Err(e) => {
                    return Err(e);
                },
            }

            proof {
                lemma_meta_drain_snoc(has0, total0, groups0, buf0.take(k), buf0[k], cfg);
                assert(buf0.take(k).push(buf0[k]) =~= buf0.take(k + 1));
            }
            if should_update {
                match state_update.outgoing_metadatas.update_on_receipt_popped(
                    shard_id,
                    size,
                    gas,
                ) {
                    Ok(()) => {},
                    Err(e) => {
                        proof {
                            assert(!spec_meta_drain(has0, total0, groups0, buf0.take(k + 1), cfg).0);
                            lemma_meta_drain_prefix_fail(
                                has0,
                                total0,
                                groups0,
                                buf0.take(n),
                                k + 1,
                                cfg,
                            );
                        }
                        return Err(e);
                    },
                }
            }

            proof {
                k = k + 1;
                assert(self.outgoing_receipts@ =~= s0.outgoing_receipts@ + buf0.take(k).map_values(
                    |st: ReceiptOrStateStoredReceipt| spec_inner_receipt(st),
                ));
            }
        }

        if stopped_by_limit {
            // the first refusal saturates the destination for this chunk:
            // forwarding anything behind the refused receipt would break
            // per-destination order
            self.outgoing_limit.mark_saturated(shard_id);
        }
        proof {
            let n = spec_drain_count(buf0, limit0.gas, limit0.size, cfg);
            assert(n == k);
            crate::queues::lemma_sum_stored_size_nonneg(buf0.take(n));
            crate::queues::lemma_sum_stored_gas_nonneg(buf0.take(n), cfg);
        }
        Ok(())
    }

    /// The bandwidth request toward `to_shard`: derived from the metadata
    /// when it describes the whole buffer, basic otherwise, none for an
    /// empty buffer.
    pub fn generate_bandwidth_request(
        &self,
        to_shard: ShardId,
        trie: &TrieUpdate,
        params: &BandwidthSchedulerParams,
    ) -> (r: Option<BandwidthRequest>)
        ensures
            trie.outgoing_buffers.buffer_view(to_shard).len() == 0 ==> r is None,
            trie.outgoing_buffers.buffer_view(to_shard).len() > 0 ==> r is Some
                && r->Some_0.to_shard == to_shard && r->Some_0.requested_values@
                == spec_request_values(*trie, to_shard, *params),
    {
        let outgoing_receipts_buffer_len = match trie.outgoing_buffers.buffer_len(to_shard) {
            Some(l) => l,
            None => 0,
        };
        if outgoing_receipts_buffer_len == 0 {
            // no receipts in the outgoing buffer, nothing to request
            return None;
        }
        let metadata = match trie.outgoing_metadatas.get_metadata_for_shard(to_shard) {
            Some(m) => m,
            None => {
                // metadata not ready, make a basic request
                return Some(BandwidthRequest::make_max_receipt_size_request(to_shard, params));
            },
        };
        if metadata.total_receipts_num() != outgoing_receipts_buffer_len {
            // the buffer still holds receipts the metadata does not know:
            // make a basic request until the legacy residue drains
            return Some(BandwidthRequest::make_max_receipt_size_request(to_shard, params));
        }
        // metadata fully describes the buffer: make a proper request
        let group_sizes = metadata.receipt_group_sizes();
        let request = BandwidthRequest::make_from_receipt_sizes(to_shard, &group_sizes, params);
        proof {
            assert(request.requested_values@ =~= spec_request_values(*trie, to_shard, *params));
        }
        Some(request)
    }

    /// Generate the chunk's bandwidth requests from the outgoing buffers:
    /// one per destination with buffered receipts.
    pub fn generate_bandwidth_requests(&self, trie: &TrieUpdate) -> (r: Result<
        Option<BandwidthRequests>,
        StorageError,
    >)
        requires
            self.wf(),
        ensures
            bandwidth_requests_relation(*self, *trie, r),
    {
        if !bandwidth_scheduler_enabled(self.protocol_version) {
            return Ok(None);
        }
        let params = match &self.bandwidth_scheduler_output {
            Some(output) => output.params,
            None => {
                proof {
                    // the scheduler is enabled, so its output is at hand
                    assert(false);
                }
                return Ok(None);
            },
        };

        let mut requests: Vec<BandwidthRequest> = Vec::new();
        let shards = trie.outgoing_buffers.shards();
        let mut i: usize = 0;
        proof {
            assert(shards@.take(0) =~= Seq::<ShardId>::empty());
        }
        while i < shards.len()
            invariant
                shards@ == trie.outgoing_buffers.shards_view(),
                i <= shards@.len(),
                requests@.len() == spec_requested_shards(*trie, shards@.take(i as int)).len(),
                forall|j: int|
                    0 <= j < requests@.len() ==> (#[trigger] requests@[j]).to_shard
                        == spec_requested_shards(*trie, shards@.take(i as int))[j]
                        && requests@[j].requested_values@ == spec_request_values(
                        *trie,
                        spec_requested_shards(*trie, shards@.take(i as int))[j],
                        params,
                    ),
            decreases shards@.len() - i,
        {
            proof {
                assert(shards@.take(i + 1).drop_last() =~= shards@.take(i as int));
                assert(shards@.take(i + 1).last() == shards@[i as int]);
            }
            match self.generate_bandwidth_request(shards[i], trie, &params) {
                Some(request) => {
                    requests.push(request);
                },
                None => {},
            }
            i = i + 1;
        }
        proof {
            assert(shards@.take(shards@.len() as int) =~= shards@);
        }
        Ok(Some(BandwidthRequests::V1(BandwidthRequestsV1 { requests })))
    }

    /// Put a receipt in the outgoing receipts list (forward) if the
    /// destination's limits allow it; put it in the destination's buffer
    /// otherwise.
    pub fn forward_or_buffer_receipt<P: EpochInfoProvider>(
        &mut self,
        receipt: Receipt,
        apply_state: &ApplyState,
        state_update: &mut TrieUpdate,
        epoch_info_provider: &P,
    ) -> (r: Result<(), RuntimeError>)
        ensures
            forward_or_buffer_relation(
                *old(self),
                *final(self),
                *old(state_update),
                *final(state_update),
                receipt,
                epoch_info_provider.shard_of(receipt.receiver_id, apply_state.epoch_id),
                *apply_state,
                r,
            ),
    {
        let shard = epoch_info_provider.account_id_to_shard_id(
            receipt.receiver_id,
            apply_state.epoch_id,
        );

        let size = match compute_receipt_size(&receipt) {
            Ok(s) => s,
            Err(_e) => {
                return Err(RuntimeError::UnexpectedIntegerOverflow);
            },
        };
        let gas = match compute_receipt_congestion_gas(&receipt, &apply_state.config) {
            Ok(g) => g,
            Err(_e) => {
                return Err(RuntimeError::UnexpectedIntegerOverflow);
            },
        };

        match Self::try_forward(
            receipt,
            gas,
            size,
            shard,
            &mut self.outgoing_limit,
            &mut self.outgoing_receipts,
            apply_state,
        ) {
            Ok(ReceiptForwarding::Forwarded) => Ok(()),
            Ok(ReceiptForwarding::NotForwarded(receipt)) => {
                self.buffer_receipt(
                    receipt,
                    size,
                    gas,
                    state_update,
                    shard,
                    apply_state.config.use_state_stored_receipt,
                )
            },
            Err(e) => Err(e),
        }
    }
}

/// Handles receipt forwarding across protocol versions: the legacy sink
/// forwards everything, the congestion-aware sink enforces limits.
#[derive(Debug, Clone, PartialEq, Eq)]
pub enum ReceiptSink {
    V1(ReceiptSinkV1),
    V2(ReceiptSinkV2),
}

impl ReceiptSink {
    pub open spec fn wf(&self) -> bool {
        match self {
            ReceiptSink::V1(_) => true,
            ReceiptSink::V2(v) => v.wf(),
        }
    }

    /// The receipts forwarded so far, in the order they were forwarded.
    pub open spec fn outgoing_view(&self) -> Seq<Receipt> {
        match self {
            ReceiptSink::V1(inner) => inner.outgoing_receipts@,
            ReceiptSink::V2(inner) => inner.outgoing_receipts@,
        }
    }

    /// Construct the sink for one chunk. The caller supplies the previous
    /// own congestion info exactly when the congestion-control feature is
    /// on, and the bandwidth scheduler's output whenever that feature is
    /// on; the per-destination limits are the advertised ones, with no gas
    /// limit toward the own shard.
    pub fn new(
        protocol_version: ProtocolVersion,
        apply_state: &ApplyState,
        prev_own_congestion_info: Option<CongestionInfo>,
        bandwidth_scheduler_output: Option<BandwidthSchedulerOutput>,
    ) -> (r: Result<ReceiptSink, StorageError>)
        requires
            prev_own_congestion_info is Some <==> spec_congestion_control_enabled(
                protocol_version,
            ),
            spec_bandwidth_scheduler_enabled(protocol_version)
                ==> bandwidth_scheduler_output is Some,
            apply_state.wf(),
        ensures
            r is Ok,
            r->Ok_0.wf(),
            r->Ok_0.outgoing_view().len() == 0,
            prev_own_congestion_info is None ==> r->Ok_0 is V1,
            prev_own_congestion_info is Some ==> r->Ok_0 is V2 && ({
                let v = r->Ok_0->V2_0;
                &&& v.own_congestion_info == prev_own_congestion_info->Some_0
                &&& v.protocol_version == protocol_version
                &&& v.bandwidth_scheduler_output == bandwidth_scheduler_output
                &&& v.outgoing_limit.wf()
                &&& v.outgoing_limit.entries@.len() == apply_state.congestion_info@.len()
                &&& forall|i: int|
                    0 <= i < apply_state.congestion_info@.len()
                        ==> #[trigger] v.outgoing_limit.entries@[i] == (OutgoingLimitEntry {
                        shard: apply_state.congestion_info@[i].shard_id,
                        limit: spec_initial_limit(
                            apply_state.shard_id,
                            apply_state.congestion_info@[i],
                        ),
                        saturated: false,
                    })
            }),
    {
        match prev_own_congestion_info {
            Some(own_congestion_info) => {
                let mut entries: Vec<OutgoingLimitEntry> = Vec::new();
                let mut i: usize = 0;
                while i < apply_state.congestion_info.len()
                    invariant
                        i <= apply_state.congestion_info@.len(),
                        entries@.len() == i,
                        forall|j: int|
                            0 <= j < i ==> #[trigger] entries@[j] == (OutgoingLimitEntry {
                                shard: apply_state.congestion_info@[j].shard_id,
                                limit: spec_initial_limit(
                                    apply_state.shard_id,
                                    apply_state.congestion_info@[j],
                                ),
                                saturated: false,
                            }),
                    decreases apply_state.congestion_info@.len() - i,
                {
                    let entry = apply_state.congestion_info[i];
                    let gas_limit = if entry.shard_id != apply_state.shard_id {
                        entry.congestion.outgoing_gas_limit
                    } else {
                        // No gas limit on receipts that stay on the same
                        // shard: backpressure would not help, the receipt
                        // takes the same memory buffered or delayed.
                        Gas::MAX
                    };
                    let size_limit = entry.congestion.outgoing_size_limit;
                    entries.push(
                        OutgoingLimitEntry {
                            shard: entry.shard_id,
                            limit: OutgoingLimit { gas: gas_limit, size: size_limit },
                            saturated: false,
                        },
                    );
                    i = i + 1;
                }
                let outgoing_limit = OutgoingLimitMap { entries };
                proof {
                    assert forall|a: int, b: int|
                        0 <= a < b < outgoing_limit.entries@.len() implies outgoing_limit.entries@[a].shard
                        != outgoing_limit.entries@[b].shard by {
                        assert(outgoing_limit.entries@[a].shard
                            == apply_state.congestion_info@[a].shard_id);
                        assert(outgoing_limit.entries@[b].shard
                            == apply_state.congestion_info@[b].shard_id);
                    }
                }
                Ok(
                    ReceiptSink::V2(
                        ReceiptSinkV2 {
                            own_congestion_info,
                            outgoing_receipts: Vec::new(),
                            outgoing_limit,
                            bandwidth_scheduler_output,
                            protocol_version,
                        },
                    ),
                )
            },
            None => Ok(ReceiptSink::V1(ReceiptSinkV1 { outgoing_receipts: Vec::new() })),
        }
    }

    /// Forward receipts already in the buffers, as much as the limits
    /// allow; the legacy sink has no buffers and does nothing.
    pub fn forward_from_buffer(
        &mut self,
        state_update: &mut TrieUpdate,
        apply_state: &ApplyState,
    ) -> (r: Result<(), RuntimeError>)
        ensures
            (*old(self)) is V1 ==> r is Ok && *final(self) == *old(self) && *final(state_update)
                == *old(state_update),
            (*old(self)) is V2 ==> (*final(self)) is V2 && drain_all_relation(
                (*old(self))->V2_0,
                *old(state_update),
                (*final(self))->V2_0,
                *final(state_update),
                apply_state.config,
                r,
            ),
    {
        match self {
            ReceiptSink::V1(_inner) => Ok(()),
            ReceiptSink::V2(inner) => inner.forward_from_buffer(state_update, apply_state),
        }
    }

    /// Put a receipt in the outgoing receipts list (forward) if the
    /// congestion-preventing limits allow it; put it in the buffered
    /// receipts queue otherwise. The legacy sink always forwards.
    pub fn forward_or_buffer_receipt<P: EpochInfoProvider>(
        &mut self,
        receipt: Receipt,
        apply_state: &ApplyState,
        state_update: &mut TrieUpdate,
        epoch_info_provider: &P,
    ) -> (r: Result<(), RuntimeError>)
        ensures
            (*old(self)) is V1 ==> r is Ok && (*final(self)) is V1 && final(self).outgoing_view() == old(
                self,
            ).outgoing_view().push(receipt) && *final(state_update) == *old(state_update),
            (*old(self)) is V2 ==> (*final(self)) is V2 && forward_or_buffer_relation(
                (*old(self))->V2_0,
                (*final(self))->V2_0,
                *old(state_update),
                *final(state_update),
                receipt,
                epoch_info_provider.shard_of(receipt.receiver_id, apply_state.epoch_id),
                *apply_state,
                r,
            ),
    {
        match self {
            ReceiptSink::V1(inner) => {
                inner.forward(receipt);
                Ok(())
            },
            ReceiptSink::V2(inner) => inner.forward_or_buffer_receipt(
                receipt,
                apply_state,
                state_update,
                epoch_info_provider,
            ),
        }
    }

    /// The receipts forwarded so far.
    pub fn outgoing_receipts(&self) -> (r: &Vec<Receipt>)
        ensures
            r@ == self.outgoing_view(),
    {
        match self {
            ReceiptSink::V1(inner) => &inner.outgoing_receipts,
            ReceiptSink::V2(inner) => &inner.outgoing_receipts,
        }
    }

    /// Consume the sink into the receipts it forwarded.
    pub fn into_outgoing_receipts(self) -> (r: Vec<Receipt>)
        ensures
            r@ == self.outgoing_view(),
    {
        match self {
            ReceiptSink::V1(inner) => inner.outgoing_receipts,
            ReceiptSink::V2(inner) => inner.outgoing_receipts,
        }
    }

    /// The own congestion info this chunk will publish; absent in legacy
    /// mode.
    pub fn own_congestion_info(&self) -> (r: Option<CongestionInfo>)
        ensures
            (*self) is V1 ==> r is None,
            (*self) is V2 ==> r == Some((*self)->V2_0.own_congestion_info),
    {
        match self {
            ReceiptSink::V1(_) => None,
            ReceiptSink::V2(inner) => Some(inner.own_congestion_info),
        }
    }

    /// The bandwidth scheduler's output the sink was constructed with.
    pub fn bandwidth_scheduler_output(&self) -> (r: Option<BandwidthSchedulerOutput>)
        ensures
            (*self) is V1 ==> r is None,
            (*self) is V2 ==> r == (*self)->V2_0.bandwidth_scheduler_output,
    {
        match self {
            ReceiptSink::V1(_) => None,
            ReceiptSink::V2(inner) => inner.bandwidth_scheduler_output,
        }
    }

    /// Generate the chunk's bandwidth requests from the outgoing buffers;
    /// absent in legacy mode.
    pub fn generate_bandwidth_requests(&self, trie: &TrieUpdate) -> (r: Result<
        Option<BandwidthRequests>,
        StorageError,
    >)
        requires
            self.wf(),
        ensures
            (*self) is V1 ==> r == Ok::<Option<BandwidthRequests>, StorageError>(None),
            (*self) is V2 ==> bandwidth_requests_relation((*self)->V2_0, *trie, r),
    {
        match self {
            ReceiptSink::V1(_) => Ok(None),
            ReceiptSink::V2(inner) => inner.generate_bandwidth_requests(trie),
        }
    }
}

/// Whether `shard`'s metadata describes its whole buffer, so that a proper
/// bandwidth request can be made from the receipt groups. During a
/// protocol-upgrade window the buffer may hold legacy receipts the
/// metadata does not know; the counts then diverge.
pub open spec fn spec_proper_request(trie: TrieUpdate, shard: ShardId) -> bool {
    trie.outgoing_metadatas.has_metadata(shard) && trie.outgoing_metadatas.total_view(shard)
        == trie.outgoing_buffers.buffer_view(shard).len()
}

/// The values of the bandwidth request toward `shard`: derived from the
/// metadata's receipt-size groups when the metadata describes the whole
/// buffer, the basic maximal-receipt request otherwise.
pub open spec fn spec_request_values(
    trie: TrieUpdate,
    shard: ShardId,
    params: BandwidthSchedulerParams,
) -> Seq<u64> {
    if spec_proper_request(trie, shard) {
        let sizes = trie.outgoing_metadatas.groups_view(shard).map_values(
            |g: ReceiptGroup| g.size,
        );
        Seq::new(
            sizes.len(),
            |i: int| spec_requested_value(sizes, i, params.max_shard_bandwidth) as u64,
        )
    } else {
        spec_basic_request_values(params)
    }
}

/// The destinations that get a bandwidth request: those with a non-empty
/// outgoing buffer, in buffer storage order.
pub open spec fn spec_requested_shards(trie: TrieUpdate, shards: Seq<ShardId>) -> Seq<ShardId>
    decreases shards.len(),
{
    if shards.len() == 0 {
        Seq::empty()
    } else {
        let rest = spec_requested_shards(trie, shards.drop_last());
        if trie.outgoing_buffers.buffer_view(shards.last()).len() > 0 {
            rest.push(shards.last())
        } else {
            rest
        }
    }
}

/// The contract of bandwidth-request generation: nothing when the feature
/// is off; otherwise one request per destination with a non-empty buffer,
/// each derived from the metadata or basic as the metadata's readiness
/// dictates.
pub open spec fn bandwidth_requests_relation(
    v: ReceiptSinkV2,
    trie: TrieUpdate,
    r: Result<Option<BandwidthRequests>, StorageError>,
) -> bool {
    &&& !spec_bandwidth_scheduler_enabled(v.protocol_version) ==> r == Ok::<
        Option<BandwidthRequests>,
        StorageError,
    >(None)
    &&& spec_bandwidth_scheduler_enabled(v.protocol_version) ==> ({
        let params = v.bandwidth_scheduler_output->Some_0.params;
        let wanted = spec_requested_shards(trie, trie.outgoing_buffers.shards_view());
        &&& r is Ok
        &&& r->Ok_0 is Some
        &&& r->Ok_0->Some_0 is V1
        &&& r->Ok_0->Some_0->V1_0.requests@.len() == wanted.len()
        &&& forall|j: int|
            0 <= j < wanted.len() ==> (#[trigger] r->Ok_0->Some_0->V1_0.requests@[j]).to_shard
                == wanted[j] && r->Ok_0->Some_0->V1_0.requests@[j].requested_values@
                == spec_request_values(trie, wanted[j], params)
    })
}

/// How one offered receipt changes the congestion-aware sink: on overflow
/// of the receipt's own gas computation an error and no change; within the
/// limits, forwarded; otherwise buffered with the congestion totals and,
/// for tracked receipts, the metadata brought along. Forwarded and buffered
/// are exclusive, and together with the error case exhaustive.
pub open spec fn forward_or_buffer_relation(
    s0: ReceiptSinkV2,
    s1: ReceiptSinkV2,
    t0: TrieUpdate,
    t1: TrieUpdate,
    receipt: Receipt,
    shard: ShardId,
    apply_state: ApplyState,
    r: Result<(), RuntimeError>,
) -> bool {
    let gas = spec_receipt_gas(receipt, apply_state.config) as Gas;
    let size = receipt.size;
    let limit0 = spec_limit_for(s0.outgoing_limit, shard, apply_state.config);
    let may_forward = !spec_saturated_for(s0.outgoing_limit, shard) && spec_fits(
        limit0,
        gas,
        size,
    );
    let stored = spec_wrap_receipt(receipt, gas, size, apply_state.config.use_state_stored_receipt);
    let buffer_ok = s0.own_congestion_info.receipt_bytes + size <= u64::MAX
        && s0.own_congestion_info.buffered_receipts_gas + gas <= u128::MAX && (
    apply_state.config.use_state_stored_receipt ==> t0.outgoing_metadatas.spec_push_ok(
        shard,
        size,
        gas,
    ));
    &&& spec_receipt_gas_overflows(receipt, apply_state.config) ==> r == Err::<(), RuntimeError>(
        RuntimeError::UnexpectedIntegerOverflow,
    ) && s1 == s0 && t1 == t0
    &&& !spec_receipt_gas_overflows(receipt, apply_state.config) ==> {
        &&& s1.own_congestion_info.allowed_shard == s0.own_congestion_info.allowed_shard
        &&& s1.own_congestion_info.delayed_receipts_gas
            == s0.own_congestion_info.delayed_receipts_gas
        &&& s1.bandwidth_scheduler_output == s0.bandwidth_scheduler_output
        &&& s1.protocol_version == s0.protocol_version
        &&& s1.outgoing_limit.has_limit(shard)
        &&& forall|other: ShardId|
            other != shard ==> #[trigger] s1.outgoing_limit.has_limit(other)
                == s0.outgoing_limit.has_limit(other) && (s0.outgoing_limit.has_limit(other)
                ==> s1.outgoing_limit.limit_view(other) == s0.outgoing_limit.limit_view(other))
        &&& forall|other: ShardId|
            other != shard ==> #[trigger] spec_saturated_for(s1.outgoing_limit, other)
                == spec_saturated_for(s0.outgoing_limit, other)
        &&& s0.outgoing_limit.wf() ==> s1.outgoing_limit.wf()
        &&& t1.delayed_receipts == t0.delayed_receipts
        &&& may_forward ==> {
            &&& r is Ok
            &&& s1.outgoing_receipts@ == s0.outgoing_receipts@.push(receipt)
            &&& s1.outgoing_limit.limit_view(shard) == (OutgoingLimit {
                gas: (limit0.gas - gas) as Gas,
                size: (limit0.size - size) as u64,
            })
            &&& !spec_saturated_for(s1.outgoing_limit, shard)
            &&& s1.own_congestion_info == s0.own_congestion_info
            &&& t1 == t0
        }
        &&& !may_forward ==> {
            &&& s1.outgoing_limit.limit_view(shard) == limit0
            &&& spec_saturated_for(s1.outgoing_limit, shard)
            &&& buffer_ok ==> r is Ok && ({
                &&& s1.outgoing_receipts@ == s0.outgoing_receipts@
                &&& s1.own_congestion_info == (CongestionInfo {
                    receipt_bytes: (s0.own_congestion_info.receipt_bytes + size) as u64,
                    buffered_receipts_gas: (s0.own_congestion_info.buffered_receipts_gas
                        + gas) as u128,
                    ..s0.own_congestion_info
                })
                &&& buffer_push_relation(t0.outgoing_buffers, t1.outgoing_buffers, shard, stored)
                &&& apply_state.config.use_state_stored_receipt ==> meta_push_relation(
                    t0.outgoing_metadatas,
                    t1.outgoing_metadatas,
                    shard,
                    size,
                    gas,
                )
                &&& !apply_state.config.use_state_stored_receipt ==> t1.outgoing_metadatas
                    == t0.outgoing_metadatas
            })
            &&& !buffer_ok ==> r == Err::<(), RuntimeError>(
                RuntimeError::UnexpectedIntegerOverflow,
            ) && s1.outgoing_receipts@ == s0.outgoing_receipts@ && s1.own_congestion_info
                == s0.own_congestion_info && t1 == t0
        }
    }
}

/// Destination `d` carries exactly the state `s0`/`t0` gave it: the same
/// buffer, limit entry, saturation and metadata.
pub open spec fn spec_dest_untouched(
    s0: ReceiptSinkV2,
    t0: TrieUpdate,
    s: ReceiptSinkV2,
    t: TrieUpdate,
    d: ShardId,
) -> bool {
    &&& t.outgoing_buffers.buffer_view(d) == t0.outgoing_buffers.buffer_view(d)
    &&& s.outgoing_limit.has_limit(d) == s0.outgoing_limit.has_limit(d)
    &&& s0.outgoing_limit.has_limit(d) ==> s.outgoing_limit.limit_view(d)
        == s0.outgoing_limit.limit_view(d)
    &&& spec_saturated_for(s.outgoing_limit, d) == spec_saturated_for(s0.outgoing_limit, d)
    &&& t.outgoing_metadatas.has_metadata(d) == t0.outgoing_metadatas.has_metadata(d)
    &&& t0.outgoing_metadatas.has_metadata(d) ==> t.outgoing_metadatas.total_view(d)
        == t0.outgoing_metadatas.total_view(d) && t.outgoing_metadatas.groups_view(d)
        == t0.outgoing_metadatas.groups_view(d)
}

/// Destination `d` stands exactly where one drain from the state `s0`/`t0`
/// leaves it: its buffer lost the drained prefix, its limit is reduced by
/// the prefix's weight, it is saturated when receipts remain, and its
/// metadata followed the replay of the popped receipts.
pub open spec fn spec_dest_drained(
    s0: ReceiptSinkV2,
    t0: TrieUpdate,
    s: ReceiptSinkV2,
    t: TrieUpdate,
    d: ShardId,
    config: RuntimeConfig,
) -> bool {
    let buf0 = t0.outgoing_buffers.buffer_view(d);
    let limit0 = spec_limit_for(s0.outgoing_limit, d, config);
    let sat0 = spec_saturated_for(s0.outgoing_limit, d);
    let n = if sat0 {
        0
    } else {
        spec_drain_count(buf0, limit0.gas, limit0.size, config)
    };
    let has0 = t0.outgoing_metadatas.has_metadata(d);
    let total0: u64 = if has0 {
        t0.outgoing_metadatas.total_view(d)
    } else {
        0
    };
    let groups0 = if has0 {
        t0.outgoing_metadatas.groups_view(d)
    } else {
        Seq::<ReceiptGroup>::empty()
    };
    let sim = spec_meta_drain(has0, total0, groups0, buf0.take(n), config);
    &&& t.outgoing_buffers.buffer_view(d) == buf0.skip(n)
    &&& s.outgoing_limit.has_limit(d)
    &&& spec_limit_for(s.outgoing_limit, d, config).gas + sum_stored_gas(buf0.take(n), config)
        == limit0.gas
    &&& spec_limit_for(s.outgoing_limit, d, config).size + sum_stored_size(buf0.take(n))
        == limit0.size
    &&& spec_saturated_for(s.outgoing_limit, d) == (sat0 || buf0.skip(n).len() > 0)
    &&& t.outgoing_metadatas.has_metadata(d) == has0
    &&& has0 ==> t.outgoing_metadatas.total_view(d) == sim.1 && t.outgoing_metadatas.groups_view(d)
        == sim.2
}

/// The stored receipts a full drain pass pops, in the limit map's storage
/// order of destinations: for each destination, the prefix of its buffer
/// that its limit admits as the chunk began, nothing when it was already
/// saturated.
pub open spec fn spec_drained_stored(
    m0: OutgoingLimitMap,
    t0: TrieUpdate,
    shards: Seq<ShardId>,
    config: RuntimeConfig,
) -> Seq<ReceiptOrStateStoredReceipt>
    decreases shards.len(),
{
    if shards.len() == 0 {
        Seq::empty()
    } else {
        let d = shards.last();
        let buf = t0.outgoing_buffers.buffer_view(d);
        let limit = spec_limit_for(m0, d, config);
        let n = if spec_saturated_for(m0, d) {
            0
        } else {
            spec_drain_count(buf, limit.gas, limit.size, config)
        };
        spec_drained_stored(m0, t0, shards.drop_last(), config) + buf.take(n)
    }
}

/// What every step of a drain pass maintains, whatever the set of
/// destinations: the delayed queue and the chunk-wide bookkeeping are
/// untouched, limits only decrease, saturation only spreads, and the
/// congestion totals keep tracking the queues.
pub open spec fn drain_all_progress(
    s0: ReceiptSinkV2,
    t0: TrieUpdate,
    s: ReceiptSinkV2,
    t: TrieUpdate,
    config: RuntimeConfig,
) -> bool {
    &&& t.delayed_receipts == t0.delayed_receipts
    &&& s.protocol_version == s0.protocol_version
    &&& s.bandwidth_scheduler_output == s0.bandwidth_scheduler_output
    &&& s.own_congestion_info.delayed_receipts_gas == s0.own_congestion_info.delayed_receipts_gas
    &&& s.own_congestion_info.allowed_shard == s0.own_congestion_info.allowed_shard
    &&& t.outgoing_buffers.shards_view() == t0.outgoing_buffers.shards_view()
    &&& t0.outgoing_buffers.wf() ==> t.outgoing_buffers.wf()
    &&& t0.outgoing_metadatas.wf() ==> t.outgoing_metadatas.wf()
    &&& t.outgoing_metadatas.groups_config == t0.outgoing_metadatas.groups_config
    &&& s0.outgoing_limit.wf() ==> s.outgoing_limit.wf()
    &&& forall|d: ShardId|
        #[trigger] spec_limit_for(s.outgoing_limit, d, config).gas <= spec_limit_for(
            s0.outgoing_limit,
            d,
            config,
        ).gas && spec_limit_for(s.outgoing_limit, d, config).size <= spec_limit_for(
            s0.outgoing_limit,
            d,
            config,
        ).size
    &&& (t0.outgoing_buffers.wf() && crate::queues::congestion_totals_match(
        s0.own_congestion_info,
        t0.delayed_receipts@,
        t0.outgoing_buffers.entries@,
        config,
    )) ==> crate::queues::congestion_totals_match(
        s.own_congestion_info,
        t.delayed_receipts@,
        t.outgoing_buffers.entries@,
        config,
    )
    &&& forall|d: ShardId|
        spec_saturated_for(s0.outgoing_limit, d) ==> #[trigger] spec_saturated_for(
            s.outgoing_limit,
            d,
        )
    &&& s.outgoing_receipts@.len() >= s0.outgoing_receipts@.len()
}

/// The work of a full drain pass, with each destination keyed once: every
/// destination with a limit entry is drained as far as its limit allows,
/// every other destination is untouched, and the outgoing list and the own
/// totals move by exactly the drained receipts, destination by destination
/// in the limit map's storage order, each buffer's prefix in order.
pub open spec fn drain_all_work(
    s0: ReceiptSinkV2,
    t0: TrieUpdate,
    s: ReceiptSinkV2,
    t: TrieUpdate,
    config: RuntimeConfig,
) -> bool {
    let drained = spec_drained_stored(
        s0.outgoing_limit,
        t0,
        s0.outgoing_limit.shards_view(),
        config,
    );
    &&& forall|d: ShardId|
        s0.outgoing_limit.has_limit(d) ==> #[trigger] spec_dest_drained(s0, t0, s, t, d, config)
    &&& forall|d: ShardId|
        !s0.outgoing_limit.has_limit(d) ==> #[trigger] spec_dest_untouched(s0, t0, s, t, d)
    &&& s.outgoing_receipts@ == s0.outgoing_receipts@ + drained.map_values(
        |st: ReceiptOrStateStoredReceipt| spec_inner_receipt(st),
    )
    &&& s.own_congestion_info.receipt_bytes + sum_stored_size(drained)
        == s0.own_congestion_info.receipt_bytes
    &&& s.own_congestion_info.buffered_receipts_gas + sum_stored_gas(drained, config)
        == s0.own_congestion_info.buffered_receipts_gas
}

/// The contract of a full drain pass over every destination with a limit
/// entry.
pub open spec fn drain_all_relation(
    s0: ReceiptSinkV2,
    t0: TrieUpdate,
    s1: ReceiptSinkV2,
    t1: TrieUpdate,
    config: RuntimeConfig,
    r: Result<(), RuntimeError>,
) -> bool {
    &&& r is Ok ==> drain_all_progress(s0, t0, s1, t1, config)
    &&& r is Ok && s0.outgoing_limit.wf() ==> drain_all_work(s0, t0, s1, t1, config)
    &&& r is Err ==> r == Err::<(), RuntimeError>(RuntimeError::UnexpectedIntegerOverflow) || r
        == Err::<(), RuntimeError>(
        RuntimeError::StorageError(StorageError::StorageInconsistentState),
    )
}

/// How many receipts a drain of this buffer forwards: the longest prefix
/// whose receipts each strictly fit the running limit. The first receipt
/// that does not fit stops the drain, whatever would fit behind it.
pub open spec fn spec_drain_count(
    buf: Seq<ReceiptOrStateStoredReceipt>,
    gas_limit: Gas,
    size_limit: u64,
    config: RuntimeConfig,
) -> int
    decreases buf.len(),
{
    if buf.len() == 0 {
        0
    } else if spec_stored_gas_overflows(buf[0], config) {
        0
    } else {
        let g = spec_stored_gas(buf[0], config) as Gas;
        let s = spec_stored_size(buf[0]) as u64;
        if gas_limit > g && size_limit > s {
            1 + spec_drain_count(
                buf.drop_first(),
                (gas_limit - g) as Gas,
                (size_limit - s) as u64,
                config,
            )
        } else {
            0
        }
    }
}

/// Whether a drain of this buffer hits a receipt whose gas cannot be
/// recomputed: only receipts the drain examines count.
pub open spec fn spec_drain_error(
    buf: Seq<ReceiptOrStateStoredReceipt>,
    gas_limit: Gas,
    size_limit: u64,
    config: RuntimeConfig,
) -> bool
    decreases buf.len(),
{
    if buf.len() == 0 {
        false
    } else if spec_stored_gas_overflows(buf[0], config) {
        true
    } else {
        let g = spec_stored_gas(buf[0], config) as Gas;
        let s = spec_stored_size(buf[0]) as u64;
        if gas_limit > g && size_limit > s {
            spec_drain_error(
                buf.drop_first(),
                (gas_limit - g) as Gas,
                (size_limit - s) as u64,
                config,
            )
        } else {
            false
        }
    }
}

pub proof fn lemma_drain_count_bounds(
    buf: Seq<ReceiptOrStateStoredReceipt>,
    gas_limit: Gas,
    size_limit: u64,
    config: RuntimeConfig,
)
    ensures
        0 <= spec_drain_count(buf, gas_limit, size_limit, config) <= buf.len(),
    decreases buf.len(),
{
    if buf.len() > 0 && !spec_stored_gas_overflows(buf[0], config) {
        let g = spec_stored_gas(buf[0], config) as Gas;
        let s = spec_stored_size(buf[0]) as u64;
        if gas_limit > g && size_limit > s {
            lemma_drain_count_bounds(
                buf.drop_first(),
                (gas_limit - g) as Gas,
                (size_limit - s) as u64,
                config,
            );
        }
    }
}

/// Ghost replay of one shard's metadata over the receipts a drain pops, in
/// order: a tracked receipt must be given up by the metadata, an untracked
/// one passes it by. Yields whether every step was consistent, and the
/// count and groups after.
pub open spec fn spec_meta_drain(
    has: bool,
    total: u64,
    groups: Seq<ReceiptGroup>,
    pops: Seq<ReceiptOrStateStoredReceipt>,
    config: RuntimeConfig,
) -> (bool, u64, Seq<ReceiptGroup>)
    decreases pops.len(),
{
    if pops.len() == 0 {
        (true, total, groups)
    } else {
        let stored = pops[0];
        if stored is StateStoredReceipt {
            let s = spec_stored_size(stored) as u64;
            let g = spec_stored_gas(stored, config) as Gas;
            if has && total >= 1 && spec_group_pop_ok(groups, s, g) {
                spec_meta_drain(
                    has,
                    (total - 1) as u64,
                    spec_groups_after_pop(groups, s, g),
                    pops.drop_first(),
                    config,
                )
            } else {
                (false, total, groups)
            }
        } else {
            spec_meta_drain(has, total, groups, pops.drop_first(), config)
        }
    }
}

/// One more popped receipt extends the metadata replay by one step.
pub proof fn lemma_meta_drain_snoc(
    has: bool,
    total: u64,
    groups: Seq<ReceiptGroup>,
    pops: Seq<ReceiptOrStateStoredReceipt>,
    x: ReceiptOrStateStoredReceipt,
    config: RuntimeConfig,
)
    ensures
        ({
            let pre = spec_meta_drain(has, total, groups, pops, config);
            spec_meta_drain(has, total, groups, pops.push(x), config) == (if !pre.0 {
                pre
            } else if x is StateStoredReceipt {
                let s = spec_stored_size(x) as u64;
                let g = spec_stored_gas(x, config) as Gas;
                if has && pre.1 >= 1 && spec_group_pop_ok(pre.2, s, g) {
                    (true, (pre.1 - 1) as u64, spec_groups_after_pop(pre.2, s, g))
                } else {
                    (false, pre.1, pre.2)
                }
            } else {
                pre
            })
        }),
    decreases pops.len(),
{
    if pops.len() == 0 {
        assert(pops.push(x).drop_first() =~= Seq::<ReceiptOrStateStoredReceipt>::empty());
        assert(pops.push(x)[0] == x);
    } else {
        assert(pops.push(x).drop_first() =~= pops.drop_first().push(x));
        assert(pops.push(x)[0] == pops[0]);
        let stored = pops[0];
        if stored is StateStoredReceipt {
            let s = spec_stored_size(stored) as u64;
            let g = spec_stored_gas(stored, config) as Gas;
            if has && total >= 1 && spec_group_pop_ok(groups, s, g) {
                lemma_meta_drain_snoc(
                    has,
                    (total - 1) as u64,
                    spec_groups_after_pop(groups, s, g),
                    pops.drop_first(),
                    x,
                    config,
                );
            }
        } else {
            lemma_meta_drain_snoc(has, total, groups, pops.drop_first(), x, config);
        }
    }
    reveal_with_fuel(spec_meta_drain, 3);
    let pre = spec_meta_drain(has, total, groups, pops, config);
    let rhs = if !pre.0 {
        pre
    } else if x is StateStoredReceipt {
        let s = spec_stored_size(x) as u64;
        let g = spec_stored_gas(x, config) as Gas;
        if has && pre.1 >= 1 && spec_group_pop_ok(pre.2, s, g) {
            (true, (pre.1 - 1) as u64, spec_groups_after_pop(pre.2, s, g))
        } else {
            (false, pre.1, pre.2)
        }
    } else {
        pre
    };
    assert(spec_meta_drain(has, total, groups, pops.push(x), config) =~= rhs);
}

/// A failed replay stays failed when more pops follow.
pub proof fn lemma_meta_drain_prefix_fail(
    has: bool,
    total: u64,
    groups: Seq<ReceiptGroup>,
    pops: Seq<ReceiptOrStateStoredReceipt>,
    j: int,
    config: RuntimeConfig,
)
    requires
        0 <= j <= pops.len(),
        !spec_meta_drain(has, total, groups, pops.take(j), config).0,
    ensures
        !spec_meta_drain(has, total, groups, pops, config).0,
    decreases pops.len() - j,
{
    if j < pops.len() {
        assert(pops.take(j + 1) =~= pops.take(j).push(pops[j]));
        lemma_meta_drain_snoc(has, total, groups, pops.take(j), pops[j], config);
        lemma_meta_drain_prefix_fail(has, total, groups, pops, j + 1, config);
    } else {
        assert(pops.take(j) =~= pops);
    }
}

/// What a drain of `shard`'s buffer leaves behind, after `k` receipts were
/// popped and forwarded: the buffer lost its first `k` receipts, they stand
/// at the end of the outgoing list in order, the destination's limit and
/// the own totals are reduced by their weight, the metadata followed the
/// replay, and nothing else moved.
pub open spec fn spec_drain_state(
    s0: ReceiptSinkV2,
    t0: TrieUpdate,
    s: ReceiptSinkV2,
    t: TrieUpdate,
    shard: ShardId,
    config: RuntimeConfig,
    k: int,
) -> bool {
    let buf0 = t0.outgoing_buffers.buffer_view(shard);
    let limit0 = spec_limit_for(s0.outgoing_limit, shard, config);
    let cur = spec_limit_for(s.outgoing_limit, shard, config);
    let has0 = t0.outgoing_metadatas.has_metadata(shard);
    let total0: u64 = if has0 {
        t0.outgoing_metadatas.total_view(shard)
    } else {
        0
    };
    let groups0 = if has0 {
        t0.outgoing_metadatas.groups_view(shard)
    } else {
        Seq::<ReceiptGroup>::empty()
    };
    let sim = spec_meta_drain(has0, total0, groups0, buf0.take(k), config);
    &&& 0 <= k <= buf0.len()
    &&& buf0.len() == 0 ==> s == s0 && t == t0
    &&& t.outgoing_buffers.buffer_view(shard) == buf0.skip(k)
    &&& forall|other: ShardId|
        other != shard ==> #[trigger] t.outgoing_buffers.buffer_view(other)
            == t0.outgoing_buffers.buffer_view(other)
    &&& t.outgoing_buffers.shards_view() == t0.outgoing_buffers.shards_view()
    &&& t0.outgoing_buffers.wf() ==> t.outgoing_buffers.wf()
    &&& t.delayed_receipts == t0.delayed_receipts
    &&& s.outgoing_receipts@ == s0.outgoing_receipts@ + buf0.take(k).map_values(
        |st: ReceiptOrStateStoredReceipt| spec_inner_receipt(st),
    )
    &&& spec_drain_count(buf0, limit0.gas, limit0.size, config) == k + spec_drain_count(
        buf0.skip(k),
        cur.gas,
        cur.size,
        config,
    )
    &&& spec_drain_error(buf0, limit0.gas, limit0.size, config) == spec_drain_error(
        buf0.skip(k),
        cur.gas,
        cur.size,
        config,
    )
    &&& cur.gas + sum_stored_gas(buf0.take(k), config) == limit0.gas
    &&& cur.size + sum_stored_size(buf0.take(k)) == limit0.size
    &&& k > 0 ==> s.outgoing_limit.has_limit(shard)
    &&& forall|other: ShardId|
        other != shard ==> #[trigger] s.outgoing_limit.has_limit(other)
            == s0.outgoing_limit.has_limit(other) && (s0.outgoing_limit.has_limit(other)
            ==> s.outgoing_limit.limit_view(other) == s0.outgoing_limit.limit_view(other))
    &&& s0.outgoing_limit.has_limit(shard) ==> s.outgoing_limit.has_limit(shard)
        && s.outgoing_limit.shards_view() == s0.outgoing_limit.shards_view()
    &&& !s0.outgoing_limit.has_limit(shard) ==> ((!s.outgoing_limit.has_limit(shard)
        && s.outgoing_limit.shards_view() == s0.outgoing_limit.shards_view()) || (
    s.outgoing_limit.has_limit(shard) && s.outgoing_limit.shards_view()
        == s0.outgoing_limit.shards_view().push(shard)))
    &&& s0.outgoing_limit.wf() ==> s.outgoing_limit.wf()
    &&& s.own_congestion_info.receipt_bytes + sum_stored_size(buf0.take(k))
        == s0.own_congestion_info.receipt_bytes
    &&& s.own_congestion_info.buffered_receipts_gas + sum_stored_gas(buf0.take(k), config)
        == s0.own_congestion_info.buffered_receipts_gas
    &&& s.own_congestion_info.delayed_receipts_gas == s0.own_congestion_info.delayed_receipts_gas
    &&& s.own_congestion_info.allowed_shard == s0.own_congestion_info.allowed_shard
    &&& s.bandwidth_scheduler_output == s0.bandwidth_scheduler_output
    &&& s.protocol_version == s0.protocol_version
    &&& sim.0
    &&& has0 ==> t.outgoing_metadatas.has_metadata(shard) && t.outgoing_metadatas.total_view(shard)
        == sim.1 && t.outgoing_metadatas.groups_view(shard) == sim.2
    &&& !has0 ==> t.outgoing_metadatas == t0.outgoing_metadatas
    &&& forall|other: ShardId|
        other != shard ==> #[trigger] t.outgoing_metadatas.has_metadata(other)
            == t0.outgoing_metadatas.has_metadata(other) && (t0.outgoing_metadatas.has_metadata(
            other,
        ) ==> t.outgoing_metadatas.total_view(other) == t0.outgoing_metadatas.total_view(other)
            && t.outgoing_metadatas.groups_view(other) == t0.outgoing_metadatas.groups_view(other))
    &&& t.outgoing_metadatas.groups_config == t0.outgoing_metadatas.groups_config
    &&& t0.outgoing_metadatas.wf() ==> t.outgoing_metadatas.wf()
}

/// The contract of draining one destination: success exactly when no
/// examined receipt's gas overflows, the own totals cover what is popped,
/// and the metadata replay is consistent; the state then is the drain state
/// at the drain count.
pub open spec fn drain_shard_relation(
    s0: ReceiptSinkV2,
    t0: TrieUpdate,
    s1: ReceiptSinkV2,
    t1: TrieUpdate,
    shard: ShardId,
    config: RuntimeConfig,
    r: Result<(), RuntimeError>,
) -> bool {
    let buf0 = t0.outgoing_buffers.buffer_view(shard);
    let limit0 = spec_limit_for(s0.outgoing_limit, shard, config);
    let sat0 = spec_saturated_for(s0.outgoing_limit, shard);
    let n = if sat0 {
        0
    } else {
        spec_drain_count(buf0, limit0.gas, limit0.size, config)
    };
    let pops = buf0.take(n);
    let has0 = t0.outgoing_metadatas.has_metadata(shard);
    let total0: u64 = if has0 {
        t0.outgoing_metadatas.total_view(shard)
    } else {
        0
    };
    let groups0 = if has0 {
        t0.outgoing_metadatas.groups_view(shard)
    } else {
        Seq::<ReceiptGroup>::empty()
    };
    let ok = sat0 || (!spec_drain_error(buf0, limit0.gas, limit0.size, config)
        && s0.own_congestion_info.receipt_bytes >= sum_stored_size(pops)
        && s0.own_congestion_info.buffered_receipts_gas >= sum_stored_gas(pops, config)
        && spec_meta_drain(has0, total0, groups0, pops, config).0);
    &&& ok <==> r is Ok
    &&& r is Ok ==> spec_drain_state(s0, t0, s1, t1, shard, config, n)
    // a destination refused once stays saturated; a drain that stops while
    // receipts remain saturates the destination
    &&& r is Ok ==> spec_saturated_for(s1.outgoing_limit, shard) == (sat0
        || t1.outgoing_buffers.buffer_view(shard).len() > 0)
    &&& r is Ok ==> forall|other: ShardId|
        other != shard ==> #[trigger] spec_saturated_for(s1.outgoing_limit, other)
            == spec_saturated_for(s0.outgoing_limit, other)
    &&& r is Err ==> r == Err::<(), RuntimeError>(RuntimeError::UnexpectedIntegerOverflow) || r
        == Err::<(), RuntimeError>(
        RuntimeError::StorageError(StorageError::StorageInconsistentState),
    )
}

} // verus!
