//! Per-destination outgoing-buffer metadata.
//!
//! For every destination shard the metadata summarises the still-buffered
//! receipts as a bounded list of receipt groups: consecutive receipts are
//! coalesced into the last group while it is below the configured size
//! threshold. The metadata also counts the tracked receipts; the bandwidth
//! synthesiser compares that count with the buffer length to detect buffers
//! holding legacy receipts the metadata does not know.

use vstd::prelude::*;

use crate::errors::{RuntimeError, StorageError};
use crate::types::{Gas, ShardId};

verus! {

/// A size bucket of consecutive buffered receipts.
#[derive(Debug, Clone, Copy, PartialEq, Eq, Structural)]
pub struct ReceiptGroup {
    /// Number of receipts in the group.
    pub count: u64,
    /// Sum of the receipts' congestion sizes.
    pub size: u64,
    /// Sum of the receipts' congestion gas.
    pub gas: Gas,
}

/// Grouping rule for outgoing-buffer metadata.
#[derive(Debug, Clone, Copy, PartialEq, Eq, Structural)]
pub struct ReceiptGroupsConfig {
    /// A receipt joins the last group only while that group is smaller than
    /// this many bytes; otherwise it starts a new group.
    pub group_size_threshold: u64,
}

/// Default group size threshold, in bytes.
pub const RECEIPT_GROUP_SIZE_THRESHOLD: u64 = 100000;

impl ReceiptGroupsConfig {
    /// The grouping rule used by the protocol.
    pub fn default_config() -> (r: Self)
        ensures
            r.group_size_threshold == RECEIPT_GROUP_SIZE_THRESHOLD,
    {
        ReceiptGroupsConfig { group_size_threshold: RECEIPT_GROUP_SIZE_THRESHOLD }
    }
}

/// Metadata of one destination's outgoing buffer.
#[derive(Debug, Clone, PartialEq, Eq)]
pub struct ShardOutgoingMetadata {
    /// Number of tracked receipts in the buffer.
    pub total_receipts: u64,
    /// Size buckets of the tracked receipts, oldest first.
    pub groups: Vec<ReceiptGroup>,
}

impl ShardOutgoingMetadata {
    /// Number of tracked receipts in the buffer.
    pub fn total_receipts_num(&self) -> (r: u64)
        ensures
            r == self.total_receipts,
    {
        self.total_receipts
    }

    /// The sizes of the receipt groups, oldest first.
    pub fn receipt_group_sizes(&self) -> (r: Vec<u64>)
        ensures
            r@ == self.groups@.map_values(|g: ReceiptGroup| g.size),
    {
        let mut sizes: Vec<u64> = Vec::new();
        let mut k: usize = 0;
        while k < self.groups.len()
            invariant
                k <= self.groups@.len(),
                sizes@ =~= self.groups@.take(k as int).map_values(|g: ReceiptGroup| g.size),
            decreases self.groups@.len() - k,
        {
            sizes.push(self.groups[k].size);
            proof {
                assert(sizes@ =~= self.groups@.take(k + 1).map_values(|g: ReceiptGroup| g.size));
            }
            k = k + 1;
        }
        proof {
            assert(self.groups@.take(self.groups@.len() as int) =~= self.groups@);
        }
        sizes
    }
}

/// Whether appending a receipt of `size` and `gas` to the groups would
/// overflow a counter of the group it joins.
pub open spec fn spec_group_push_overflows(
    groups: Seq<ReceiptGroup>,
    size: u64,
    gas: Gas,
    threshold: u64,
) -> bool {
    groups.len() > 0 && groups.last().size < threshold && (groups.last().count + 1 > u64::MAX
        || groups.last().size + size > u64::MAX || groups.last().gas + gas > u64::MAX)
}

/// The receipt groups after a receipt of `size` and `gas` is appended:
/// added to the last group while that group is below the threshold, opening
/// a new group otherwise. Meaningful only when the push does not overflow.
pub open spec fn spec_groups_after_push(
    groups: Seq<ReceiptGroup>,
    size: u64,
    gas: Gas,
    threshold: u64,
) -> Seq<ReceiptGroup> {
    if groups.len() > 0 && groups.last().size < threshold {
        groups.update(
            groups.len() - 1,
            (ReceiptGroup {
                count: (groups.last().count + 1) as u64,
                size: (groups.last().size + size) as u64,
                gas: (groups.last().gas + gas) as Gas,
            }),
        )
    } else {
        groups.push(ReceiptGroup { count: 1, size, gas })
    }
}

/// Whether the first group can give up a receipt of `size` and `gas`.
pub open spec fn spec_group_pop_ok(groups: Seq<ReceiptGroup>, size: u64, gas: Gas) -> bool {
    groups.len() > 0 && groups[0].count >= 1 && groups[0].size >= size && groups[0].gas >= gas
}

/// The receipt groups after the oldest tracked receipt, of `size` and
/// `gas`, leaves: subtracted from the first group, which is dropped once
/// emptied. Meaningful only when the pop is consistent.
pub open spec fn spec_groups_after_pop(groups: Seq<ReceiptGroup>, size: u64, gas: Gas) -> Seq<
    ReceiptGroup,
> {
    if groups[0].count == 1 {
        groups.drop_first()
    } else {
        groups.update(
            0,
            (ReceiptGroup {
                count: (groups[0].count - 1) as u64,
                size: (groups[0].size - size) as u64,
                gas: (groups[0].gas - gas) as Gas,
            }),
        )
    }
}

/// One destination's metadata.
#[derive(Debug, Clone, PartialEq, Eq)]
pub struct MetadataEntry {
    pub shard: ShardId,
    pub metadata: ShardOutgoingMetadata,
}

/// Index of the first metadata entry for `shard`, or -1 when there is none.
pub open spec fn spec_find_meta(entries: Seq<MetadataEntry>, shard: ShardId) -> int
    decreases entries.len(),
{
    if entries.len() == 0 {
        -1
    } else if entries[0].shard == shard {
        0
    } else {
        let rest = spec_find_meta(entries.drop_first(), shard);
        if rest < 0 {
            -1
        } else {
            1 + rest
        }
    }
}

pub proof fn lemma_find_meta_props(entries: Seq<MetadataEntry>, shard: ShardId)
    ensures
        -1 <= spec_find_meta(entries, shard) < entries.len(),
        spec_find_meta(entries, shard) >= 0 ==> entries[spec_find_meta(entries, shard)].shard
            == shard && forall|i: int|
            0 <= i < spec_find_meta(entries, shard) ==> entries[i].shard != shard,
        spec_find_meta(entries, shard) == -1 ==> forall|i: int|
            0 <= i < entries.len() ==> entries[i].shard != shard,
    decreases entries.len(),
{
    if entries.len() > 0 && entries[0].shard != shard {
        lemma_find_meta_props(entries.drop_first(), shard);
        let rest = spec_find_meta(entries.drop_first(), shard);
        if rest < 0 {
            assert forall|i: int| 0 <= i < entries.len() implies entries[i].shard != shard by {
                if i > 0 {
                    assert(entries[i] == entries.drop_first()[i - 1]);
                }
            }
        } else {
            assert(entries[1 + rest] == entries.drop_first()[rest]);
            assert forall|i: int| 0 <= i < 1 + rest implies entries[i].shard != shard by {
                if i > 0 {
                    assert(entries[i] == entries.drop_first()[i - 1]);
                }
            }
        }
    }
}

pub proof fn lemma_find_meta_first(entries: Seq<MetadataEntry>, shard: ShardId, k: int)
    requires
        0 <= k < entries.len(),
        entries[k].shard == shard,
        forall|i: int| 0 <= i < k ==> entries[i].shard != shard,
    ensures
        spec_find_meta(entries, shard) == k,
    decreases k,
{
    if k > 0 {
        lemma_find_meta_first(entries.drop_first(), shard, k - 1);
    }
}

pub proof fn lemma_find_meta_none(entries: Seq<MetadataEntry>, shard: ShardId)
    requires
        forall|i: int| 0 <= i < entries.len() ==> entries[i].shard != shard,
    ensures
        spec_find_meta(entries, shard) == -1,
    decreases entries.len(),
{
    if entries.len() > 0 {
        lemma_find_meta_none(entries.drop_first(), shard);
    }
}

pub proof fn lemma_find_meta_same_shards(
    a: Seq<MetadataEntry>,
    b: Seq<MetadataEntry>,
    shard: ShardId,
)
    requires
        a.len() == b.len(),
        forall|i: int| 0 <= i < a.len() ==> a[i].shard == b[i].shard,
    ensures
        spec_find_meta(a, shard) == spec_find_meta(b, shard),
    decreases a.len(),
{
    if a.len() > 0 {
        assert(a[0].shard == b[0].shard);
        lemma_find_meta_same_shards(a.drop_first(), b.drop_first(), shard);
    }
}

/// The mapping from destination shard to its outgoing-buffer metadata.
#[derive(Debug, Clone, PartialEq, Eq)]
pub struct OutgoingMetadatas {
    pub entries: Vec<MetadataEntry>,
    pub groups_config: ReceiptGroupsConfig,
}

/// How the metadata changes when a tracked receipt of `size` and `gas`
/// enters `shard`'s outgoing buffer: that shard's count grows by one and
/// its groups absorb the receipt, creating the metadata when the shard had
/// none; every other shard's metadata is untouched.
pub open spec fn meta_push_relation(
    m0: OutgoingMetadatas,
    m1: OutgoingMetadatas,
    shard: ShardId,
    size: u64,
    gas: Gas,
) -> bool {
    &&& m1.has_metadata(shard)
    &&& m0.has_metadata(shard) ==> m1.total_view(shard) == m0.total_view(shard) + 1
        && m1.groups_view(shard) == spec_groups_after_push(
        m0.groups_view(shard),
        size,
        gas,
        m0.groups_config.group_size_threshold,
    )
    &&& !m0.has_metadata(shard) ==> m1.total_view(shard) == 1 && m1.groups_view(shard) == seq![
        (ReceiptGroup { count: 1, size, gas }),
    ]
    &&& forall|other: ShardId|
        other != shard ==> #[trigger] m1.has_metadata(other) == m0.has_metadata(other) && (
        m0.has_metadata(other) ==> m1.total_view(other) == m0.total_view(other)
            && m1.groups_view(other) == m0.groups_view(other))
    &&& m1.groups_config == m0.groups_config
    &&& m0.wf() ==> m1.wf()
}

/// How the metadata changes when the oldest tracked receipt of `size` and
/// `gas` leaves `shard`'s outgoing buffer: that shard's count drops by one
/// and its first group gives the receipt up; every other shard's metadata
/// is untouched.
pub open spec fn meta_pop_relation(
    m0: OutgoingMetadatas,
    m1: OutgoingMetadatas,
    shard: ShardId,
    size: u64,
    gas: Gas,
) -> bool {
    &&& m1.has_metadata(shard)
    &&& m1.total_view(shard) == m0.total_view(shard) - 1
    &&& m1.groups_view(shard) == spec_groups_after_pop(m0.groups_view(shard), size, gas)
    &&& forall|other: ShardId|
        other != shard ==> #[trigger] m1.has_metadata(other) == m0.has_metadata(other) && (
        m0.has_metadata(other) ==> m1.total_view(other) == m0.total_view(other)
            && m1.groups_view(other) == m0.groups_view(other))
    &&& m1.groups_config == m0.groups_config
    &&& m0.wf() ==> m1.wf()
}

impl OutgoingMetadatas {
    /// Whether `shard` has metadata.
    pub open spec fn has_metadata(&self, shard: ShardId) -> bool {
        spec_find_meta(self.entries@, shard) >= 0
    }

    /// The tracked-receipt count of `shard`'s metadata.
    pub open spec fn total_view(&self, shard: ShardId) -> u64 {
        self.entries@[spec_find_meta(self.entries@, shard)].metadata.total_receipts
    }

    /// The receipt groups of `shard`'s metadata.
    pub open spec fn groups_view(&self, shard: ShardId) -> Seq<ReceiptGroup> {
        self.entries@[spec_find_meta(self.entries@, shard)].metadata.groups@
    }

    /// Each shard has at most one metadata entry.
    pub open spec fn wf(&self) -> bool {
        forall|i: int, j: int|
            0 <= i < j < self.entries@.len() ==> self.entries@[i].shard != self.entries@[j].shard
    }

    /// Whether recording one more tracked receipt for `shard` stays within
    /// the counters.
    pub open spec fn spec_push_ok(&self, shard: ShardId, size: u64, gas: Gas) -> bool {
        !self.has_metadata(shard) || (self.total_view(shard) + 1 <= u64::MAX
            && !spec_group_push_overflows(
            self.groups_view(shard),
            size,
            gas,
            self.groups_config.group_size_threshold,
        ))
    }

    /// Whether `shard`'s metadata can give up its oldest tracked receipt.
    pub open spec fn spec_pop_ok(&self, shard: ShardId, size: u64, gas: Gas) -> bool {
        self.has_metadata(shard) && self.total_view(shard) >= 1 && spec_group_pop_ok(
            self.groups_view(shard),
            size,
            gas,
        )
    }

    pub fn new(groups_config: ReceiptGroupsConfig) -> (r: Self)
        ensures
            r.entries@.len() == 0,
            r.groups_config == groups_config,
            r.wf(),
            forall|shard: ShardId| !r.has_metadata(shard),
    {
        let r = OutgoingMetadatas { entries: Vec::new(), groups_config };
        proof {
            assert forall|shard: ShardId| !r.has_metadata(shard) by {
                lemma_find_meta_props(r.entries@, shard);
            }
        }
        r
    }

    fn find_index(&self, shard: ShardId) -> (r: Option<usize>)
        ensures
            match r {
                Some(i) => i < self.entries@.len() && spec_find_meta(self.entries@, shard)
                    == i && self.entries@[i as int].shard == shard,
                None => spec_find_meta(self.entries@, shard) == -1,
            },
    {
        let mut k: usize = 0;
        while k < self.entries.len()
            invariant
                k <= self.entries@.len(),
                forall|i: int| 0 <= i < k ==> self.entries@[i].shard != shard,
            decreases self.entries@.len() - k,
        {
            if self.entries[k].shard == shard {
                proof {
                    lemma_find_meta_first(self.entries@, shard, k as int);
                }
                return Some(k);
            }
            k = k + 1;
        }
        proof {
            lemma_find_meta_none(self.entries@, shard);
        }
        None
    }

    /// The metadata of `shard`'s outgoing buffer, when any receipt of that
    /// buffer has been tracked.
    pub fn get_metadata_for_shard(&self, shard: ShardId) -> (r: Option<&ShardOutgoingMetadata>)
        ensures
            self.has_metadata(shard) ==> r is Some && r->Some_0.total_receipts == self.total_view(
                shard,
            ) && r->Some_0.groups@ == self.groups_view(shard),
            !self.has_metadata(shard) ==> r is None,
    {
        match self.find_index(shard) {
            Some(i) => Some(&self.entries[i].metadata),
            None => None,
        }
    }

    /// Record a tracked receipt entering `shard`'s outgoing buffer.
    pub fn update_on_receipt_pushed(&mut self, shard: ShardId, size: u64, gas: Gas) -> (r: Result<
        (),
        RuntimeError,
    >)
        ensures
            old(self).spec_push_ok(shard, size, gas) ==> r is Ok && meta_push_relation(
                *old(self),
                *final(self),
                shard,
                size,
                gas,
            ),
            !old(self).spec_push_ok(shard, size, gas) ==> r == Err::<(), RuntimeError>(
                RuntimeError::UnexpectedIntegerOverflow,
            ) && *final(self) == *old(self),
            final(self).groups_config == old(self).groups_config,
    {
        let ghost old_entries = self.entries@;
        let threshold = self.groups_config.group_size_threshold;
        match self.find_index(shard) {
            Some(i) => {
                let new_total = match self.entries[i].metadata.total_receipts.checked_add(1) {
                    Some(t) => t,
                    None => {
                        return Err(RuntimeError::UnexpectedIntegerOverflow);
                    },
                };
                let glen = self.entries[i].metadata.groups.len();
                if glen > 0 && self.entries[i].metadata.groups[glen - 1].size < threshold {
                    let g = self.entries[i].metadata.groups[glen - 1];
                    let new_count = match g.count.checked_add(1) {
                        Some(c) => c,
                        None => {
                            return Err(RuntimeError::UnexpectedIntegerOverflow);
                        },
                    };
                    let new_size = match g.size.checked_add(size) {
                        Some(s) => s,
                        None => {
                            return Err(RuntimeError::UnexpectedIntegerOverflow);
                        },
                    };
                    let new_gas = match g.gas.checked_add(gas) {
                        Some(s) => s,
                        None => {
                            return Err(RuntimeError::UnexpectedIntegerOverflow);
                        },
                    };
                    self.entries[i].metadata.groups[glen - 1] = ReceiptGroup {
                        count: new_count,
                        size: new_size,
                        gas: new_gas,
                    };
                    self.entries[i].metadata.total_receipts = new_total;
                } else {
                    self.entries[i].metadata.groups.push(ReceiptGroup { count: 1, size, gas });
                    self.entries[i].metadata.total_receipts = new_total;
                }
                proof {
                    let new_entries = self.entries@;
                    assert(forall|t: int|
                        0 <= t < old_entries.len() ==> old_entries[t].shard == new_entries[t].shard);
                    assert forall|s: ShardId| true implies spec_find_meta(new_entries, s)
                        == spec_find_meta(old_entries, s) by {
                        lemma_find_meta_same_shards(old_entries, new_entries, s);
                    }
                    assert forall|other: ShardId| other != shard implies #[trigger] final(self).has_metadata(other) == old(self).has_metadata(other) && (old(self).has_metadata(other) ==> final(self).total_view(other) == old(self).total_view(other) && final(self).groups_view(other) == old(self).groups_view(
                        other,
                    )) by {
                        lemma_find_meta_props(old_entries, other);
                    }
                    assert(final(self).groups_view(shard) =~= spec_groups_after_push(
                        old(self).groups_view(shard),
                        size,
                        gas,
                        old(self).groups_config.group_size_threshold,
                    ));
                }
                Ok(())
            },
            None => {
                proof {
                    lemma_find_meta_props(old_entries, shard);
                }
                let mut groups: Vec<ReceiptGroup> = Vec::new();
                groups.push(ReceiptGroup { count: 1, size, gas });
                let metadata = ShardOutgoingMetadata { total_receipts: 1, groups };
                self.entries.push(MetadataEntry { shard, metadata });
                proof {
                    let new_entries = self.entries@;
                    lemma_find_meta_first(new_entries, shard, old_entries.len() as int);
                    assert forall|other: ShardId| other != shard implies #[trigger] final(self).has_metadata(other) == old(self).has_metadata(other) && (old(self).has_metadata(other) ==> final(self).total_view(other) == old(self).total_view(other) && final(self).groups_view(other) == old(self).groups_view(
                        other,
                    )) by {
                        lemma_find_meta_props(old_entries, other);
                        let f = spec_find_meta(old_entries, other);
                        if f >= 0 {
                            lemma_find_meta_first(new_entries, other, f);
                        } else {
                            lemma_find_meta_none(new_entries, other);
                        }
                    }
                }
                Ok(())
            },
        }
    }

    /// Record the oldest tracked receipt leaving `shard`'s outgoing buffer.
    pub fn update_on_receipt_popped(&mut self, shard: ShardId, size: u64, gas: Gas) -> (r: Result<
        (),
        RuntimeError,
    >)
        ensures
            old(self).spec_pop_ok(shard, size, gas) ==> r is Ok && meta_pop_relation(
                *old(self),
                *final(self),
                shard,
                size,
                gas,
            ),
            !old(self).spec_pop_ok(shard, size, gas) ==> r == Err::<(), RuntimeError>(
                RuntimeError::StorageError(StorageError::StorageInconsistentState),
            ) && *final(self) == *old(self),
            final(self).groups_config == old(self).groups_config,
    {
        let ghost old_entries = self.entries@;
        match self.find_index(shard) {
            Some(i) => {
                if self.entries[i].metadata.total_receipts == 0
                    || self.entries[i].metadata.groups.len() == 0 {
                    return Err(RuntimeError::StorageError(StorageError::StorageInconsistentState));
                }
                let g = self.entries[i].metadata.groups[0];
                if g.count < 1 || g.size < size || g.gas < gas {
                    return Err(RuntimeError::StorageError(StorageError::StorageInconsistentState));
                }
                let new_total = self.entries[i].metadata.total_receipts - 1;
                if g.count == 1 {
                    let popped = self.entries[i].metadata.groups.remove(0);
                    proof {
                        assert(self.entries@[i as int].metadata.groups@ =~= old(self).groups_view(shard).drop_first());
                    }
                } else {
                    self.entries[i].metadata.groups[0] = ReceiptGroup {
                        count: g.count - 1,
                        size: g.size - size,
                        gas: g.gas - gas,
                    };
                }
                self.entries[i].metadata.total_receipts = new_total;
                proof {
                    let new_entries = self.entries@;
                    assert(forall|t: int|
                        0 <= t < old_entries.len() ==> old_entries[t].shard == new_entries[t].shard);
                    assert forall|s: ShardId| true implies spec_find_meta(new_entries, s)
                        == spec_find_meta(old_entries, s) by {
                        lemma_find_meta_same_shards(old_entries, new_entries, s);
                    }
                    assert forall|other: ShardId| other != shard implies #[trigger] final(self).has_metadata(other) == old(self).has_metadata(other) && (old(self).has_metadata(other) ==> final(self).total_view(other) == old(self).total_view(other) && final(self).groups_view(other) == old(self).groups_view(
                        other,
                    )) by {
                        lemma_find_meta_props(old_entries, other);
                    }
                }
                Ok(())
            },
            None => Err(RuntimeError::StorageError(StorageError::StorageInconsistentState)),
        }
    }
}

} // verus!
