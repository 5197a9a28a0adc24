//! Rebuilding the congestion info from the persisted queues.
//!
//! This scans every queue and is therefore meant only for the initial
//! construction of a shard's congestion info; in steady state the info is
//! carried from chunk to chunk through chunk headers.

use vstd::prelude::*;

use crate::config::RuntimeConfig;
use crate::congestion_info::CongestionInfo;
use crate::errors::{int_overflow_to_storage_err, overflow_storage_err, StorageError};
use crate::queues::{
    buffers_have_gas_overflow, has_gas_overflow, lemma_buffers_overflow_prefix,
    lemma_has_gas_overflow_prefix, lemma_spec_stored_gas_nonneg, lemma_sum_buffers_gas_nonneg,
    lemma_sum_buffers_size_nonneg, lemma_sum_stored_gas_nonneg, lemma_sum_stored_gas_prefix,
    lemma_sum_stored_gas_take_skip, lemma_sum_stored_size_nonneg, lemma_sum_stored_size_prefix,
    lemma_sum_stored_size_take_skip, sum_buffers_gas, sum_buffers_size, sum_stored_gas,
    sum_stored_size,
};
use crate::receipt::{receipt_congestion_gas, receipt_size, spec_stored_gas, spec_stored_size};
use crate::trie::TrieUpdate;
use crate::types::ShardId;

verus! {

/// Whether the sums over the persisted queues stay within their counters:
/// no per-receipt gas recomputation overflows, the gas totals fit the u128
/// accumulators, and the combined byte total fits a u64.
pub open spec fn spec_bootstrap_ok(trie: TrieUpdate, config: RuntimeConfig) -> bool {
    &&& !has_gas_overflow(trie.delayed_receipts@, config)
    &&& !buffers_have_gas_overflow(trie.outgoing_buffers.entries@, config)
    &&& sum_stored_gas(trie.delayed_receipts@, config) <= u128::MAX
    &&& sum_buffers_gas(trie.outgoing_buffers.entries@, config) <= u128::MAX
    &&& sum_stored_size(trie.delayed_receipts@) + sum_buffers_size(trie.outgoing_buffers.entries@)
        <= u64::MAX
}

/// The congestion info that a scan of the persisted queues yields.
pub open spec fn spec_bootstrap_result(
    trie: TrieUpdate,
    config: RuntimeConfig,
    shard_id: ShardId,
) -> CongestionInfo {
    CongestionInfo {
        delayed_receipts_gas: sum_stored_gas(trie.delayed_receipts@, config) as u128,
        buffered_receipts_gas: sum_buffers_gas(trie.outgoing_buffers.entries@, config) as u128,
        receipt_bytes: (sum_stored_size(trie.delayed_receipts@) + sum_buffers_size(
            trie.outgoing_buffers.entries@,
        )) as u64,
        allowed_shard: shard_id,
    }
}

/// Iterate every column holding unprocessed receipts and compute the
/// storage consumption and attached gas. An overflow anywhere is a
/// storage-inconsistency error.
pub fn bootstrap_congestion_info(
    trie: &TrieUpdate,
    config: &RuntimeConfig,
    shard_id: ShardId,
) -> (r: Result<CongestionInfo, StorageError>)
    ensures
        spec_bootstrap_ok(*trie, *config) ==> r == Ok::<CongestionInfo, StorageError>(
            spec_bootstrap_result(*trie, *config, shard_id),
        ),
        !spec_bootstrap_ok(*trie, *config) ==> r == Err::<CongestionInfo, StorageError>(
            StorageError::StorageInconsistentState,
        ),
{
    let ghost delayed = trie.delayed_receipts@;
    let ghost entries = trie.outgoing_buffers.entries@;
    let mut receipt_bytes: u64 = 0;
    let mut delayed_receipts_gas: u128 = 0;
    let mut buffered_receipts_gas: u128 = 0;

    proof {
        assert(delayed.take(0) =~= Seq::<crate::receipt::ReceiptOrStateStoredReceipt>::empty());
        lemma_sum_stored_size_nonneg(delayed);
        lemma_sum_stored_gas_nonneg(delayed, *config);
        lemma_sum_buffers_size_nonneg(entries);
        lemma_sum_buffers_gas_nonneg(entries, *config);
    }

    let delayed_len: usize = trie.delayed_receipts.receipts.len();
    let mut i: usize = 0;
    while i < delayed_len
        invariant
            delayed == trie.delayed_receipts@,
            entries == trie.outgoing_buffers.entries@,
            delayed_len == delayed.len(),
            i <= delayed.len(),
            !has_gas_overflow(delayed.take(i as int), *config),
            delayed_receipts_gas == sum_stored_gas(delayed.take(i as int), *config),
            receipt_bytes == sum_stored_size(delayed.take(i as int)),
        decreases delayed.len() - i,
    {
        proof {
            assert(delayed.take(i + 1).drop_last() =~= delayed.take(i as int));
            assert(delayed.take(i + 1).last() == delayed[i as int]);
            lemma_spec_stored_gas_nonneg(delayed[i as int], *config);
        }
        let stored = trie.delayed_receipts.get(i);
        let gas = match receipt_congestion_gas(stored, config) {
            Ok(g) => g,
            Err(e) => {
                proof {
                    lemma_has_gas_overflow_prefix(delayed, i + 1, *config);
                }
                return Err(int_overflow_to_storage_err(e));
            },
        };
        delayed_receipts_gas = match delayed_receipts_gas.checked_add(gas as u128) {
            Some(g) => g,
            None => {
                proof {
                    lemma_sum_stored_gas_take_skip(delayed, i + 1, *config);
                    lemma_sum_stored_gas_nonneg(delayed.skip(i + 1), *config);
                }
                return Err(overflow_storage_err());
            },
        };
        let memory = match receipt_size(stored) {
            Ok(s) => s,
            Err(e) => {
                proof {
                    assert(false);
                }
                return Err(int_overflow_to_storage_err(e));
            },
        };
        receipt_bytes = match receipt_bytes.checked_add(memory) {
            Some(b) => b,
            None => {
                proof {
                    lemma_sum_stored_size_take_skip(delayed, i + 1);
                    lemma_sum_stored_size_nonneg(delayed.skip(i + 1));
                    lemma_sum_buffers_size_nonneg(entries);
                }
                return Err(overflow_storage_err());
            },
        };
        i = i + 1;
    }
    proof {
        assert(delayed.take(delayed.len() as int) =~= delayed);
        assert(entries.take(0) =~= Seq::<crate::queues::ShardBufferEntry>::empty());
    }

    let buffers_len = trie.outgoing_buffers.entries.len();
    let mut j: usize = 0;
    while j < buffers_len
        invariant
            delayed == trie.delayed_receipts@,
            entries == trie.outgoing_buffers.entries@,
            buffers_len == entries.len(),
            j <= entries.len(),
            !has_gas_overflow(delayed, *config),
            delayed_receipts_gas == sum_stored_gas(delayed, *config),
            !buffers_have_gas_overflow(entries.take(j as int), *config),
            buffered_receipts_gas == sum_buffers_gas(entries.take(j as int), *config),
            receipt_bytes == sum_stored_size(delayed) + sum_buffers_size(entries.take(j as int)),
        decreases entries.len() - j,
    {
        let ghost receipts = entries[j as int].receipts@;
        proof {
            assert(entries.take(j + 1).drop_last() =~= entries.take(j as int));
            assert(entries.take(j + 1).last() == entries[j as int]);
            assert(receipts.take(0) =~= Seq::<
                crate::receipt::ReceiptOrStateStoredReceipt,
            >::empty());
            lemma_sum_stored_gas_nonneg(receipts, *config);
            lemma_sum_stored_size_nonneg(receipts);
        }
        let inner_len = trie.outgoing_buffers.entries[j].receipts.len();
        let mut k: usize = 0;
        while k < inner_len
            invariant
                delayed == trie.delayed_receipts@,
                entries == trie.outgoing_buffers.entries@,
                j < entries.len(),
                receipts == entries[j as int].receipts@,
                inner_len == receipts.len(),
                k <= receipts.len(),
                !has_gas_overflow(delayed, *config),
                delayed_receipts_gas == sum_stored_gas(delayed, *config),
                !buffers_have_gas_overflow(entries.take(j as int), *config),
                !has_gas_overflow(receipts.take(k as int), *config),
                buffered_receipts_gas == sum_buffers_gas(entries.take(j as int), *config)
                    + sum_stored_gas(receipts.take(k as int), *config),
                receipt_bytes == sum_stored_size(delayed) + sum_buffers_size(
                    entries.take(j as int),
                ) + sum_stored_size(receipts.take(k as int)),
            decreases receipts.len() - k,
        {
            proof {
                assert(receipts.take(k + 1).drop_last() =~= receipts.take(k as int));
                assert(receipts.take(k + 1).last() == receipts[k as int]);
                lemma_spec_stored_gas_nonneg(receipts[k as int], *config);
            }
            let stored = &trie.outgoing_buffers.entries[j].receipts[k];
            let gas = match receipt_congestion_gas(stored, config) {
                Ok(g) => g,
                Err(e) => {
                    proof {
                        lemma_has_gas_overflow_prefix(receipts, k + 1, *config);
                        assert(buffers_have_gas_overflow(entries.take(j + 1), *config));
                        lemma_buffers_overflow_prefix(entries, j + 1, *config);
                    }
                    return Err(int_overflow_to_storage_err(e));
                },
            };
            buffered_receipts_gas = match buffered_receipts_gas.checked_add(gas as u128) {
                Some(g) => g,
                None => {
                    proof {
                        lemma_bootstrap_buffer_gas_bound(entries, j as int, k + 1, *config);
                    }
                    return Err(overflow_storage_err());
                },
            };
            let memory = match receipt_size(stored) {
                Ok(s) => s,
                Err(e) => {
                    proof {
                        assert(false);
                    }
                    return Err(int_overflow_to_storage_err(e));
                },
            };
            receipt_bytes = match receipt_bytes.checked_add(memory) {
                Some(b) => b,
                None => {
                    proof {
                        lemma_bootstrap_buffer_size_bound(entries, j as int, k + 1);
                        lemma_sum_stored_size_nonneg(delayed);
                    }
                    return Err(overflow_storage_err());
                },
            };
            k = k + 1;
        }
        proof {
            assert(receipts.take(receipts.len() as int) =~= receipts);
        }
        j = j + 1;
    }
    proof {
        assert(entries.take(entries.len() as int) =~= entries);
    }

    Ok(
        CongestionInfo {
            delayed_receipts_gas,
            buffered_receipts_gas,
            receipt_bytes,
            // For the first chunk, the hint is the own shard: bootstrapping
            // needs no knowledge of the other shards, and peers only act on
            // the first info published after this one.
            allowed_shard: shard_id,
        },
    )
}

/// A partial buffer-scan sum is at most the full buffer-wide gas sum.
pub proof fn lemma_bootstrap_buffer_gas_bound(
    entries: Seq<crate::queues::ShardBufferEntry>,
    j: int,
    k: int,
    config: RuntimeConfig,
)
    requires
        0 <= j < entries.len(),
        0 <= k <= entries[j].receipts@.len(),
    ensures
        sum_buffers_gas(entries.take(j), config) + sum_stored_gas(
            entries[j].receipts@.take(k),
            config,
        ) <= sum_buffers_gas(entries, config),
{
    lemma_sum_stored_gas_prefix(entries[j].receipts@, k, config);
    assert(entries.take(j + 1).drop_last() =~= entries.take(j));
    assert(entries.take(j + 1).last() == entries[j]);
    lemma_buffers_gas_prefix(entries, j + 1, config);
}

/// A partial buffer-scan sum is at most the full buffer-wide size sum.
pub proof fn lemma_bootstrap_buffer_size_bound(
    entries: Seq<crate::queues::ShardBufferEntry>,
    j: int,
    k: int,
)
    requires
        0 <= j < entries.len(),
        0 <= k <= entries[j].receipts@.len(),
    ensures
        sum_buffers_size(entries.take(j)) + sum_stored_size(entries[j].receipts@.take(k))
            <= sum_buffers_size(entries),
{
    lemma_sum_stored_size_prefix(entries[j].receipts@, k);
    assert(entries.take(j + 1).drop_last() =~= entries.take(j));
    assert(entries.take(j + 1).last() == entries[j]);
    lemma_buffers_size_prefix(entries, j + 1);
}

pub proof fn lemma_buffers_gas_prefix(
    entries: Seq<crate::queues::ShardBufferEntry>,
    n: int,
    config: RuntimeConfig,
)
    requires
        0 <= n <= entries.len(),
    ensures
        sum_buffers_gas(entries.take(n), config) <= sum_buffers_gas(entries, config),
    decreases entries.len() - n,
{
    if n < entries.len() {
        assert(entries.take(n + 1).drop_last() =~= entries.take(n));
        lemma_sum_stored_gas_nonneg(entries[n].receipts@, config);
        lemma_buffers_gas_prefix(entries, n + 1, config);
    } else {
        assert(entries.take(n) =~= entries);
    }
}

pub proof fn lemma_buffers_size_prefix(entries: Seq<crate::queues::ShardBufferEntry>, n: int)
    requires
        0 <= n <= entries.len(),
    ensures
        sum_buffers_size(entries.take(n)) <= sum_buffers_size(entries),
    decreases entries.len() - n,
{
    if n < entries.len() {
        assert(entries.take(n + 1).drop_last() =~= entries.take(n));
        lemma_sum_stored_size_nonneg(entries[n].receipts@);
        lemma_buffers_size_prefix(entries, n + 1);
    } else {
        assert(entries.take(n) =~= entries);
    }
}

} // verus!
