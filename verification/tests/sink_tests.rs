use receipt_sink::bandwidth::{BandwidthSchedulerOutput, BandwidthSchedulerParams};
use receipt_sink::congestion_info::CongestionInfo;
use receipt_sink::errors::{RuntimeError, StorageError};
use receipt_sink::metadata::{OutgoingMetadatas, ReceiptGroupsConfig};
use receipt_sink::queues::{DelayedReceiptQueue, ShardBufferEntry, ShardsOutgoingReceiptBuffer};
use receipt_sink::receipt::{
    Action, ActionReceipt, Receipt, ReceiptEnum, ReceiptOrStateStoredReceipt,
};
use receipt_sink::sink::{
    AdvertisedCongestion, ApplyState, DirectShardMapping, ReceiptSink, ShardCongestionEntry,
};
use receipt_sink::trie::TrieUpdate;
use receipt_sink::types::{Gas, ShardId};

fn action_receipt(receiver: u64, gas: Gas, size: u64) -> Receipt {
    Receipt {
        receiver_id: receiver,
        payload: ReceiptEnum::Action(ActionReceipt {
            actions: vec![Action { prepaid_exec_fee: 0, prepaid_send_fee: 0, attached_gas: gas }],
        }),
        size,
    }
}

fn test_config() -> receipt_sink::config::RuntimeConfig {
    receipt_sink::config::RuntimeConfig {
        new_action_receipt_exec_fee: 0,
        outgoing_receipts_usual_size_limit: 1_000_000,
        use_state_stored_receipt: false,
    }
}

fn apply_state_with_limits(
    own_shard: ShardId,
    limits: Vec<(ShardId, Gas, u64)>,
    protocol_version: u32,
    use_state_stored_receipt: bool,
) -> ApplyState {
    let mut config = test_config();
    config.use_state_stored_receipt = use_state_stored_receipt;
    ApplyState {
        shard_id: own_shard,
        epoch_id: 0,
        current_protocol_version: protocol_version,
        config,
        congestion_info: limits
            .into_iter()
            .map(|(shard_id, gas, size)| ShardCongestionEntry {
                shard_id,
                congestion: AdvertisedCongestion {
                    outgoing_gas_limit: gas,
                    outgoing_size_limit: size,
                },
            })
            .collect(),
    }
}

fn empty_trie() -> TrieUpdate {
    TrieUpdate {
        delayed_receipts: DelayedReceiptQueue::new(),
        outgoing_buffers: ShardsOutgoingReceiptBuffer::new(),
        outgoing_metadatas: OutgoingMetadatas::new(ReceiptGroupsConfig::default_config()),
    }
}

fn zero_info(own_shard: ShardId) -> CongestionInfo {
    CongestionInfo {
        delayed_receipts_gas: 0,
        buffered_receipts_gas: 0,
        receipt_bytes: 0,
        allowed_shard: own_shard,
    }
}

/// Single forward in legacy mode: the receipt goes straight out, no
/// congestion info is produced and the trie is untouched.
#[test]
fn legacy_single_forward() {
    let apply_state = apply_state_with_limits(0, vec![], 60, false);
    let mut trie = empty_trie();
    let trie_before = trie.clone();
    let mut sink = ReceiptSink::new(60, &apply_state, None, None).unwrap();

    let r = action_receipt(5, 1000, 100);
    sink.forward_or_buffer_receipt(r.clone(), &apply_state, &mut trie, &DirectShardMapping)
        .unwrap();

    assert_eq!(sink.outgoing_receipts().as_slice(), &[r]);
    assert!(sink.own_congestion_info().is_none());
    assert!(sink.bandwidth_scheduler_output().is_none());
    assert_eq!(trie, trie_before);
    assert_eq!(sink.generate_bandwidth_requests(&trie).unwrap(), None);
}

/// Limit exactly exhausted: the first receipt fits strictly, the second
/// equals the remaining limit and is buffered.
#[test]
fn limit_exactly_exhausted() {
    let apply_state = apply_state_with_limits(1, vec![(5, 1000, 500)], 67, false);
    let mut trie = empty_trie();
    let mut sink = ReceiptSink::new(67, &apply_state, Some(zero_info(1)), None).unwrap();

    let r1 = action_receipt(5, 600, 300);
    let r2 = action_receipt(5, 400, 200);
    sink.forward_or_buffer_receipt(r1.clone(), &apply_state, &mut trie, &DirectShardMapping)
        .unwrap();
    sink.forward_or_buffer_receipt(r2.clone(), &apply_state, &mut trie, &DirectShardMapping)
        .unwrap();

    assert_eq!(sink.outgoing_receipts().as_slice(), &[r1]);
    let info = sink.own_congestion_info().unwrap();
    assert_eq!(info.buffered_receipts_gas, 400);
    assert_eq!(info.receipt_bytes, 200);
    match &sink {
        ReceiptSink::V2(v) => {
            assert_eq!(v.outgoing_limit.entries.len(), 1);
            assert_eq!(v.outgoing_limit.entries[0].shard, 5);
            assert_eq!(v.outgoing_limit.entries[0].limit.gas, 400);
            assert_eq!(v.outgoing_limit.entries[0].limit.size, 200);
        },
        ReceiptSink::V1(_) => panic!("expected the congestion-aware sink"),
    }
    assert_eq!(trie.outgoing_buffers.entries.len(), 1);
    assert_eq!(trie.outgoing_buffers.entries[0].shard, 5);
    assert_eq!(
        trie.outgoing_buffers.entries[0].receipts,
        vec![ReceiptOrStateStoredReceipt::Receipt(r2)]
    );
}

/// A receipt whose weight equals the remaining limit is buffered, not
/// forwarded: the comparison is strict.
#[test]
fn equality_is_buffered() {
    let apply_state = apply_state_with_limits(1, vec![(5, 1000, 500)], 67, false);
    let mut trie = empty_trie();
    let mut sink = ReceiptSink::new(67, &apply_state, Some(zero_info(1)), None).unwrap();

    let r = action_receipt(5, 1000, 500);
    sink.forward_or_buffer_receipt(r.clone(), &apply_state, &mut trie, &DirectShardMapping)
        .unwrap();

    assert!(sink.outgoing_receipts().is_empty());
    assert_eq!(
        trie.outgoing_buffers.entries[0].receipts,
        vec![ReceiptOrStateStoredReceipt::Receipt(r)]
    );
}

/// After the first refusal toward a destination nothing more is forwarded
/// to it in this chunk, not even a receipt that would fit the remaining
/// limit: forwarding it would overtake the buffered receipt and break
/// per-destination order. Other destinations are unaffected.
#[test]
fn refusal_saturates_destination() {
    let apply_state = apply_state_with_limits(1, vec![(5, 1000, 500)], 67, false);
    let mut trie = empty_trie();
    let mut sink = ReceiptSink::new(67, &apply_state, Some(zero_info(1)), None).unwrap();

    let r1 = action_receipt(5, 600, 300);
    let r2 = action_receipt(5, 600, 100);
    let r3 = action_receipt(5, 100, 50);
    sink.forward_or_buffer_receipt(r1.clone(), &apply_state, &mut trie, &DirectShardMapping)
        .unwrap();
    // gas 600 against the remaining 400: refused and buffered
    sink.forward_or_buffer_receipt(r2.clone(), &apply_state, &mut trie, &DirectShardMapping)
        .unwrap();
    // would fit the remaining limit, but the destination is saturated
    sink.forward_or_buffer_receipt(r3.clone(), &apply_state, &mut trie, &DirectShardMapping)
        .unwrap();

    assert_eq!(sink.outgoing_receipts().as_slice(), &[r1]);
    assert_eq!(
        trie.outgoing_buffers.entries[0].receipts,
        vec![
            ReceiptOrStateStoredReceipt::Receipt(r2),
            ReceiptOrStateStoredReceipt::Receipt(r3)
        ]
    );

    // an unrelated destination still forwards
    let r4 = action_receipt(9, 1, 1);
    sink.forward_or_buffer_receipt(r4.clone(), &apply_state, &mut trie, &DirectShardMapping)
        .unwrap();
    assert_eq!(sink.outgoing_receipts().len(), 2);
}

/// Drain respects FIFO: the second receipt does not fit, so the third is
/// not forwarded either, although it would fit.
#[test]
fn drain_respects_fifo() {
    let apply_state = apply_state_with_limits(1, vec![(7, 200, 1_000_000)], 67, false);
    let a = action_receipt(7, 100, 10);
    let b = action_receipt(7, 900, 10);
    let c = action_receipt(7, 50, 10);
    let mut trie = empty_trie();
    trie.outgoing_buffers = ShardsOutgoingReceiptBuffer {
        entries: vec![ShardBufferEntry {
            shard: 7,
            receipts: vec![
                ReceiptOrStateStoredReceipt::Receipt(a.clone()),
                ReceiptOrStateStoredReceipt::Receipt(b.clone()),
                ReceiptOrStateStoredReceipt::Receipt(c.clone()),
            ],
        }],
    };
    let own = CongestionInfo {
        delayed_receipts_gas: 0,
        buffered_receipts_gas: 1050,
        receipt_bytes: 30,
        allowed_shard: 1,
    };
    let mut sink = ReceiptSink::new(67, &apply_state, Some(own), None).unwrap();

    sink.forward_from_buffer(&mut trie, &apply_state).unwrap();

    assert_eq!(sink.outgoing_receipts().as_slice(), &[a]);
    assert_eq!(
        trie.outgoing_buffers.entries[0].receipts,
        vec![
            ReceiptOrStateStoredReceipt::Receipt(b),
            ReceiptOrStateStoredReceipt::Receipt(c)
        ]
    );
    let info = sink.own_congestion_info().unwrap();
    assert_eq!(info.buffered_receipts_gas, 950);
    assert_eq!(info.receipt_bytes, 20);
}

/// A full drain pass serves every destination with a limit entry, in the
/// limit map's storage order, each buffer drained head-to-tail as far as
/// its own limit allows.
#[test]
fn drain_serves_every_destination() {
    let apply_state =
        apply_state_with_limits(1, vec![(3, 250, 1_000_000), (7, 150, 1_000_000)], 67, false);
    let a = action_receipt(3, 100, 10);
    let b = action_receipt(3, 100, 11);
    let c = action_receipt(3, 900, 12);
    let d = action_receipt(7, 100, 13);
    let e = action_receipt(7, 900, 14);
    let mut trie = empty_trie();
    trie.outgoing_buffers = ShardsOutgoingReceiptBuffer {
        entries: vec![
            ShardBufferEntry {
                shard: 3,
                receipts: vec![
                    ReceiptOrStateStoredReceipt::Receipt(a.clone()),
                    ReceiptOrStateStoredReceipt::Receipt(b.clone()),
                    ReceiptOrStateStoredReceipt::Receipt(c.clone()),
                ],
            },
            ShardBufferEntry {
                shard: 7,
                receipts: vec![
                    ReceiptOrStateStoredReceipt::Receipt(d.clone()),
                    ReceiptOrStateStoredReceipt::Receipt(e.clone()),
                ],
            },
        ],
    };
    let own = CongestionInfo {
        delayed_receipts_gas: 0,
        buffered_receipts_gas: 2_100,
        receipt_bytes: 60,
        allowed_shard: 1,
    };
    let mut sink = ReceiptSink::new(67, &apply_state, Some(own), None).unwrap();

    sink.forward_from_buffer(&mut trie, &apply_state).unwrap();

    // shard 3 forwards two receipts within its 250 gas, shard 7 one within
    // its 150, in the limit map's storage order
    assert_eq!(sink.outgoing_receipts().as_slice(), &[a, b, d]);
    assert_eq!(
        trie.outgoing_buffers.entries[0].receipts,
        vec![ReceiptOrStateStoredReceipt::Receipt(c)]
    );
    assert_eq!(
        trie.outgoing_buffers.entries[1].receipts,
        vec![ReceiptOrStateStoredReceipt::Receipt(e)]
    );
    let info = sink.own_congestion_info().unwrap();
    assert_eq!(info.buffered_receipts_gas, 2_100 - 300);
    assert_eq!(info.receipt_bytes, 60 - 34);

    // both stopped at a receipt, so both destinations are saturated now
    let f = action_receipt(3, 1, 1);
    sink.forward_or_buffer_receipt(f, &apply_state, &mut trie, &DirectShardMapping)
        .unwrap();
    assert_eq!(sink.outgoing_receipts().len(), 3);
    assert_eq!(trie.outgoing_buffers.entries[0].receipts.len(), 2);
}

/// Draining an empty buffer is a no-op.
#[test]
fn empty_buffer_drain_is_noop() {
    let apply_state = apply_state_with_limits(1, vec![(5, 1000, 500)], 67, false);
    let mut trie = empty_trie();
    let trie_before = trie.clone();
    let mut sink = ReceiptSink::new(67, &apply_state, Some(zero_info(1)), None).unwrap();
    let sink_before = sink.clone();

    sink.forward_from_buffer(&mut trie, &apply_state).unwrap();

    assert_eq!(trie, trie_before);
    assert_eq!(sink, sink_before);
}

/// An action receipt whose prepaid fees sum beyond u64::MAX fails with the
/// integer-overflow error and leaves everything unchanged.
#[test]
fn overflow_fails_and_changes_nothing() {
    let apply_state = apply_state_with_limits(1, vec![(5, 1000, 500)], 67, false);
    let mut trie = empty_trie();
    let trie_before = trie.clone();
    let mut sink = ReceiptSink::new(67, &apply_state, Some(zero_info(1)), None).unwrap();
    let sink_before = sink.clone();

    let r = Receipt {
        receiver_id: 5,
        payload: ReceiptEnum::Action(ActionReceipt {
            actions: vec![
                Action { prepaid_exec_fee: 0, prepaid_send_fee: 0, attached_gas: u64::MAX },
                Action { prepaid_exec_fee: 0, prepaid_send_fee: 0, attached_gas: 1 },
            ],
        }),
        size: 10,
    };
    let err = sink
        .forward_or_buffer_receipt(r, &apply_state, &mut trie, &DirectShardMapping)
        .unwrap_err();
    assert_eq!(err, RuntimeError::UnexpectedIntegerOverflow);
    assert_eq!(trie, trie_before);
    assert_eq!(sink, sink_before);
}

/// Forwarded plus buffered receipts for a destination equal the receipts
/// offered for it.
#[test]
fn forwarded_plus_buffered_equals_offered() {
    let apply_state = apply_state_with_limits(1, vec![(5, 250, 1_000_000)], 67, false);
    let mut trie = empty_trie();
    let mut sink = ReceiptSink::new(67, &apply_state, Some(zero_info(1)), None).unwrap();

    let offered = 5;
    for k in 0..offered {
        sink.forward_or_buffer_receipt(
            action_receipt(5, 100, 10 + k),
            &apply_state,
            &mut trie,
            &DirectShardMapping,
        )
        .unwrap();
    }
    let forwarded = sink.outgoing_receipts().len();
    let buffered = trie.outgoing_buffers.entries[0].receipts.len();
    assert_eq!(forwarded + buffered, offered as usize);
    // the limit of 250 admits exactly two receipts of 100 gas
    assert_eq!(forwarded, 2);
}

/// Receipts to the own shard are not backpressured by gas; the size limit
/// still applies.
#[test]
fn same_shard_has_no_gas_limit() {
    let apply_state = apply_state_with_limits(1, vec![(1, 7, 100)], 67, false);
    let mut trie = empty_trie();
    let mut sink = ReceiptSink::new(67, &apply_state, Some(zero_info(1)), None).unwrap();

    // far beyond the advertised gas limit of 7, but gas is unlimited on the
    // own shard
    let r = action_receipt(1, 1_000_000, 50);
    sink.forward_or_buffer_receipt(r.clone(), &apply_state, &mut trie, &DirectShardMapping)
        .unwrap();
    assert_eq!(sink.outgoing_receipts().as_slice(), &[r]);

    // the advertised size limit still applies
    let big = action_receipt(1, 1, 100);
    sink.forward_or_buffer_receipt(big, &apply_state, &mut trie, &DirectShardMapping)
        .unwrap();
    assert_eq!(sink.outgoing_receipts().len(), 1);
    assert_eq!(trie.outgoing_buffers.entries[0].receipts.len(), 1);
}

/// A destination with no known congestion info gets the default limit:
/// unlimited gas, the usual size limit.
#[test]
fn unknown_destination_uses_default_limit() {
    let apply_state = apply_state_with_limits(1, vec![], 67, false);
    let mut trie = empty_trie();
    let mut sink = ReceiptSink::new(67, &apply_state, Some(zero_info(1)), None).unwrap();

    let r = action_receipt(9, u64::MAX - 1, 999_999);
    sink.forward_or_buffer_receipt(r.clone(), &apply_state, &mut trie, &DirectShardMapping)
        .unwrap();
    assert_eq!(sink.outgoing_receipts().as_slice(), &[r]);

    // one byte over the usual size limit is buffered
    let big = action_receipt(8, 0, 1_000_000);
    sink.forward_or_buffer_receipt(big, &apply_state, &mut trie, &DirectShardMapping)
        .unwrap();
    assert_eq!(sink.outgoing_receipts().len(), 1);
}

/// Draining against corrupted totals fails with the storage-inconsistency
/// error.
#[test]
fn drain_with_corrupt_totals_fails() {
    let apply_state = apply_state_with_limits(1, vec![(7, 1000, 1000)], 67, false);
    let mut trie = empty_trie();
    trie.outgoing_buffers = ShardsOutgoingReceiptBuffer {
        entries: vec![ShardBufferEntry {
            shard: 7,
            receipts: vec![ReceiptOrStateStoredReceipt::Receipt(action_receipt(7, 100, 10))],
        }],
    };
    // the recorded totals claim fewer bytes than the buffer holds
    let own = CongestionInfo {
        delayed_receipts_gas: 0,
        buffered_receipts_gas: 1000,
        receipt_bytes: 5,
        allowed_shard: 1,
    };
    let mut sink = ReceiptSink::new(67, &apply_state, Some(own), None).unwrap();
    let err = sink.forward_from_buffer(&mut trie, &apply_state).unwrap_err();
    assert_eq!(err, RuntimeError::StorageError(StorageError::StorageInconsistentState));
}

/// In congestion-aware mode with the scheduler on, a chunk run produces
/// congestion info that matches a fresh bootstrap of the final state.
#[test]
fn chunk_round_trip_matches_bootstrap() {
    let apply_state = apply_state_with_limits(1, vec![(5, 250, 1_000_000)], 74, true);
    let params =
        BandwidthSchedulerParams { max_shard_bandwidth: 4_500_000, max_receipt_size: 4_194_304 };
    let mut trie = empty_trie();
    let mut sink = ReceiptSink::new(
        74,
        &apply_state,
        Some(zero_info(1)),
        Some(BandwidthSchedulerOutput { params }),
    )
    .unwrap();

    for k in 0..6u64 {
        sink.forward_or_buffer_receipt(
            action_receipt(5, 100, 10 * (k + 1)),
            &apply_state,
            &mut trie,
            &DirectShardMapping,
        )
        .unwrap();
    }
    sink.forward_from_buffer(&mut trie, &apply_state).unwrap();

    let own = sink.own_congestion_info().unwrap();
    let rebuilt = receipt_sink::bootstrap::bootstrap_congestion_info(
        &trie,
        &apply_state.config,
        own.allowed_shard,
    )
    .unwrap();
    assert_eq!(rebuilt, own);
}
