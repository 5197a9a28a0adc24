use receipt_sink::bandwidth::{
    BandwidthRequest, BandwidthRequests, BandwidthSchedulerOutput, BandwidthSchedulerParams,
};
use receipt_sink::bootstrap::bootstrap_congestion_info;
use receipt_sink::config::{
    safe_add_gas, total_prepaid_exec_fees, total_prepaid_gas, total_prepaid_send_fees,
    RuntimeConfig,
};
use receipt_sink::congestion_info::CongestionInfo;
use receipt_sink::delayed::DelayedReceiptQueueWrapper;
use receipt_sink::errors::{IntegerOverflowError, RuntimeError, StorageError};
use receipt_sink::metadata::{
    MetadataEntry, OutgoingMetadatas, ReceiptGroup, ReceiptGroupsConfig, ShardOutgoingMetadata,
};
use receipt_sink::queues::{DelayedReceiptQueue, ShardBufferEntry, ShardsOutgoingReceiptBuffer};
use receipt_sink::receipt::{
    compute_receipt_congestion_gas, receipt_congestion_gas, receipt_size, Action, ActionReceipt,
    Receipt, ReceiptEnum, ReceiptOrStateStoredReceipt, StateStoredReceipt,
    StateStoredReceiptMetadata,
};
use receipt_sink::sink::{
    AdvertisedCongestion, ApplyState, DirectShardMapping, ReceiptSink, ShardCongestionEntry,
};
use receipt_sink::trie::TrieUpdate;

fn action_receipt(receiver: u64, gas: u64, size: u64) -> Receipt {
    Receipt {
        receiver_id: receiver,
        payload: ReceiptEnum::Action(ActionReceipt {
            actions: vec![Action { prepaid_exec_fee: 0, prepaid_send_fee: 0, attached_gas: gas }],
        }),
        size,
    }
}

fn stored_plain(receiver: u64, gas: u64, size: u64) -> ReceiptOrStateStoredReceipt {
    ReceiptOrStateStoredReceipt::Receipt(action_receipt(receiver, gas, size))
}

fn stored_with_metadata(receiver: u64, gas: u64, size: u64) -> ReceiptOrStateStoredReceipt {
    ReceiptOrStateStoredReceipt::StateStoredReceipt(StateStoredReceipt {
        receipt: action_receipt(receiver, gas, size),
        metadata: StateStoredReceiptMetadata { congestion_gas: gas, congestion_size: size },
    })
}

fn test_config() -> RuntimeConfig {
    RuntimeConfig {
        new_action_receipt_exec_fee: 0,
        outgoing_receipts_usual_size_limit: 1_000_000,
        use_state_stored_receipt: false,
    }
}

/// The congestion gas of an action receipt: prepaid execution fees plus
/// the fixed new-action-receipt fee, prepaid send fees, and attached gas.
#[test]
fn congestion_gas_formula() {
    let mut config = test_config();
    config.new_action_receipt_exec_fee = 7;
    let receipt = Receipt {
        receiver_id: 0,
        payload: ReceiptEnum::Action(ActionReceipt {
            actions: vec![
                Action { prepaid_exec_fee: 1, prepaid_send_fee: 2, attached_gas: 3 },
                Action { prepaid_exec_fee: 10, prepaid_send_fee: 20, attached_gas: 30 },
            ],
        }),
        size: 100,
    };
    // (1 + 10 + 7) + (2 + 20) + (3 + 30)
    assert_eq!(compute_receipt_congestion_gas(&receipt, &config), Ok(73));
}

/// Non-action receipts carry zero congestion gas.
#[test]
fn non_action_receipts_have_zero_gas() {
    let config = test_config();
    for payload in [ReceiptEnum::Data, ReceiptEnum::PromiseYield, ReceiptEnum::PromiseResume] {
        let receipt = Receipt { receiver_id: 0, payload, size: 64 };
        assert_eq!(compute_receipt_congestion_gas(&receipt, &config), Ok(0));
    }
}

/// The checked summation helpers overflow exactly at u64::MAX.
#[test]
fn checked_sums_overflow() {
    assert_eq!(safe_add_gas(u64::MAX, 1), Err(IntegerOverflowError));
    assert_eq!(safe_add_gas(u64::MAX - 1, 1), Ok(u64::MAX));
    let actions = vec![
        Action { prepaid_exec_fee: u64::MAX, prepaid_send_fee: 0, attached_gas: 0 },
        Action { prepaid_exec_fee: 1, prepaid_send_fee: 5, attached_gas: 9 },
    ];
    assert_eq!(total_prepaid_exec_fees(&actions), Err(IntegerOverflowError));
    assert_eq!(total_prepaid_send_fees(&actions), Ok(5));
    assert_eq!(total_prepaid_gas(&actions), Ok(9));
}

/// Stored receipts read their weight from the metadata when present and
/// recompute it otherwise.
#[test]
fn stored_receipt_weight() {
    let config = test_config();
    let plain = stored_plain(3, 40, 11);
    assert_eq!(receipt_congestion_gas(&plain, &config), Ok(40));
    assert_eq!(receipt_size(&plain), Ok(11));

    // metadata wins over recomputation
    let with_metadata = ReceiptOrStateStoredReceipt::StateStoredReceipt(StateStoredReceipt {
        receipt: action_receipt(3, 40, 11),
        metadata: StateStoredReceiptMetadata { congestion_gas: 77, congestion_size: 13 },
    });
    assert_eq!(receipt_congestion_gas(&with_metadata, &config), Ok(77));
    assert_eq!(receipt_size(&with_metadata), Ok(13));
}

/// The outgoing buffers are per-destination FIFOs.
#[test]
fn outgoing_buffer_fifo() {
    let mut buffers = ShardsOutgoingReceiptBuffer::new();
    let a = stored_plain(4, 1, 1);
    let b = stored_plain(4, 2, 2);
    let other = stored_plain(6, 3, 3);
    buffers.push_back(4, a.clone());
    buffers.push_back(6, other.clone());
    buffers.push_back(4, b.clone());

    assert_eq!(buffers.shards(), vec![4, 6]);
    assert_eq!(buffers.buffer_len(4), Some(2));
    assert_eq!(buffers.buffer_len(5), None);
    assert_eq!(buffers.front(4), Some(&a));
    assert_eq!(buffers.pop_front(4), Some(a));
    assert_eq!(buffers.pop_front(4), Some(b));
    assert_eq!(buffers.pop_front(4), None);
    assert_eq!(buffers.pop_front(6), Some(other));
}

/// Metadata grouping: receipts join the last group while it is under the
/// threshold, and pops subtract from the first group, dropping it when it
/// empties.
#[test]
fn metadata_grouping() {
    let mut metadatas = OutgoingMetadatas::new(ReceiptGroupsConfig { group_size_threshold: 100 });
    metadatas.update_on_receipt_pushed(4, 60, 600).unwrap();
    metadatas.update_on_receipt_pushed(4, 50, 500).unwrap();
    // the last group reached 110 >= 100, so the next receipt opens a group
    metadatas.update_on_receipt_pushed(4, 30, 300).unwrap();

    let m = metadatas.get_metadata_for_shard(4).unwrap();
    assert_eq!(m.total_receipts_num(), 3);
    assert_eq!(
        m.groups,
        vec![
            ReceiptGroup { count: 2, size: 110, gas: 1100 },
            ReceiptGroup { count: 1, size: 30, gas: 300 }
        ]
    );
    assert_eq!(m.receipt_group_sizes(), vec![110, 30]);

    let mut metadatas = metadatas;
    metadatas.update_on_receipt_popped(4, 60, 600).unwrap();
    metadatas.update_on_receipt_popped(4, 50, 500).unwrap();
    let m = metadatas.get_metadata_for_shard(4).unwrap();
    assert_eq!(m.total_receipts_num(), 1);
    assert_eq!(m.groups, vec![ReceiptGroup { count: 1, size: 30, gas: 300 }]);

    // popping more than the metadata holds is a storage inconsistency
    let mut bad = OutgoingMetadatas::new(ReceiptGroupsConfig::default_config());
    assert_eq!(
        bad.update_on_receipt_popped(4, 1, 1),
        Err(RuntimeError::StorageError(StorageError::StorageInconsistentState))
    );
}

/// The delayed wrapper accumulates deltas and applies them at chunk end.
#[test]
fn delayed_wrapper_accumulates() {
    let apply_state = ApplyState {
        shard_id: 1,
        epoch_id: 0,
        current_protocol_version: 67,
        config: test_config(),
        congestion_info: vec![],
    };
    let mut queue = DelayedReceiptQueue::new();
    queue.push_back(stored_plain(1, 100, 10));

    let mut wrapper = DelayedReceiptQueueWrapper::new(queue);
    assert_eq!(wrapper.len(), 1);
    wrapper.push(action_receipt(1, 30, 3), &apply_state).unwrap();
    wrapper.push(action_receipt(1, 70, 7), &apply_state).unwrap();
    assert_eq!(wrapper.len(), 3);
    assert_eq!(wrapper.peek(1), Some(&stored_plain(1, 30, 3)));
    assert_eq!(wrapper.peek(3), None);

    let popped = wrapper.pop(&apply_state.config).unwrap();
    assert_eq!(popped, Some(stored_plain(1, 100, 10)));
    assert_eq!(wrapper.len(), 2);

    let mut info = CongestionInfo {
        delayed_receipts_gas: 100,
        buffered_receipts_gas: 0,
        receipt_bytes: 10,
        allowed_shard: 1,
    };
    let queue = wrapper.apply_congestion_changes(&mut info).unwrap();
    assert_eq!(info.delayed_receipts_gas, 100 + 30 + 70 - 100);
    assert_eq!(info.receipt_bytes, 10 + 3 + 7 - 10);
    assert_eq!(queue.len(), 2);
}

/// Bootstrap round-trip over a known state: the sums land in the right
/// fields and the hint is the own shard.
#[test]
fn bootstrap_sums_known_state() {
    let config = test_config();
    let mut delayed = DelayedReceiptQueue::new();
    delayed.push_back(stored_plain(1, 1_000, 500));
    delayed.push_back(stored_with_metadata(1, 234, 67));
    let trie = TrieUpdate {
        delayed_receipts: delayed,
        outgoing_buffers: ShardsOutgoingReceiptBuffer {
            entries: vec![
                ShardBufferEntry { shard: 2, receipts: vec![stored_plain(2, 10, 3)] },
                ShardBufferEntry { shard: 3, receipts: vec![stored_with_metadata(3, 20, 4)] },
            ],
        },
        outgoing_metadatas: OutgoingMetadatas::new(ReceiptGroupsConfig::default_config()),
    };
    let info = bootstrap_congestion_info(&trie, &config, 9).unwrap();
    assert_eq!(
        info,
        CongestionInfo {
            delayed_receipts_gas: 1_234,
            buffered_receipts_gas: 30,
            receipt_bytes: 574,
            allowed_shard: 9,
        }
    );
}

/// Bootstrap fails with the storage-inconsistency error when a stored
/// receipt's gas cannot be recomputed.
#[test]
fn bootstrap_overflow_is_inconsistent_state() {
    let config = test_config();
    let mut delayed = DelayedReceiptQueue::new();
    delayed.push_back(ReceiptOrStateStoredReceipt::Receipt(Receipt {
        receiver_id: 1,
        payload: ReceiptEnum::Action(ActionReceipt {
            actions: vec![
                Action { prepaid_exec_fee: 0, prepaid_send_fee: 0, attached_gas: u64::MAX },
                Action { prepaid_exec_fee: 0, prepaid_send_fee: 0, attached_gas: 1 },
            ],
        }),
        size: 8,
    }));
    let trie = TrieUpdate {
        delayed_receipts: delayed,
        outgoing_buffers: ShardsOutgoingReceiptBuffer::new(),
        outgoing_metadatas: OutgoingMetadatas::new(ReceiptGroupsConfig::default_config()),
    };
    assert_eq!(
        bootstrap_congestion_info(&trie, &config, 1),
        Err(StorageError::StorageInconsistentState)
    );
}

/// Basic bandwidth request: one maximal receipt.
#[test]
fn basic_bandwidth_request() {
    let params =
        BandwidthSchedulerParams { max_shard_bandwidth: 4_500_000, max_receipt_size: 4_194_304 };
    let r = BandwidthRequest::make_max_receipt_size_request(8, &params);
    assert_eq!(r.to_shard, 8);
    assert_eq!(r.requested_values, vec![4_194_304]);
}

/// Proper bandwidth request: cumulative group sizes, capped at the
/// per-shard bandwidth.
#[test]
fn bandwidth_request_from_sizes() {
    let params = BandwidthSchedulerParams { max_shard_bandwidth: 100, max_receipt_size: 90 };
    let sizes = vec![50, 40, 30];
    let r = BandwidthRequest::make_from_receipt_sizes(8, &sizes, &params);
    assert_eq!(r.to_shard, 8);
    assert_eq!(r.requested_values, vec![50, 90, 100]);
}

/// Legacy-upgrade window: while the metadata undercounts the buffer the
/// request is basic; once the untracked residue drains, the request is
/// derived from the metadata groups.
#[test]
fn legacy_upgrade_window_requests() {
    let params = BandwidthSchedulerParams { max_shard_bandwidth: 4_500_000, max_receipt_size: 999 };
    let apply_state = ApplyState {
        shard_id: 1,
        epoch_id: 0,
        current_protocol_version: 74,
        config: test_config(),
        congestion_info: vec![ShardCongestionEntry {
            shard_id: 4,
            congestion: AdvertisedCongestion {
                outgoing_gas_limit: 300,
                outgoing_size_limit: 1_000_000,
            },
        }],
    };
    // buffer: one legacy untracked receipt, then two tracked ones
    let mut trie = TrieUpdate {
        delayed_receipts: DelayedReceiptQueue::new(),
        outgoing_buffers: ShardsOutgoingReceiptBuffer {
            entries: vec![ShardBufferEntry {
                shard: 4,
                receipts: vec![
                    stored_plain(4, 100, 10),
                    stored_with_metadata(4, 900, 11),
                    stored_with_metadata(4, 50, 9),
                ],
            }],
        },
        outgoing_metadatas: OutgoingMetadatas {
            entries: vec![MetadataEntry {
                shard: 4,
                metadata: ShardOutgoingMetadata {
                    total_receipts: 2,
                    groups: vec![ReceiptGroup { count: 2, size: 20, gas: 950 }],
                },
            }],
            groups_config: ReceiptGroupsConfig::default_config(),
        },
    };
    let own = CongestionInfo {
        delayed_receipts_gas: 0,
        buffered_receipts_gas: 1050,
        receipt_bytes: 30,
        allowed_shard: 1,
    };
    let mut sink = ReceiptSink::new(
        74,
        &apply_state,
        Some(own),
        Some(BandwidthSchedulerOutput { params }),
    )
    .unwrap();

    // metadata reports 2, the buffer holds 3: basic request
    let requests = sink.generate_bandwidth_requests(&trie).unwrap().unwrap();
    let BandwidthRequests::V1(v) = requests;
    assert_eq!(v.requests.len(), 1);
    assert_eq!(v.requests[0].to_shard, 4);
    assert_eq!(v.requests[0].requested_values, vec![999]);

    // the drain pops only the oldest receipt, the untracked legacy one:
    // gas limit 300 admits the first (100) but not the second (900)
    sink.forward_from_buffer(&mut trie, &apply_state).unwrap();
    assert_eq!(trie.outgoing_buffers.entries[0].receipts.len(), 2);
    assert_eq!(trie.outgoing_metadatas.entries[0].metadata.total_receipts, 2);

    // metadata reports 2 with a buffer of 2: proper request from the groups
    let requests = sink.generate_bandwidth_requests(&trie).unwrap().unwrap();
    let BandwidthRequests::V1(v) = requests;
    assert_eq!(v.requests.len(), 1);
    assert_eq!(v.requests[0].to_shard, 4);
    assert_eq!(v.requests[0].requested_values, vec![20]);
}

/// No request is emitted for a destination whose buffer is empty.
#[test]
fn no_request_for_empty_buffer() {
    let params = BandwidthSchedulerParams { max_shard_bandwidth: 100, max_receipt_size: 90 };
    let apply_state = ApplyState {
        shard_id: 1,
        epoch_id: 0,
        current_protocol_version: 74,
        config: test_config(),
        congestion_info: vec![],
    };
    let trie = TrieUpdate {
        delayed_receipts: DelayedReceiptQueue::new(),
        outgoing_buffers: ShardsOutgoingReceiptBuffer {
            entries: vec![ShardBufferEntry { shard: 4, receipts: vec![] }],
        },
        outgoing_metadatas: OutgoingMetadatas::new(ReceiptGroupsConfig::default_config()),
    };
    let own = CongestionInfo {
        delayed_receipts_gas: 0,
        buffered_receipts_gas: 0,
        receipt_bytes: 0,
        allowed_shard: 1,
    };
    let sink = ReceiptSink::new(
        74,
        &apply_state,
        Some(own),
        Some(BandwidthSchedulerOutput { params }),
    )
    .unwrap();
    let requests = sink.generate_bandwidth_requests(&trie).unwrap().unwrap();
    let BandwidthRequests::V1(v) = requests;
    assert!(v.requests.is_empty());
}

/// The congestion-info counters reject overflow and underflow with the
/// right error kinds.
#[test]
fn congestion_info_checked_arithmetic() {
    let mut info = CongestionInfo {
        delayed_receipts_gas: 0,
        buffered_receipts_gas: 0,
        receipt_bytes: u64::MAX,
        allowed_shard: 0,
    };
    assert_eq!(info.add_receipt_bytes(1), Err(RuntimeError::UnexpectedIntegerOverflow));
    assert_eq!(info.receipt_bytes, u64::MAX);
    assert_eq!(
        info.remove_buffered_receipt_gas(1),
        Err(RuntimeError::StorageError(StorageError::StorageInconsistentState))
    );
    info.add_buffered_receipt_gas(5).unwrap();
    info.remove_buffered_receipt_gas(2).unwrap();
    assert_eq!(info.buffered_receipts_gas, 3);
    info.remove_receipt_bytes(u64::MAX).unwrap();
    assert_eq!(info.receipt_bytes, 0);
    info.add_delayed_receipt_gas(9).unwrap();
    info.remove_delayed_receipt_gas(4).unwrap();
    assert_eq!(info.delayed_receipts_gas, 5);
}

/// The delayed wrapper refuses a receipt whose gas computation overflows,
/// leaving its state unchanged.
#[test]
fn delayed_wrapper_overflow() {
    let apply_state = ApplyState {
        shard_id: 1,
        epoch_id: 0,
        current_protocol_version: 67,
        config: test_config(),
        congestion_info: vec![],
    };
    let mut wrapper = DelayedReceiptQueueWrapper::new(DelayedReceiptQueue::new());
    let bad = Receipt {
        receiver_id: 1,
        payload: ReceiptEnum::Action(ActionReceipt {
            actions: vec![
                Action { prepaid_exec_fee: u64::MAX, prepaid_send_fee: 0, attached_gas: 0 },
                Action { prepaid_exec_fee: 1, prepaid_send_fee: 0, attached_gas: 0 },
            ],
        }),
        size: 5,
    };
    assert_eq!(
        wrapper.push(bad, &apply_state),
        Err(RuntimeError::UnexpectedIntegerOverflow)
    );
    assert_eq!(wrapper.len(), 0);
    assert_eq!(wrapper.new_delayed_gas, 0);
    assert_eq!(wrapper.new_delayed_bytes, 0);
}

/// A chunk that uses state-stored receipts keeps the metadata count equal
/// to the buffer length, so proper requests are emitted right away.
#[test]
fn state_stored_receipts_keep_metadata_current() {
    let params = BandwidthSchedulerParams { max_shard_bandwidth: 4_500_000, max_receipt_size: 999 };
    let mut config = test_config();
    config.use_state_stored_receipt = true;
    let apply_state = ApplyState {
        shard_id: 1,
        epoch_id: 0,
        current_protocol_version: 74,
        config,
        congestion_info: vec![ShardCongestionEntry {
            shard_id: 5,
            congestion: AdvertisedCongestion { outgoing_gas_limit: 50, outgoing_size_limit: 50 },
        }],
    };
    let mut trie = TrieUpdate {
        delayed_receipts: DelayedReceiptQueue::new(),
        outgoing_buffers: ShardsOutgoingReceiptBuffer::new(),
        outgoing_metadatas: OutgoingMetadatas::new(ReceiptGroupsConfig::default_config()),
    };
    let own = CongestionInfo {
        delayed_receipts_gas: 0,
        buffered_receipts_gas: 0,
        receipt_bytes: 0,
        allowed_shard: 1,
    };
    let mut sink = ReceiptSink::new(
        74,
        &apply_state,
        Some(own),
        Some(BandwidthSchedulerOutput { params }),
    )
    .unwrap();

    // both exceed the limit of 50 gas and are buffered with metadata
    for k in 0..2u64 {
        sink.forward_or_buffer_receipt(
            action_receipt(5, 100, 10 + k),
            &apply_state,
            &mut trie,
            &DirectShardMapping,
        )
        .unwrap();
    }
    assert_eq!(trie.outgoing_buffers.entries[0].receipts.len(), 2);
    assert_eq!(trie.outgoing_metadatas.entries[0].metadata.total_receipts, 2);

    let requests = sink.generate_bandwidth_requests(&trie).unwrap().unwrap();
    let BandwidthRequests::V1(v) = requests;
    assert_eq!(v.requests.len(), 1);
    // one group holding both receipts: 10 + 11 bytes
    assert_eq!(v.requests[0].requested_values, vec![21]);
}
