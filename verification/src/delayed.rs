//! The delayed-receipt queue wrapper.
//!
//! A thin accumulator over the delayed queue: it counts the gas and bytes
//! pushed and popped during one chunk and applies the four deltas to the
//! congestion info once, at chunk end. Positive added and removed counters
//! avoid signed arithmetic and its extra overflow cases.

use vstd::prelude::*;

use crate::config::{safe_add_gas, RuntimeConfig};
use crate::congestion_info::CongestionInfo;
use crate::errors::{RuntimeError, StorageError};
use crate::queues::{sum_stored_gas, sum_stored_size, DelayedReceiptQueue};
use crate::receipt::{
    compute_receipt_congestion_gas, compute_receipt_size, receipt_congestion_gas, receipt_size,
    spec_receipt_gas, spec_receipt_gas_overflows, spec_stored_gas, spec_stored_gas_overflows,
    spec_stored_size, spec_wrap_receipt, wrap_receipt, Receipt, ReceiptOrStateStoredReceipt,
};
use crate::sink::ApplyState;
use crate::types::Gas;

verus! {

/// Accumulates the delayed-queue changes of one chunk.
pub struct DelayedReceiptQueueWrapper {
    /// The delayed queue, owned for the duration of the chunk.
    pub queue: DelayedReceiptQueue,
    /// The queue's contents when the wrapper was created.
    pub initial: Ghost<Seq<ReceiptOrStateStoredReceipt>>,
    pub new_delayed_gas: Gas,
    pub new_delayed_bytes: u64,
    pub removed_delayed_gas: Gas,
    pub removed_delayed_bytes: u64,
}

impl DelayedReceiptQueueWrapper {
    /// The counters track the queue: what is in the queue now, plus what
    /// was removed, equals what was there at the start plus what was added.
    pub open spec fn delta_consistent(&self, config: RuntimeConfig) -> bool {
        &&& sum_stored_gas(self.queue@, config) + self.removed_delayed_gas == sum_stored_gas(
            self.initial@,
            config,
        ) + self.new_delayed_gas
        &&& sum_stored_size(self.queue@) + self.removed_delayed_bytes == sum_stored_size(
            self.initial@,
        ) + self.new_delayed_bytes
    }

    pub fn new(queue: DelayedReceiptQueue) -> (r: Self)
        ensures
            r.queue == queue,
            r.initial@ == queue@,
            r.new_delayed_gas == 0 && r.new_delayed_bytes == 0,
            r.removed_delayed_gas == 0 && r.removed_delayed_bytes == 0,
            forall|config: RuntimeConfig| #[trigger] r.delta_consistent(config),
    {
        let r = DelayedReceiptQueueWrapper {
            initial: Ghost(queue@),
            queue,
            new_delayed_gas: 0,
            new_delayed_bytes: 0,
            removed_delayed_gas: 0,
            removed_delayed_bytes: 0,
        };
        r
    }

    /// Append a receipt the shard accepted but cannot apply yet. Nothing
    /// changes on error.
    pub fn push(&mut self, receipt: Receipt, apply_state: &ApplyState) -> (r: Result<
        (),
        RuntimeError,
    >)
        ensures
            ({
                let config = apply_state.config;
                let gas = spec_receipt_gas(receipt, config) as Gas;
                let size = receipt.size;
                let ok = !spec_receipt_gas_overflows(receipt, config) && old(self).new_delayed_gas
                    + spec_receipt_gas(receipt, config) <= u64::MAX && old(self).new_delayed_bytes
                    + size <= u64::MAX;
                &&& ok ==> r is Ok && ({
                    let stored = spec_wrap_receipt(
                        receipt,
                        gas,
                        size,
                        config.use_state_stored_receipt,
                    );
                    &&& final(self).queue@ == old(self).queue@.push(stored)
                    &&& final(self).new_delayed_gas == old(self).new_delayed_gas + gas
                    &&& final(self).new_delayed_bytes == old(self).new_delayed_bytes + size
                    &&& final(self).removed_delayed_gas == old(self).removed_delayed_gas
                    &&& final(self).removed_delayed_bytes == old(self).removed_delayed_bytes
                    &&& final(self).initial == old(self).initial
                })
                &&& !ok ==> r == Err::<(), RuntimeError>(RuntimeError::UnexpectedIntegerOverflow)
                    && *final(self) == *old(self)
                &&& old(self).delta_consistent(config) ==> final(self).delta_consistent(config)
            }),
    {
        let config = &apply_state.config;
        proof {
            crate::queues::lemma_spec_stored_gas_nonneg(
                ReceiptOrStateStoredReceipt::Receipt(receipt),
                apply_state.config,
            );
        }

        let gas = match compute_receipt_congestion_gas(&receipt, config) {
            Ok(g) => g,
            Err(_e) => {
                proof {
                    assert(spec_receipt_gas_overflows(receipt, apply_state.config));
                }
                return Err(RuntimeError::UnexpectedIntegerOverflow);
            },
        };
        let size = match compute_receipt_size(&receipt) {
            Ok(s) => s,
            Err(_e) => {
                proof {
                    assert(false);
                }
                return Err(RuntimeError::UnexpectedIntegerOverflow);
            },
        };

        let new_delayed_gas = match safe_add_gas(self.new_delayed_gas, gas) {
            Ok(g) => g,
            Err(_e) => {
                proof {
                    assert(gas == spec_receipt_gas(receipt, apply_state.config));
                    assert(old(self).new_delayed_gas + spec_receipt_gas(
                        receipt,
                        apply_state.config,
                    ) > u64::MAX);
                }
                return Err(RuntimeError::UnexpectedIntegerOverflow);
            },
        };
        let new_delayed_bytes = match safe_add_gas(self.new_delayed_bytes, size) {
            Ok(b) => b,
            Err(_e) => {
                proof {
                    assert(old(self).new_delayed_bytes + receipt.size > u64::MAX);
                }
                return Err(RuntimeError::UnexpectedIntegerOverflow);
            },
        };

        let stored = wrap_receipt(receipt, gas, size, config.use_state_stored_receipt);
        proof {
            crate::queues::lemma_spec_stored_gas_nonneg(stored, *config);
            assert(old(self).queue@.push(stored).drop_last() =~= old(self).queue@);
            assert(spec_stored_gas(stored, *config) == gas);
            assert(spec_stored_size(stored) == size);
        }
        self.new_delayed_gas = new_delayed_gas;
        self.new_delayed_bytes = new_delayed_bytes;
        self.queue.push_back(stored);
        Ok(())
    }

    /// Remove the oldest delayed receipt, accounting for its weight.
    /// Nothing changes on error.
    pub fn pop(&mut self, config: &RuntimeConfig) -> (r: Result<
        Option<ReceiptOrStateStoredReceipt>,
        RuntimeError,
    >)
        ensures
            ({
                let q = old(self).queue@;
                &&& q.len() == 0 ==> r == Ok::<_, RuntimeError>(
                    None::<ReceiptOrStateStoredReceipt>,
                ) && *final(self) == *old(self)
                &&& q.len() > 0 ==> ({
                    let gas = spec_stored_gas(q[0], *config);
                    let size = spec_stored_size(q[0]);
                    let ok = !spec_stored_gas_overflows(q[0], *config) && old(
                        self,
                    ).removed_delayed_gas + gas <= u64::MAX && old(self).removed_delayed_bytes
                        + size <= u64::MAX;
                    &&& ok ==> r == Ok::<_, RuntimeError>(Some(q[0])) && final(self).queue@
                        == q.drop_first() && final(self).removed_delayed_gas == old(
                        self,
                    ).removed_delayed_gas + gas && final(self).removed_delayed_bytes == old(
                        self,
                    ).removed_delayed_bytes + size && final(self).new_delayed_gas == old(
                        self,
                    ).new_delayed_gas && final(self).new_delayed_bytes == old(
                        self,
                    ).new_delayed_bytes && final(self).initial == old(self).initial
                    &&& !ok ==> r == Err::<Option<ReceiptOrStateStoredReceipt>, RuntimeError>(
                        RuntimeError::UnexpectedIntegerOverflow,
                    ) && *final(self) == *old(self)
                })
                &&& old(self).delta_consistent(*config) ==> final(self).delta_consistent(*config)
            }),
    {
        if self.queue.len() == 0 {
            return Ok(None);
        }
        let (delayed_gas, delayed_bytes) = {
            let stored = self.queue.get(0);
            let gas = match receipt_congestion_gas(stored, config) {
                Ok(g) => g,
                Err(_e) => {
                    return Err(RuntimeError::UnexpectedIntegerOverflow);
                },
            };
            let size = match receipt_size(stored) {
                Ok(s) => s,
                Err(_e) => {
                    return Err(RuntimeError::UnexpectedIntegerOverflow);
                },
            };
            (gas, size)
        };
        proof {
            crate::queues::lemma_spec_stored_gas_nonneg(self.queue@[0], *config);
        }
        let removed_delayed_gas = match safe_add_gas(self.removed_delayed_gas, delayed_gas) {
            Ok(g) => g,
            Err(_e) => {
                return Err(RuntimeError::UnexpectedIntegerOverflow);
            },
        };
        let removed_delayed_bytes = match safe_add_gas(self.removed_delayed_bytes, delayed_bytes) {
            Ok(b) => b,
            Err(_e) => {
                return Err(RuntimeError::UnexpectedIntegerOverflow);
            },
        };
        let stored = match self.queue.pop_front() {
            Some(st) => st,
            None => {
                proof {
                    assert(false);
                }
                return Err(RuntimeError::UnexpectedIntegerOverflow);
            },
        };
        self.removed_delayed_gas = removed_delayed_gas;
        self.removed_delayed_bytes = removed_delayed_bytes;
        proof {
            let q = old(self).queue@;
            assert(q.skip(1) =~= q.drop_first());
            crate::queues::lemma_sum_stored_gas_take_skip(q, 1, *config);
            crate::queues::lemma_sum_stored_size_take_skip(q, 1);
            assert(q.take(1).drop_last() =~= Seq::<ReceiptOrStateStoredReceipt>::empty());
            assert(q.take(1).last() == q[0]);
            reveal_with_fuel(sum_stored_gas, 2);
            reveal_with_fuel(sum_stored_size, 2);
            assert(sum_stored_gas(q.take(1), *config) == spec_stored_gas(q[0], *config));
            assert(sum_stored_size(q.take(1)) == spec_stored_size(q[0]));
        }
        Ok(Some(stored))
    }

    /// Read the delayed receipt at `index` without disturbing the queue.
    pub fn peek(&self, index: usize) -> (r: Option<&ReceiptOrStateStoredReceipt>)
        ensures
            index < self.queue@.len() ==> r is Some && *r->Some_0 == self.queue@[index as int],
            index >= self.queue@.len() ==> r is None,
    {
        if (index as u64) < self.queue.len() {
            Some(self.queue.get(index))
        } else {
            None
        }
    }

    /// How many receipts wait in the delayed queue.
    pub fn len(&self) -> (r: u64)
        ensures
            r == self.queue@.len(),
    {
        self.queue.len()
    }

    /// Apply the accumulated deltas to the congestion info and hand the
    /// queue back for the caller to persist.
    pub fn apply_congestion_changes(self, congestion: &mut CongestionInfo) -> (r: Result<
        DelayedReceiptQueue,
        RuntimeError,
    >)
        ensures
            ({
                let d0 = old(congestion).delayed_receipts_gas;
                let b0 = old(congestion).receipt_bytes;
                let ok = d0 + self.new_delayed_gas <= u128::MAX && d0 + self.new_delayed_gas
                    >= self.removed_delayed_gas && b0 + self.new_delayed_bytes <= u64::MAX && b0
                    + self.new_delayed_bytes >= self.removed_delayed_bytes;
                &&& ok ==> r == Ok::<DelayedReceiptQueue, RuntimeError>(self.queue) && *final(congestion) == (CongestionInfo {
                    delayed_receipts_gas: (d0 + self.new_delayed_gas
                        - self.removed_delayed_gas) as u128,
                    receipt_bytes: (b0 + self.new_delayed_bytes
                        - self.removed_delayed_bytes) as u64,
                    ..*old(congestion)
                })
                &&& !ok ==> r is Err && (r->Err_0 == RuntimeError::UnexpectedIntegerOverflow
                    || r->Err_0 == RuntimeError::StorageError(
                    StorageError::StorageInconsistentState,
                ))
            }),
    {
        match congestion.add_delayed_receipt_gas(self.new_delayed_gas) {
            Ok(()) => {},
            Err(e) => {
                return Err(e);
            },
        }
        match congestion.remove_delayed_receipt_gas(self.removed_delayed_gas) {
            Ok(()) => {},
            Err(e) => {
                return Err(e);
            },
        }
        match congestion.add_receipt_bytes(self.new_delayed_bytes) {
            Ok(()) => {},
            Err(e) => {
                return Err(e);
            },
        }
        match congestion.remove_receipt_bytes(self.removed_delayed_bytes) {
            Ok(()) => {},
            Err(e) => {
                return Err(e);
            },
        }
        Ok(self.queue)
    }
}

} // verus!
