//! The shard's own congestion totals.
//!
//! A shard publishes these running totals so peers can throttle traffic
//! toward it. The sink and the delayed-receipt wrapper maintain them with
//! checked arithmetic: an overflow while adding is an integer-overflow
//! error, an underflow while removing indicates corrupted state.

use vstd::prelude::*;

use crate::errors::{RuntimeError, StorageError};
use crate::types::{Gas, ShardId};

verus! {

/// Running congestion totals of one shard.
#[derive(Debug, Clone, Copy, PartialEq, Eq, Structural)]
pub struct CongestionInfo {
    /// Sum of congestion gas over the local delayed queue.
    pub delayed_receipts_gas: u128,
    /// Sum of congestion gas over all outgoing buffers.
    pub buffered_receipts_gas: u128,
    /// Sum of sizes over the delayed queue plus all outgoing buffers.
    pub receipt_bytes: u64,
    /// Routing hint for peers; bootstrapped to the owning shard and updated
    /// by a policy outside this module.
    pub allowed_shard: ShardId,
}

impl CongestionInfo {
    /// Account for a receipt newly held in a queue or buffer.
    pub fn add_receipt_bytes(&mut self, bytes: u64) -> (r: Result<(), RuntimeError>)
        ensures
            old(self).receipt_bytes + bytes <= u64::MAX ==> r is Ok && *final(self) == (
            CongestionInfo { receipt_bytes: (old(self).receipt_bytes + bytes) as u64, ..*old(self) }),
            old(self).receipt_bytes + bytes > u64::MAX ==> r == Err::<(), RuntimeError>(
                RuntimeError::UnexpectedIntegerOverflow,
            ) && *final(self) == *old(self),
    {
        match self.receipt_bytes.checked_add(bytes) {
            Some(total) => {
                self.receipt_bytes = total;
                Ok(())
            },
            None => Err(RuntimeError::UnexpectedIntegerOverflow),
        }
    }

    /// Account for a receipt leaving a queue or buffer.
    pub fn remove_receipt_bytes(&mut self, bytes: u64) -> (r: Result<(), RuntimeError>)
        ensures
            old(self).receipt_bytes >= bytes ==> r is Ok && *final(self) == (CongestionInfo {
                receipt_bytes: (old(self).receipt_bytes - bytes) as u64,
                ..*old(self)
            }),
            old(self).receipt_bytes < bytes ==> r == Err::<(), RuntimeError>(
                RuntimeError::StorageError(StorageError::StorageInconsistentState),
            ) && *final(self) == *old(self),
    {
        match self.receipt_bytes.checked_sub(bytes) {
            Some(total) => {
                self.receipt_bytes = total;
                Ok(())
            },
            None => Err(RuntimeError::StorageError(StorageError::StorageInconsistentState)),
        }
    }

    /// Account for a receipt newly buffered toward another shard.
    pub fn add_buffered_receipt_gas(&mut self, gas: Gas) -> (r: Result<(), RuntimeError>)
        ensures
            old(self).buffered_receipts_gas + gas <= u128::MAX ==> r is Ok && *final(self) == (
            CongestionInfo {
                buffered_receipts_gas: (old(self).buffered_receipts_gas + gas) as u128,
                ..*old(self)
            }),
            old(self).buffered_receipts_gas + gas > u128::MAX ==> r == Err::<(), RuntimeError>(
                RuntimeError::UnexpectedIntegerOverflow,
            ) && *final(self) == *old(self),
    {
        match self.buffered_receipts_gas.checked_add(gas as u128) {
            Some(total) => {
                self.buffered_receipts_gas = total;
                Ok(())
            },
            None => Err(RuntimeError::UnexpectedIntegerOverflow),
        }
    }

    /// Account for a buffered receipt being forwarded at last.
    pub fn remove_buffered_receipt_gas(&mut self, gas: Gas) -> (r: Result<(), RuntimeError>)
        ensures
            old(self).buffered_receipts_gas >= gas ==> r is Ok && *final(self) == (CongestionInfo {
                buffered_receipts_gas: (old(self).buffered_receipts_gas - gas) as u128,
                ..*old(self)
            }),
            old(self).buffered_receipts_gas < gas ==> r == Err::<(), RuntimeError>(
                RuntimeError::StorageError(StorageError::StorageInconsistentState),
            ) && *final(self) == *old(self),
    {
        match self.buffered_receipts_gas.checked_sub(gas as u128) {
            Some(total) => {
                self.buffered_receipts_gas = total;
                Ok(())
            },
            None => Err(RuntimeError::StorageError(StorageError::StorageInconsistentState)),
        }
    }

    /// Account for a receipt entering the delayed queue.
    pub fn add_delayed_receipt_gas(&mut self, gas: Gas) -> (r: Result<(), RuntimeError>)
        ensures
            old(self).delayed_receipts_gas + gas <= u128::MAX ==> r is Ok && *final(self) == (
            CongestionInfo {
                delayed_receipts_gas: (old(self).delayed_receipts_gas + gas) as u128,
                ..*old(self)
            }),
            old(self).delayed_receipts_gas + gas > u128::MAX ==> r == Err::<(), RuntimeError>(
                RuntimeError::UnexpectedIntegerOverflow,
            ) && *final(self) == *old(self),
    {
        match self.delayed_receipts_gas.checked_add(gas as u128) {
            Some(total) => {
                self.delayed_receipts_gas = total;
                Ok(())
            },
            None => Err(RuntimeError::UnexpectedIntegerOverflow),
        }
    }

    /// Account for a receipt leaving the delayed queue.
    pub fn remove_delayed_receipt_gas(&mut self, gas: Gas) -> (r: Result<(), RuntimeError>)
        ensures
            old(self).delayed_receipts_gas >= gas ==> r is Ok && *final(self) == (CongestionInfo {
                delayed_receipts_gas: (old(self).delayed_receipts_gas - gas) as u128,
                ..*old(self)
            }),
            old(self).delayed_receipts_gas < gas ==> r == Err::<(), RuntimeError>(
                RuntimeError::StorageError(StorageError::StorageInconsistentState),
            ) && *final(self) == *old(self),
    {
        match self.delayed_receipts_gas.checked_sub(gas as u128) {
            Some(total) => {
                self.delayed_receipts_gas = total;
                Ok(())
            },
            None => Err(RuntimeError::StorageError(StorageError::StorageInconsistentState)),
        }
    }
}

} // verus!
