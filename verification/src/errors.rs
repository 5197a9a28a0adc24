//! Error taxonomy of the receipt sink.
//!
//! `IntegerOverflowError` is raised by the checked receipt arithmetic;
//! `StorageError` indicates corrupted persistent state (an overflow while
//! summing across the persisted queues, or an underflow while removing from
//! the congestion totals); `RuntimeError` is the union the sink returns from
//! its public operations.

use vstd::prelude::*;

verus! {

/// Checked arithmetic on gas or size produced a carry.
#[derive(Debug, Clone, Copy, PartialEq, Eq, Structural)]
pub struct IntegerOverflowError;

/// The persistent queues and the running congestion totals disagree.
#[derive(Debug, Clone, Copy, PartialEq, Eq, Structural)]
pub enum StorageError {
    StorageInconsistentState,
}

/// Union error type returned by the sink's public operations.
#[derive(Debug, Clone, Copy, PartialEq, Eq, Structural)]
pub enum RuntimeError {
    UnexpectedIntegerOverflow,
    StorageError(StorageError),
}

/// Translates an overflow found while reading stored receipts into the
/// storage-inconsistency error used at the queue layer.
pub fn int_overflow_to_storage_err(_err: IntegerOverflowError) -> (r: StorageError)
    ensures
        r == StorageError::StorageInconsistentState,
{
    overflow_storage_err()
}

/// The storage-inconsistency error raised when calculations on stored
/// receipts overflow.
pub fn overflow_storage_err() -> (r: StorageError)
    ensures
        r == StorageError::StorageInconsistentState,
{
    StorageError::StorageInconsistentState
}

} // verus!
