//! The receipt model and the protocol-defined gas and size computation.
//!
//! A receipt is reduced to what the sink reads: the receiver account, the
//! payload variant, for action receipts the per-action prepaid fees and
//! attached gas, and the byte length of the canonical serialisation, which
//! the host computes once and hands over as a plain value.

use vstd::prelude::*;

use crate::config::{
    lemma_sum_attached_gas_nonneg, lemma_sum_exec_fees_nonneg, lemma_sum_send_fees_nonneg,
    safe_add_gas, sum_attached_gas, sum_exec_fees, sum_send_fees, total_prepaid_exec_fees,
    total_prepaid_gas, total_prepaid_send_fees, RuntimeConfig,
};
use crate::errors::IntegerOverflowError;
use crate::types::{AccountId, Gas};

verus! {

/// The gas data of one action of an action receipt.
#[derive(Debug, Clone, Copy, PartialEq, Eq, Structural)]
pub struct Action {
    /// Prepaid fee for executing this action.
    pub prepaid_exec_fee: Gas,
    /// Prepaid fee for sending the receipts this action creates.
    pub prepaid_send_fee: Gas,
    /// Gas explicitly attached to a function call; zero for other actions.
    pub attached_gas: Gas,
}

/// The payload of an action receipt: its list of actions.
#[derive(Debug, Clone, PartialEq, Eq)]
pub struct ActionReceipt {
    pub actions: Vec<Action>,
}

/// The tagged payload of a receipt.
#[derive(Debug, Clone, PartialEq, Eq)]
pub enum ReceiptEnum {
    Action(ActionReceipt),
    Data,
    PromiseYield,
    PromiseResume,
}

/// An outgoing receipt.
#[derive(Debug, Clone, PartialEq, Eq)]
pub struct Receipt {
    /// The receiver account; the epoch information provider maps it to the
    /// destination shard.
    pub receiver_id: AccountId,
    pub payload: ReceiptEnum,
    /// Byte length of the canonical serialisation, computed by the host.
    pub size: u64,
}

/// Precomputed congestion data persisted next to a state-stored receipt.
#[derive(Debug, Clone, Copy, PartialEq, Eq, Structural)]
pub struct StateStoredReceiptMetadata {
    pub congestion_gas: Gas,
    pub congestion_size: u64,
}

/// A receipt persisted together with its congestion metadata.
#[derive(Debug, Clone, PartialEq, Eq)]
pub struct StateStoredReceipt {
    pub receipt: Receipt,
    pub metadata: StateStoredReceiptMetadata,
}

/// The on-disk form of a queued receipt: plain, or with metadata.
#[derive(Debug, Clone, PartialEq, Eq)]
pub enum ReceiptOrStateStoredReceipt {
    Receipt(Receipt),
    StateStoredReceipt(StateStoredReceipt),
}

/// The congestion gas of `receipt`, as a mathematical integer.
pub open spec fn spec_receipt_gas(receipt: Receipt, config: RuntimeConfig) -> int {
    match receipt.payload {
        ReceiptEnum::Action(ar) => sum_exec_fees(ar.actions@)
            + config.new_action_receipt_exec_fee + sum_send_fees(ar.actions@)
            + sum_attached_gas(ar.actions@),
        ReceiptEnum::Data => 0,
        ReceiptEnum::PromiseYield => 0,
        ReceiptEnum::PromiseResume => 0,
    }
}

/// Whether computing the congestion gas of `receipt` overflows a u64.
pub open spec fn spec_receipt_gas_overflows(receipt: Receipt, config: RuntimeConfig) -> bool {
    spec_receipt_gas(receipt, config) > u64::MAX
}

/// The receipt inside a stored receipt.
pub open spec fn spec_inner_receipt(stored: ReceiptOrStateStoredReceipt) -> Receipt {
    match stored {
        ReceiptOrStateStoredReceipt::Receipt(receipt) => receipt,
        ReceiptOrStateStoredReceipt::StateStoredReceipt(s) => s.receipt,
    }
}

/// The congestion size attributed to a stored receipt: the persisted
/// metadata when present, the receipt's own size otherwise.
pub open spec fn spec_stored_size(stored: ReceiptOrStateStoredReceipt) -> int {
    match stored {
        ReceiptOrStateStoredReceipt::Receipt(receipt) => receipt.size as int,
        ReceiptOrStateStoredReceipt::StateStoredReceipt(s) => s.metadata.congestion_size as int,
    }
}

/// The congestion gas attributed to a stored receipt: the persisted
/// metadata when present, the recomputed gas otherwise.
pub open spec fn spec_stored_gas(stored: ReceiptOrStateStoredReceipt, config: RuntimeConfig) -> int {
    match stored {
        ReceiptOrStateStoredReceipt::Receipt(receipt) => spec_receipt_gas(receipt, config),
        ReceiptOrStateStoredReceipt::StateStoredReceipt(s) => s.metadata.congestion_gas as int,
    }
}

/// Whether reading the congestion gas of a stored receipt overflows: only
/// possible when the gas must be recomputed from a plain receipt.
pub open spec fn spec_stored_gas_overflows(
    stored: ReceiptOrStateStoredReceipt,
    config: RuntimeConfig,
) -> bool {
    match stored {
        ReceiptOrStateStoredReceipt::Receipt(receipt) => spec_receipt_gas_overflows(
            receipt,
            config,
        ),
        ReceiptOrStateStoredReceipt::StateStoredReceipt(s) => false,
    }
}

/// The stored form a receipt takes when queued: with metadata when the
/// state-stored-receipt flag is on, plain otherwise.
pub open spec fn spec_wrap_receipt(
    receipt: Receipt,
    gas: Gas,
    size: u64,
    use_state_stored_receipt: bool,
) -> ReceiptOrStateStoredReceipt {
    if use_state_stored_receipt {
        ReceiptOrStateStoredReceipt::StateStoredReceipt(
            StateStoredReceipt {
                receipt,
                metadata: StateStoredReceiptMetadata { congestion_gas: gas, congestion_size: size },
            },
        )
    } else {
        ReceiptOrStateStoredReceipt::Receipt(receipt)
    }
}

impl ReceiptOrStateStoredReceipt {
    /// Unwrap the stored form back to the receipt.
    pub fn into_receipt(self) -> (r: Receipt)
        ensures
            r == spec_inner_receipt(self),
    {
        match self {
            ReceiptOrStateStoredReceipt::Receipt(receipt) => receipt,
            ReceiptOrStateStoredReceipt::StateStoredReceipt(s) => s.receipt,
        }
    }

    /// Whether this stored receipt is reflected in the outgoing-buffer
    /// metadata: only receipts stored with their congestion data are.
    pub fn should_update_outgoing_metadatas(&self) -> (b: bool)
        ensures
            b == (self is StateStoredReceipt),
    {
        match self {
            ReceiptOrStateStoredReceipt::Receipt(_) => false,
            ReceiptOrStateStoredReceipt::StateStoredReceipt(_) => true,
        }
    }
}

/// Wrap a receipt for queueing, persisting its congestion data when the
/// state-stored-receipt flag is on.
pub fn wrap_receipt(
    receipt: Receipt,
    gas: Gas,
    size: u64,
    use_state_stored_receipt: bool,
) -> (r: ReceiptOrStateStoredReceipt)
    ensures
        r == spec_wrap_receipt(receipt, gas, size, use_state_stored_receipt),
{
    if use_state_stored_receipt {
        let metadata = StateStoredReceiptMetadata { congestion_gas: gas, congestion_size: size };
        ReceiptOrStateStoredReceipt::StateStoredReceipt(StateStoredReceipt { receipt, metadata })
    } else {
        ReceiptOrStateStoredReceipt::Receipt(receipt)
    }
}

/// Calculate the congestion gas of a receipt before it is pushed into a
/// state queue or buffer: the sum of prepaid execution fees plus the fixed
/// new-action-receipt fee, prepaid send fees, and gas attached to function
/// calls. The calculation is part of the protocol.
pub fn compute_receipt_congestion_gas(
    receipt: &Receipt,
    config: &RuntimeConfig,
) -> (r: Result<Gas, IntegerOverflowError>)
    ensures
        !spec_receipt_gas_overflows(*receipt, *config) ==> r == Ok::<Gas, IntegerOverflowError>(
            spec_receipt_gas(*receipt, *config) as Gas,
        ),
        spec_receipt_gas_overflows(*receipt, *config) ==> r == Err::<Gas, IntegerOverflowError>(
            IntegerOverflowError,
        ),
{
    match &receipt.payload {
        ReceiptEnum::Action(action_receipt) => {
            proof {
                lemma_sum_exec_fees_nonneg(action_receipt.actions@);
                lemma_sum_send_fees_nonneg(action_receipt.actions@);
                lemma_sum_attached_gas_nonneg(action_receipt.actions@);
            }
            // account for gas guaranteed to be used for executing the receipt
            let exec_fees = match total_prepaid_exec_fees(&action_receipt.actions) {
                Ok(g) => g,
                Err(e) => {
                    return Err(e);
                },
            };
            let prepaid_exec_gas = match safe_add_gas(
                exec_fees,
                config.new_action_receipt_exec_fee,
            ) {
                Ok(g) => g,
                Err(e) => {
                    return Err(e);
                },
            };
            // account for gas guaranteed to be used for creating new receipts
            let prepaid_send_gas = match total_prepaid_send_fees(&action_receipt.actions) {
                Ok(g) => g,
                Err(e) => {
                    return Err(e);
                },
            };
            let prepaid_gas = match safe_add_gas(prepaid_exec_gas, prepaid_send_gas) {
                Ok(g) => g,
                Err(e) => {
                    return Err(e);
                },
            };
            // account for gas potentially used for dynamic execution
            let gas_attached_to_fns = match total_prepaid_gas(&action_receipt.actions) {
                Ok(g) => g,
                Err(e) => {
                    return Err(e);
                },
            };
            let gas = match safe_add_gas(gas_attached_to_fns, prepaid_gas) {
                Ok(g) => g,
                Err(e) => {
                    return Err(e);
                },
            };
            Ok(gas)
        },
        // Data receipts cost no congestion gas: their work is charged to the
        // action receipt that spawned them.
        ReceiptEnum::Data => Ok(0),
        // Yielded promises never cross shard boundaries.
        ReceiptEnum::PromiseYield => Ok(0),
        // Resumed promises cannot be priced without a state lookup.
        ReceiptEnum::PromiseResume => Ok(0),
    }
}

/// The size of a receipt before it is pushed into a state queue or buffer:
/// the byte length of the canonical serialisation.
pub fn compute_receipt_size(receipt: &Receipt) -> (r: Result<u64, IntegerOverflowError>)
    ensures
        r == Ok::<u64, IntegerOverflowError>(receipt.size),
{
    Ok(receipt.size)
}

/// The congestion gas of a receipt retrieved from state: read from the
/// metadata when present, recomputed otherwise.
pub fn receipt_congestion_gas(
    stored: &ReceiptOrStateStoredReceipt,
    config: &RuntimeConfig,
) -> (r: Result<Gas, IntegerOverflowError>)
    ensures
        !spec_stored_gas_overflows(*stored, *config) ==> r == Ok::<Gas, IntegerOverflowError>(
            spec_stored_gas(*stored, *config) as Gas,
        ),
        spec_stored_gas_overflows(*stored, *config) ==> r == Err::<Gas, IntegerOverflowError>(
            IntegerOverflowError,
        ),
{
    match stored {
        ReceiptOrStateStoredReceipt::Receipt(receipt) => compute_receipt_congestion_gas(
            receipt,
            config,
        ),
        ReceiptOrStateStoredReceipt::StateStoredReceipt(s) => Ok(s.metadata.congestion_gas),
    }
}

/// The size of a receipt retrieved from state: read from the metadata when
/// present, the receipt's own size otherwise.
pub fn receipt_size(stored: &ReceiptOrStateStoredReceipt) -> (r: Result<u64, IntegerOverflowError>)
    ensures
        r == Ok::<u64, IntegerOverflowError>(spec_stored_size(*stored) as u64),
        r->Ok_0 == spec_stored_size(*stored),
{
    match stored {
        ReceiptOrStateStoredReceipt::Receipt(receipt) => compute_receipt_size(receipt),
        ReceiptOrStateStoredReceipt::StateStoredReceipt(s) => Ok(s.metadata.congestion_size),
    }
}

} // verus!
