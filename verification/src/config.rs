//! Runtime configuration and the checked gas summation helpers.

use vstd::prelude::*;

use crate::errors::IntegerOverflowError;
use crate::receipt::Action;
use crate::types::Gas;

verus! {

/// The slice of the runtime configuration that the sink reads.
#[derive(Debug, Clone, Copy, PartialEq, Eq, Structural)]
pub struct RuntimeConfig {
    /// Fixed execution fee charged for every new action receipt.
    pub new_action_receipt_exec_fee: Gas,
    /// Default per-chunk size limit for outgoing receipts toward shards
    /// with no known congestion info.
    pub outgoing_receipts_usual_size_limit: u64,
    /// When set, queues persist precomputed congestion gas and size next to
    /// each receipt so later readers need not recompute them.
    pub use_state_stored_receipt: bool,
}

/// Sum of the prepaid execution fees of `actions`, as a mathematical integer.
pub open spec fn sum_exec_fees(actions: Seq<Action>) -> int
    decreases actions.len(),
{
    if actions.len() == 0 {
        0
    } else {
        sum_exec_fees(actions.drop_last()) + actions.last().prepaid_exec_fee
    }
}

/// Sum of the prepaid send fees of `actions`, as a mathematical integer.
pub open spec fn sum_send_fees(actions: Seq<Action>) -> int
    decreases actions.len(),
{
    if actions.len() == 0 {
        0
    } else {
        sum_send_fees(actions.drop_last()) + actions.last().prepaid_send_fee
    }
}

/// Sum of the gas attached to the function calls of `actions`, as a
/// mathematical integer.
pub open spec fn sum_attached_gas(actions: Seq<Action>) -> int
    decreases actions.len(),
{
    if actions.len() == 0 {
        0
    } else {
        sum_attached_gas(actions.drop_last()) + actions.last().attached_gas
    }
}

pub proof fn lemma_sum_exec_fees_nonneg(actions: Seq<Action>)
    ensures
        sum_exec_fees(actions) >= 0,
    decreases actions.len(),
{
    if actions.len() > 0 {
        lemma_sum_exec_fees_nonneg(actions.drop_last());
    }
}

pub proof fn lemma_sum_send_fees_nonneg(actions: Seq<Action>)
    ensures
        sum_send_fees(actions) >= 0,
    decreases actions.len(),
{
    if actions.len() > 0 {
        lemma_sum_send_fees_nonneg(actions.drop_last());
    }
}

pub proof fn lemma_sum_attached_gas_nonneg(actions: Seq<Action>)
    ensures
        sum_attached_gas(actions) >= 0,
    decreases actions.len(),
{
    if actions.len() > 0 {
        lemma_sum_attached_gas_nonneg(actions.drop_last());
    }
}

pub proof fn lemma_sum_exec_fees_prefix(actions: Seq<Action>, i: int)
    requires
        0 <= i <= actions.len(),
    ensures
        sum_exec_fees(actions.take(i)) <= sum_exec_fees(actions),
    decreases actions.len() - i,
{
    if i < actions.len() {
        assert(actions.take(i + 1).drop_last() =~= actions.take(i));
        lemma_sum_exec_fees_prefix(actions, i + 1);
    } else {
        assert(actions.take(i) =~= actions);
    }
}

pub proof fn lemma_sum_send_fees_prefix(actions: Seq<Action>, i: int)
    requires
        0 <= i <= actions.len(),
    ensures
        sum_send_fees(actions.take(i)) <= sum_send_fees(actions),
    decreases actions.len() - i,
{
    if i < actions.len() {
        assert(actions.take(i + 1).drop_last() =~= actions.take(i));
        lemma_sum_send_fees_prefix(actions, i + 1);
    } else {
        assert(actions.take(i) =~= actions);
    }
}

pub proof fn lemma_sum_attached_gas_prefix(actions: Seq<Action>, i: int)
    requires
        0 <= i <= actions.len(),
    ensures
        sum_attached_gas(actions.take(i)) <= sum_attached_gas(actions),
    decreases actions.len() - i,
{
    if i < actions.len() {
        assert(actions.take(i + 1).drop_last() =~= actions.take(i));
        lemma_sum_attached_gas_prefix(actions, i + 1);
    } else {
        assert(actions.take(i) =~= actions);
    }
}

/// Checked addition of two gas amounts.
pub fn safe_add_gas(a: Gas, b: Gas) -> (r: Result<Gas, IntegerOverflowError>)
    ensures
        a + b <= u64::MAX ==> r == Ok::<Gas, IntegerOverflowError>((a + b) as Gas),
        a + b > u64::MAX ==> r == Err::<Gas, IntegerOverflowError>(IntegerOverflowError),
{
    match a.checked_add(b) {
        Some(s) => Ok(s),
        None => Err(IntegerOverflowError),
    }
}

/// Total prepaid execution fees of `actions`, with checked addition.
pub fn total_prepaid_exec_fees(actions: &Vec<Action>) -> (r: Result<Gas, IntegerOverflowError>)
    ensures
        sum_exec_fees(actions@) <= u64::MAX
            ==> r == Ok::<Gas, IntegerOverflowError>(sum_exec_fees(actions@) as Gas),
        sum_exec_fees(actions@) > u64::MAX
            ==> r == Err::<Gas, IntegerOverflowError>(IntegerOverflowError),
{
    let mut total: Gas = 0;
    let mut i: usize = 0;
    while i < actions.len()
        invariant
            i <= actions.len(),
            total == sum_exec_fees(actions@.take(i as int)),
        decreases actions.len() - i,
    {
        proof {
            assert(actions@.take(i + 1).drop_last() =~= actions@.take(i as int));
        }
        match total.checked_add(actions[i].prepaid_exec_fee) {
            Some(t) => {
                total = t;
            },
            None => {
                proof {
                    lemma_sum_exec_fees_prefix(actions@, i + 1);
                }
                return Err(IntegerOverflowError);
            },
        }
        i = i + 1;
    }
    proof {
        assert(actions@.take(actions@.len() as int) =~= actions@);
    }
    Ok(total)
}

/// Total prepaid send fees of `actions`, with checked addition.
pub fn total_prepaid_send_fees(actions: &Vec<Action>) -> (r: Result<Gas, IntegerOverflowError>)
    ensures
        sum_send_fees(actions@) <= u64::MAX
            ==> r == Ok::<Gas, IntegerOverflowError>(sum_send_fees(actions@) as Gas),
        sum_send_fees(actions@) > u64::MAX
            ==> r == Err::<Gas, IntegerOverflowError>(IntegerOverflowError),
{
    let mut total: Gas = 0;
    let mut i: usize = 0;
    while i < actions.len()
        invariant
            i <= actions.len(),
            total == sum_send_fees(actions@.take(i as int)),
        decreases actions.len() - i,
    {
        proof {
            assert(actions@.take(i + 1).drop_last() =~= actions@.take(i as int));
        }
        match total.checked_add(actions[i].prepaid_send_fee) {
            Some(t) => {
                total = t;
            },
            None => {
                proof {
                    lemma_sum_send_fees_prefix(actions@, i + 1);
                }
                return Err(IntegerOverflowError);
            },
        }
        i = i + 1;
    }
    proof {
        assert(actions@.take(actions@.len() as int) =~= actions@);
    }
    Ok(total)
}

/// Total gas attached to function calls in `actions`, with checked addition.
pub fn total_prepaid_gas(actions: &Vec<Action>) -> (r: Result<Gas, IntegerOverflowError>)
    ensures
        sum_attached_gas(actions@) <= u64::MAX
            ==> r == Ok::<Gas, IntegerOverflowError>(sum_attached_gas(actions@) as Gas),
        sum_attached_gas(actions@) > u64::MAX
            ==> r == Err::<Gas, IntegerOverflowError>(IntegerOverflowError),
{
    let mut total: Gas = 0;
    let mut i: usize = 0;
    while i < actions.len()
        invariant
            i <= actions.len(),
            total == sum_attached_gas(actions@.take(i as int)),
        decreases actions.len() - i,
    {
        proof {
            assert(actions@.take(i + 1).drop_last() =~= actions@.take(i as int));
        }
        match total.checked_add(actions[i].attached_gas) {
            Some(t) => {
                total = t;
            },
            None => {
                proof {
                    lemma_sum_attached_gas_prefix(actions@, i + 1);
                }
                return Err(IntegerOverflowError);
            },
        }
        i = i + 1;
    }
    proof {
        assert(actions@.take(actions@.len() as int) =~= actions@);
    }
    Ok(total)
}

} // verus!
