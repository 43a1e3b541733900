//! What a batch of instructions asks for, and the checks made on it before
//! anything is dispatched.

use vstd::prelude::*;
use crate::account::{is_valid_account, valid_account_id};
use crate::types::{LedgerError, Operation, TransferView};

verus! {

/// The sum of the amounts of a batch.
pub open spec fn total_amount(ops: Seq<Operation>) -> nat
    decreases ops.len(),
{
    if ops.len() == 0 {
        0
    } else {
        total_amount(ops.drop_last()) + ops.last().amount as nat
    }
}

/// Every recipient of the batch is an account identifier.
pub open spec fn all_recipients_valid(ops: Seq<Operation>) -> bool {
    forall|i: int| 0 <= i < ops.len() ==> valid_account_id(#[trigger] ops[i].account_id@)
}

/// The instruction at `index` is the first whose recipient is no account
/// identifier.
pub open spec fn is_first_invalid_recipient(ops: Seq<Operation>, index: int) -> bool {
    &&& 0 <= index < ops.len()
    &&& !valid_account_id(ops[index].account_id@)
    &&& all_recipients_valid(ops.take(index))
}

/// The transfers that a batch turns into: one per instruction, in order,
/// each paid for by `sender`.
pub open spec fn planned_transfers(
    sender: Seq<char>,
    ops: Seq<Operation>,
    reconciled: bool,
) -> Seq<TransferView> {
    Seq::new(
        ops.len(),
        |i: int|
            TransferView {
                account_id: sender,
                recipient: ops[i].account_id@,
                amount: ops[i].amount,
                reconciled,
            },
    )
}

/// Taking one more instruction into the sum adds its amount.
pub proof fn lemma_total_amount_step(ops: Seq<Operation>, i: int)
    requires
        0 <= i < ops.len(),
    ensures
        total_amount(ops.take(i + 1)) == total_amount(ops.take(i)) + ops[i].amount,
{
    assert(ops.take(i + 1).drop_last() =~= ops.take(i));
}

/// A part of a batch asks for no more than the whole.
pub proof fn lemma_total_amount_prefix(ops: Seq<Operation>, i: int)
    requires
        0 <= i <= ops.len(),
    ensures
        total_amount(ops.take(i)) <= total_amount(ops),
    decreases ops.len() - i,
{
    if i == ops.len() {
        assert(ops.take(i) =~= ops);
    } else {
        lemma_total_amount_step(ops, i);
        lemma_total_amount_prefix(ops, i + 1);
    }
}

/// Checks every recipient and reports the first that is no account
/// identifier.
pub fn check_recipients(ops: &Vec<Operation>) -> (checked: Result<(), LedgerError>)
    ensures
        match checked {
            Ok(()) => all_recipients_valid(ops@),
            Err(LedgerError::InvalidRecipient { index }) => is_first_invalid_recipient(
                ops@,
                index as int,
            ),
            Err(_) => false,
        },
{
    let mut i: usize = 0;
    while i < ops.len()
        invariant
            i <= ops.len(),
            all_recipients_valid(ops@.take(i as int)),
        decreases ops.len() - i,
    {
        if !is_valid_account(&ops[i].account_id) {
            return Err(LedgerError::InvalidRecipient { index: i });
        }
        assert forall|j: int| 0 <= j < i + 1 implies valid_account_id(
            #[trigger] ops@.take(i + 1)[j].account_id@,
        ) by {
            if j < i {
                assert(ops@.take(i as int)[j] == ops@[j]);
            }
        }
        i += 1;
    }
    assert(ops@.take(i as int) =~= ops@);
    Ok(())
}

/// Adds up a batch as long as the sum stays within `limit`.
pub fn total_within(ops: &Vec<Operation>, limit: u128) -> (total: Option<u128>)
    ensures
        match total {
            Some(sum) => sum == total_amount(ops@) && sum <= limit,
            None => total_amount(ops@) > limit,
        },
{
    let mut sum: u128 = 0;
    let mut i: usize = 0;
    while i < ops.len()
        invariant
            i <= ops.len(),
            sum == total_amount(ops@.take(i as int)),
            sum <= limit,
        decreases ops.len() - i,
    {
        let amount: u128 = ops[i].amount;
        proof {
            lemma_total_amount_step(ops@, i as int);
        }
        if amount > limit - sum {
            proof {
                lemma_total_amount_prefix(ops@, i + 1);
            }
            return None;
        }
        sum = sum + amount;
        i += 1;
    }
    assert(ops@.take(i as int) =~= ops@);
    Some(sum)
}

} // verus!
