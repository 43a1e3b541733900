//! What holds of the ledger across calls: escrow never goes below zero,
//! reconciliation gives back exactly what failed, in whatever order the
//! outcomes arrive, and the unreconciled path gives nothing back.

use vstd::prelude::*;
use vstd::seq_lib::group_to_multiset_ensures;
use crate::batch::{planned_transfers, total_amount};
use crate::ledger::batch_accepted;
use crate::model::{
    debited, delivered, escrow_of, refund_due, refund_of, settled, settled_all, transfers_of,
    AccountMap, Arrival,
};
use crate::types::{Operation, TransferView};

verus! {

/// The outcomes of `transfers`, in their order, when every one of them has
/// failed.
pub open spec fn all_failed(transfers: Seq<TransferView>) -> Seq<Arrival> {
    Seq::new(transfers.len(), |i: int| Arrival { transfer: transfers[i], succeeded: false })
}

/// `arrival` was paid for by `payer`.
pub open spec fn paid_by(arrival: Arrival, payer: Seq<char>) -> bool {
    arrival.transfer.account_id == payer
}

/// `arrival` is the outcome of a transfer with a reconciliation callback.
pub open spec fn with_callback(arrival: Arrival) -> bool {
    arrival.transfer.reconciled
}

/// Every one of `arrivals` was paid for by `payer`.
pub open spec fn all_paid_by(arrivals: Seq<Arrival>, payer: Seq<char>) -> bool {
    forall|i: int| 0 <= i < arrivals.len() ==> #[trigger] paid_by(arrivals[i], payer)
}

/// The escrow of every account, in every ledger, is an amount between zero
/// and the largest amount there is.
pub proof fn law_escrow_never_negative(ledger: AccountMap, account: Seq<char>)
    ensures
        0 <= escrow_of(ledger, account) <= u128::MAX,
{
}

/// An accepted batch takes exactly its total out of the caller's escrow,
/// which stays at or above zero, and leaves every other account alone.
pub proof fn law_accepted_batch_debits_exactly(
    ledger: AccountMap,
    caller: Seq<char>,
    ops: Seq<Operation>,
    account: Seq<char>,
)
    requires
        batch_accepted(ledger, caller, ops),
    ensures
        account == caller ==> escrow_of(debited(ledger, caller, total_amount(ops)), account)
            == escrow_of(ledger, caller) - total_amount(ops) >= 0,
        account != caller ==> escrow_of(debited(ledger, caller, total_amount(ops)), account)
            == escrow_of(ledger, account),
{
}

/// Leaving one arrival out lowers what is due by what that arrival gives
/// back.
proof fn lemma_refund_due_remove(arrivals: Seq<Arrival>, j: int)
    requires
        0 <= j < arrivals.len(),
    ensures
        refund_due(arrivals) == refund_due(arrivals.remove(j)) + refund_of(arrivals[j]),
    decreases arrivals.len(),
{
    if j == arrivals.len() - 1 {
        assert(arrivals.remove(j) =~= arrivals.drop_last());
    } else {
        lemma_refund_due_remove(arrivals.drop_last(), j);
        assert(arrivals.remove(j).drop_last() =~= arrivals.drop_last().remove(j));
        assert(arrivals.remove(j).last() == arrivals.last());
    }
}

/// What a set of outcomes gives back does not depend on the order in which
/// they arrive.
pub proof fn law_refund_is_order_independent(first: Seq<Arrival>, second: Seq<Arrival>)
    requires
        first.to_multiset() == second.to_multiset(),
    ensures
        refund_due(first) == refund_due(second),
    decreases first.len(),
{
    broadcast use group_to_multiset_ensures;

    if first.len() == 0 {
        assert(second.to_multiset().len() == 0);
    } else {
        let last = first.last();
        assert(first.to_multiset().count(last) > 0);
        assert(second.contains(last));
        let j = second.index_of(last);
        assert(first.drop_last() =~= first.remove(first.len() - 1));
        law_refund_is_order_independent(first.drop_last(), second.remove(j));
        lemma_refund_due_remove(second, j);
    }
}

/// When the outcomes of transfers that one account has paid for reach the
/// ledger, in any order, the escrow of that account grows by what the failed
/// transfers with a reconciliation callback had taken, and nothing else
/// changes.
pub proof fn law_settlement_refunds_failures(
    ledger: AccountMap,
    payer: Seq<char>,
    arrivals: Seq<Arrival>,
)
    requires
        ledger.contains_key(payer),
        all_paid_by(arrivals, payer),
        escrow_of(ledger, payer) + refund_due(arrivals) <= u128::MAX,
    ensures
        settled_all(ledger, arrivals) == ledger.insert(
            payer,
            (escrow_of(ledger, payer) + refund_due(arrivals)) as u128,
        ),
    decreases arrivals.len(),
{
    if arrivals.len() == 0 {
        assert(ledger.insert(payer, ledger[payer]) =~= ledger);
    } else {
        let earlier = arrivals.drop_last();
        let last = arrivals.last();
        assert(all_paid_by(earlier, payer)) by {
            assert forall|i: int| 0 <= i < earlier.len() implies #[trigger] paid_by(
                earlier[i],
                payer,
            ) by {
                assert(paid_by(arrivals[i], payer));
            }
        }
        law_settlement_refunds_failures(ledger, payer, earlier);
        let before_last = settled_all(ledger, earlier);
        assert(paid_by(arrivals[arrivals.len() - 1], payer));
        assert(escrow_of(before_last, payer) == escrow_of(ledger, payer) + refund_due(earlier));
        assert(settled(before_last, last.transfer, last.succeeded) =~= ledger.insert(
            payer,
            (escrow_of(ledger, payer) + refund_due(arrivals)) as u128,
        ));
    }
}

/// The failures of a whole batch give back the batch total.
proof fn lemma_failed_batch_refund(caller: Seq<char>, ops: Seq<Operation>)
    ensures
        refund_due(all_failed(planned_transfers(caller, ops, true))) == total_amount(ops),
    decreases ops.len(),
{
    if ops.len() > 0 {
        lemma_failed_batch_refund(caller, ops.drop_last());
        assert(all_failed(planned_transfers(caller, ops, true)).drop_last() =~= all_failed(
            planned_transfers(caller, ops.drop_last(), true),
        ));
    }
}

/// The first arrivals of a sequence give back no more than all of them.
proof fn lemma_refund_due_prefix(arrivals: Seq<Arrival>, k: int)
    requires
        0 <= k <= arrivals.len(),
    ensures
        refund_due(arrivals.take(k)) <= refund_due(arrivals),
    decreases arrivals.len() - k,
{
    if k == arrivals.len() {
        assert(arrivals.take(k) =~= arrivals);
    } else {
        assert(arrivals.take(k + 1).drop_last() =~= arrivals.take(k));
        lemma_refund_due_prefix(arrivals, k + 1);
    }
}

/// If every transfer of a reconciled batch fails, the ledger ends up as it
/// was before the batch, in whatever order the failures arrive, and on the
/// way there the caller's escrow never exceeds what it was before the batch:
/// no refund is turned down for want of room.
pub proof fn law_failed_batch_is_refunded(
    ledger: AccountMap,
    caller: Seq<char>,
    ops: Seq<Operation>,
    arrivals: Seq<Arrival>,
)
    requires
        batch_accepted(ledger, caller, ops),
        arrivals.to_multiset() == all_failed(planned_transfers(caller, ops, true)).to_multiset(),
    ensures
        settled_all(debited(ledger, caller, total_amount(ops)), arrivals) == ledger,
        escrow_of(settled_all(debited(ledger, caller, total_amount(ops)), arrivals), caller)
            == escrow_of(ledger, caller),
        forall|k: int|
            0 <= k <= arrivals.len() ==> escrow_of(
                #[trigger] settled_all(
                    debited(ledger, caller, total_amount(ops)),
                    arrivals.take(k),
                ),
                caller,
            ) <= escrow_of(ledger, caller),
{
    broadcast use group_to_multiset_ensures;

    let failures = all_failed(planned_transfers(caller, ops, true));
    let debit = debited(ledger, caller, total_amount(ops));
    law_refund_is_order_independent(arrivals, failures);
    lemma_failed_batch_refund(caller, ops);
    assert(all_paid_by(arrivals, caller)) by {
        assert forall|i: int| 0 <= i < arrivals.len() implies #[trigger] paid_by(
            arrivals[i],
            caller,
        ) by {
            assert(arrivals.contains(arrivals[i]));
            assert(failures.to_multiset().count(arrivals[i]) > 0);
            assert(failures.contains(arrivals[i]));
            let k = failures.index_of(arrivals[i]);
            assert(failures[k].transfer.account_id == caller);
        }
    }
    law_settlement_refunds_failures(debit, caller, arrivals);
    assert(settled_all(debit, arrivals) =~= ledger);
    assert forall|k: int| 0 <= k <= arrivals.len() implies escrow_of(
        #[trigger] settled_all(debit, arrivals.take(k)),
        caller,
    ) <= escrow_of(ledger, caller) by {
        let earlier = arrivals.take(k);
        lemma_refund_due_prefix(arrivals, k);
        assert forall|i: int| 0 <= i < earlier.len() implies #[trigger] paid_by(
            earlier[i],
            caller,
        ) by {
            assert(paid_by(arrivals[i], caller));
        }
        law_settlement_refunds_failures(debit, caller, earlier);
    }
}

/// The sum of the amounts of `transfers`.
spec fn amount_sum(transfers: Seq<TransferView>) -> nat
    decreases transfers.len(),
{
    if transfers.len() == 0 {
        0
    } else {
        amount_sum(transfers.drop_last()) + transfers.last().amount as nat
    }
}

/// Leaving one transfer out lowers the sum by its amount.
proof fn lemma_amount_sum_remove(transfers: Seq<TransferView>, j: int)
    requires
        0 <= j < transfers.len(),
    ensures
        amount_sum(transfers) == amount_sum(transfers.remove(j)) + transfers[j].amount,
    decreases transfers.len(),
{
    if j == transfers.len() - 1 {
        assert(transfers.remove(j) =~= transfers.drop_last());
    } else {
        lemma_amount_sum_remove(transfers.drop_last(), j);
        assert(transfers.remove(j).drop_last() =~= transfers.drop_last().remove(j));
        assert(transfers.remove(j).last() == transfers.last());
    }
}

/// The sum of the amounts does not depend on the order of the transfers.
proof fn lemma_amount_sum_is_order_independent(first: Seq<TransferView>, second: Seq<TransferView>)
    requires
        first.to_multiset() == second.to_multiset(),
    ensures
        amount_sum(first) == amount_sum(second),
    decreases first.len(),
{
    broadcast use group_to_multiset_ensures;

    if first.len() == 0 {
        assert(second.to_multiset().len() == 0);
    } else {
        let last = first.last();
        assert(first.to_multiset().count(last) > 0);
        assert(second.contains(last));
        let j = second.index_of(last);
        assert(first.drop_last() =~= first.remove(first.len() - 1));
        lemma_amount_sum_is_order_independent(first.drop_last(), second.remove(j));
        lemma_amount_sum_remove(second, j);
    }
}

/// The transfers of a batch move the batch total.
proof fn lemma_planned_amount_sum(caller: Seq<char>, ops: Seq<Operation>, reconciled: bool)
    ensures
        amount_sum(planned_transfers(caller, ops, reconciled)) == total_amount(ops),
    decreases ops.len(),
{
    if ops.len() > 0 {
        lemma_planned_amount_sum(caller, ops.drop_last(), reconciled);
        assert(planned_transfers(caller, ops, reconciled).drop_last() =~= planned_transfers(
            caller,
            ops.drop_last(),
            reconciled,
        ));
    }
}

/// Of transfers that all carry a reconciliation callback, each amount is
/// either delivered or due back.
proof fn lemma_delivered_or_refunded(arrivals: Seq<Arrival>)
    requires
        forall|i: int| 0 <= i < arrivals.len() ==> #[trigger] with_callback(arrivals[i]),
    ensures
        delivered(arrivals) + refund_due(arrivals) == amount_sum(transfers_of(arrivals)),
    decreases arrivals.len(),
{
    if arrivals.len() > 0 {
        let earlier = arrivals.drop_last();
        assert forall|i: int| 0 <= i < earlier.len() implies #[trigger] with_callback(
            earlier[i],
        ) by {
            assert(with_callback(arrivals[i]));
        }
        lemma_delivered_or_refunded(earlier);
        assert(transfers_of(arrivals).drop_last() =~= transfers_of(earlier));
        assert(with_callback(arrivals[arrivals.len() - 1]));
    }
}

/// Once the outcome of every transfer of a reconciled batch has arrived, in
/// whatever order, the caller is out of pocket by exactly what was
/// delivered, and every other account holds what it held.
pub proof fn law_reconciled_batch_costs_what_was_delivered(
    ledger: AccountMap,
    caller: Seq<char>,
    ops: Seq<Operation>,
    arrivals: Seq<Arrival>,
)
    requires
        batch_accepted(ledger, caller, ops),
        transfers_of(arrivals).to_multiset() == planned_transfers(caller, ops, true).to_multiset(),
    ensures
        delivered(arrivals) <= total_amount(ops),
        settled_all(debited(ledger, caller, total_amount(ops)), arrivals) == debited(
            ledger,
            caller,
            delivered(arrivals),
        ),
        escrow_of(settled_all(debited(ledger, caller, total_amount(ops)), arrivals), caller)
            == escrow_of(ledger, caller) - delivered(arrivals),
{
    broadcast use group_to_multiset_ensures;

    let planned = planned_transfers(caller, ops, true);
    let debit = debited(ledger, caller, total_amount(ops));
    assert forall|i: int|
        #![trigger with_callback(arrivals[i])]
        #![trigger paid_by(arrivals[i], caller)]
        0 <= i < arrivals.len() implies with_callback(arrivals[i]) && paid_by(arrivals[i], caller)
    by {
        let transfer = transfers_of(arrivals)[i];
        assert(transfers_of(arrivals).contains(transfer));
        assert(planned.to_multiset().count(transfer) > 0);
        assert(planned.contains(transfer));
        let k = planned.index_of(transfer);
        assert(planned[k].reconciled && planned[k].account_id == caller);
    }
    lemma_delivered_or_refunded(arrivals);
    lemma_amount_sum_is_order_independent(transfers_of(arrivals), planned);
    lemma_planned_amount_sum(caller, ops, true);
    law_settlement_refunds_failures(debit, caller, arrivals);
    assert(settled_all(debit, arrivals) =~= debited(ledger, caller, delivered(arrivals)));
}

/// Outcomes of transfers without a reconciliation callback change nothing.
proof fn lemma_unreconciled_arrivals_settle_nothing(ledger: AccountMap, arrivals: Seq<Arrival>)
    requires
        forall|i: int| 0 <= i < arrivals.len() ==> !#[trigger] with_callback(arrivals[i]),
    ensures
        settled_all(ledger, arrivals) == ledger,
    decreases arrivals.len(),
{
    if arrivals.len() > 0 {
        let earlier = arrivals.drop_last();
        assert forall|i: int| 0 <= i < earlier.len() implies !#[trigger] with_callback(
            earlier[i],
        ) by {
            assert(!with_callback(arrivals[i]));
        }
        lemma_unreconciled_arrivals_settle_nothing(ledger, earlier);
        assert(!with_callback(arrivals[arrivals.len() - 1]));
    }
}

/// On the unreconciled path nothing comes back: whatever the outcomes of
/// the transfers of such a batch are, and however many of them arrive, the
/// caller's escrow stays where the batch has left it.
pub proof fn law_unreconciled_batch_stays_debited(
    ledger: AccountMap,
    caller: Seq<char>,
    ops: Seq<Operation>,
    arrivals: Seq<Arrival>,
)
    requires
        batch_accepted(ledger, caller, ops),
        forall|i: int|
            0 <= i < arrivals.len() ==> planned_transfers(caller, ops, false).contains(
                (#[trigger] arrivals[i]).transfer,
            ),
    ensures
        settled_all(debited(ledger, caller, total_amount(ops)), arrivals) == debited(
            ledger,
            caller,
            total_amount(ops),
        ),
        escrow_of(settled_all(debited(ledger, caller, total_amount(ops)), arrivals), caller)
            == escrow_of(ledger, caller) - total_amount(ops),
{
    let planned = planned_transfers(caller, ops, false);
    assert forall|i: int| 0 <= i < arrivals.len() implies !#[trigger] with_callback(
        arrivals[i],
    ) by {
        assert(planned.contains(arrivals[i].transfer));
        let k = planned.index_of(arrivals[i].transfer);
        assert(!planned[k].reconciled);
    }
    lemma_unreconciled_arrivals_settle_nothing(
        debited(ledger, caller, total_amount(ops)),
        arrivals,
    );
}

} // verus!
