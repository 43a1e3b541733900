//! The ledger as mathematics: a map from account to amount, the two ways it
//! moves, and what the outcomes of transfers do to it.

use vstd::prelude::*;
use crate::types::TransferView;

verus! {

/// An amount per account. An account without an entry stands at nothing.
pub type AccountMap = Map<Seq<char>, u128>;

/// What `account` holds in escrow.
pub open spec fn escrow_of(ledger: AccountMap, account: Seq<char>) -> nat {
    if ledger.contains_key(account) {
        ledger[account] as nat
    } else {
        0
    }
}

/// The last observed token balance of `account`.
pub open spec fn observed_of(cache: AccountMap, account: Seq<char>) -> nat {
    if cache.contains_key(account) {
        cache[account] as nat
    } else {
        0
    }
}

/// The ledger after `amount` has left the escrow of `account`.
pub open spec fn debited(ledger: AccountMap, account: Seq<char>, amount: nat) -> AccountMap
    recommends
        amount <= escrow_of(ledger, account),
{
    ledger.insert(account, (escrow_of(ledger, account) - amount) as u128)
}

/// The ledger after `amount` has come back into the escrow of `account`.
pub open spec fn credited(ledger: AccountMap, account: Seq<char>, amount: nat) -> AccountMap
    recommends
        escrow_of(ledger, account) + amount <= u128::MAX,
{
    ledger.insert(account, (escrow_of(ledger, account) + amount) as u128)
}

/// The ledger after the outcome of `transfer` has reached it: a failed
/// transfer that carries a reconciliation callback gives its amount back to
/// the account that paid for it, and nothing else changes anything.
pub open spec fn settled(ledger: AccountMap, transfer: TransferView, succeeded: bool) -> AccountMap {
    if transfer.reconciled && !succeeded {
        credited(ledger, transfer.account_id, transfer.amount as nat)
    } else {
        ledger
    }
}

/// The outcome of a transfer, as it reaches the ledger.
pub struct Arrival {
    pub transfer: TransferView,
    pub succeeded: bool,
}

/// What `arrival` gives back to the account that paid for it.
pub open spec fn refund_of(arrival: Arrival) -> nat {
    if arrival.transfer.reconciled && !arrival.succeeded {
        arrival.transfer.amount as nat
    } else {
        0
    }
}

/// What `arrivals` give back in all.
pub open spec fn refund_due(arrivals: Seq<Arrival>) -> nat
    decreases arrivals.len(),
{
    if arrivals.len() == 0 {
        0
    } else {
        refund_due(arrivals.drop_last()) + refund_of(arrivals.last())
    }
}

/// What the transfers among `arrivals` that succeeded have moved.
pub open spec fn delivered(arrivals: Seq<Arrival>) -> nat
    decreases arrivals.len(),
{
    if arrivals.len() == 0 {
        0
    } else if arrivals.last().succeeded {
        delivered(arrivals.drop_last()) + arrivals.last().transfer.amount as nat
    } else {
        delivered(arrivals.drop_last())
    }
}

/// The transfers whose outcomes `arrivals` are, in the order of arrival.
pub open spec fn transfers_of(arrivals: Seq<Arrival>) -> Seq<TransferView> {
    arrivals.map_values(|arrival: Arrival| arrival.transfer)
}

/// The ledger after `arrivals` have reached it one after the other.
pub open spec fn settled_all(ledger: AccountMap, arrivals: Seq<Arrival>) -> AccountMap
    decreases arrivals.len(),
{
    if arrivals.len() == 0 {
        ledger
    } else {
        settled(
            settled_all(ledger, arrivals.drop_last()),
            arrivals.last().transfer,
            arrivals.last().succeeded,
        )
    }
}

} // verus!
