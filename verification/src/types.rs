//! The plain values that cross the library's boundary.

use vstd::prelude::*;

verus! {

/// One instruction of a batch: pay `amount` to `account_id`.
#[derive(Clone, Debug, PartialEq, Eq)]
pub struct Operation {
    pub account_id: String,
    pub amount: u128,
}

/// What an [`Operation`] says.
pub struct OperationView {
    pub account_id: Seq<char>,
    pub amount: u128,
}

impl View for Operation {
    type V = OperationView;

    open spec fn view(&self) -> OperationView {
        OperationView { account_id: self.account_id@, amount: self.amount }
    }
}

/// A transfer that the ledger has decided on and that the embedding program
/// has to hand to the token contract. Its outcome is not known yet.
#[derive(Clone, Debug, PartialEq, Eq)]
pub struct Transfer {
    /// The account whose escrow pays for the transfer.
    pub account_id: String,
    /// The account that receives the tokens.
    pub recipient: String,
    /// Tokens moved, in the smallest unit.
    pub amount: u128,
    /// Whether a reconciliation callback is attached, so that a failure
    /// gives the amount back to `account_id`.
    pub reconciled: bool,
}

/// What a [`Transfer`] says.
pub struct TransferView {
    pub account_id: Seq<char>,
    pub recipient: Seq<char>,
    pub amount: u128,
    pub reconciled: bool,
}

impl View for Transfer {
    type V = TransferView;

    open spec fn view(&self) -> TransferView {
        TransferView {
            account_id: self.account_id@,
            recipient: self.recipient@,
            amount: self.amount,
            reconciled: self.reconciled,
        }
    }
}

/// The result of dispatching a batch.
#[derive(Clone, Debug, PartialEq, Eq)]
pub struct Batch {
    /// One transfer per instruction, in the order of the batch.
    pub transfers: Vec<Transfer>,
    /// Whether the batch is reported in a single log record instead of one
    /// record per instruction.
    pub aggregate_logs: bool,
}

/// What a [`Batch`] says.
pub struct BatchView {
    pub transfers: Seq<TransferView>,
    pub aggregate_logs: bool,
}

impl View for Batch {
    type V = BatchView;

    open spec fn view(&self) -> BatchView {
        BatchView {
            transfers: self.transfers@.map_values(|t: Transfer| t@),
            aggregate_logs: self.aggregate_logs,
        }
    }
}

/// A query for the token balance of an account, which the embedding program
/// has to send to the token contract. The reply comes back through
/// `on_ft_balance_of`, for the same account.
#[derive(Clone, Debug, PartialEq, Eq)]
pub struct BalanceQuery {
    /// The account whose balance is asked for.
    pub account_id: String,
    /// Payment attached to the query and to its callback.
    pub attached_deposit: u128,
    /// Gas given to the query and to its callback, each.
    pub gas: u64,
}

/// How an asynchronous call ended, as the host reports it to a callback.
#[derive(Clone, Debug, PartialEq, Eq)]
pub enum PromiseOutcome {
    /// The call has not finished.
    NotReady,
    /// The call succeeded and returned these bytes.
    Successful(Vec<u8>),
    /// The call failed.
    Failed,
}

/// What the host tells an entry point about the call it is serving.
#[derive(Clone, Debug, PartialEq, Eq)]
pub struct Context {
    /// The account that made the call.
    pub predecessor_account_id: String,
    /// The account that the ledger itself runs under.
    pub current_account_id: String,
    /// Outcomes of the calls that this call is a callback of; empty when it
    /// is not a callback.
    pub promise_results: Vec<PromiseOutcome>,
}

impl Context {
    /// Whether the call comes from the ledger's own account.
    pub open spec fn is_self_call(&self) -> bool {
        self.predecessor_account_id@ == self.current_account_id@
    }

    /// Whether the call is the callback of exactly one call.
    pub open spec fn is_callback(&self) -> bool {
        self.promise_results@.len() == 1
    }

    /// Whether the call is the callback of exactly one call, which succeeded.
    pub open spec fn promise_succeeded(&self) -> bool {
        self.is_callback() && self.promise_results@[0] is Successful
    }
}

/// Why an operation was turned down. Whenever one of these comes back, the
/// ledger is as it was before the call.
#[derive(Clone, Copy, Debug, PartialEq, Eq, Structural)]
pub enum LedgerError {
    /// The last observed token balance of the account does not exceed the
    /// deposit plus the fee reserve.
    InsufficientExternalFunds,
    /// The account's escrow does not exceed the fee reserve.
    NothingToWithdraw,
    /// The account has no ledger entry.
    UnknownAccount,
    /// The recipient of the instruction at `index` is not an account
    /// identifier, and those before it are.
    InvalidRecipient { index: usize },
    /// The escrow does not cover what is asked for.
    InsufficientDeposit,
    /// The amount cannot be represented.
    AmountOverflow,
    /// The entry point serves callbacks of exactly one call and was reached
    /// otherwise.
    NotACallback,
    /// The balance query did not succeed.
    QueryFailed,
    /// The balance query returned something that is not a balance.
    MalformedBalance,
    /// A callback was called by someone other than the ledger itself.
    SelfCallViolation,
}

} // verus!
