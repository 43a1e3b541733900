//! An escrow ledger for batched fungible-token payouts.
//!
//! Accounts pre-fund a shared pool and later spend their own share through
//! batches of per-recipient transfers. Every transfer is carried out by an
//! asynchronous call whose outcome is known only after the batch has been
//! dispatched, so the ledger is debited first and corrected afterwards by a
//! reconciliation callback.
//!
//! The crate holds the bookkeeping and the decisions. Talking to the host
//! (who is calling, what a finished call returned, scheduling a call) is left
//! to the embedding program, which hands those facts in as a [`Context`] and
//! carries out the [`Transfer`]s that come back.

pub mod account;
pub mod batch;
pub mod gateway;
pub mod laws;
pub mod ledger;
pub mod model;
pub mod types;
pub mod units;

pub use account::is_valid_account;
pub use gateway::{assert_self, is_promise_success};
pub use ledger::MultisenderFt;
pub use types::{
    BalanceQuery, Batch, Context, LedgerError, Operation, PromiseOutcome, Transfer,
};
pub use units::{
    yocto_ft, AGGREGATE_LOG_THRESHOLD, CALLBACK_GAS, GAS_FOR_FT_TRANSFER, NO_DEPOSIT, ONE_YOCTO,
    PROMISE_CALL, STORAGE_DEPOSIT, YOCTO_PER_FT,
};
