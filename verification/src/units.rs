//! Amounts, fees and gas allowances.

use vstd::prelude::*;

verus! {

/// Gas attached to a call into the token contract and to its callback.
pub const CALLBACK_GAS: u64 = 5_000_000_000_000;

/// Gas attached to a plain cross-contract call.
pub const PROMISE_CALL: u64 = 5_000_000_000_000;

/// Fee reserve, in the token's smallest unit, that an account must hold on
/// top of what it moves. It is also the gas given to a reconciliation
/// callback.
pub const GAS_FOR_FT_TRANSFER: u128 = 10_000_000_000_000;

/// Attached to calls that carry no payment.
pub const NO_DEPOSIT: u128 = 0;

/// Payment attached to a transfer call.
pub const ONE_YOCTO: u128 = 1;

/// Payment attached to the storage registration of a recipient.
pub const STORAGE_DEPOSIT: u128 = 1_250_000_000_000_000_000_000;

/// Number of smallest units in one whole token.
pub const YOCTO_PER_FT: u128 = 1_000_000_000_000_000_000;

/// Batches of this many instructions or more are logged as one record.
pub const AGGREGATE_LOG_THRESHOLD: usize = 100;

/// Whole tokens contained in `yocto_amount`, rounded down.
pub fn yocto_ft(yocto_amount: u128) -> (whole: u128)
    ensures
        whole == yocto_amount / YOCTO_PER_FT,
        whole * YOCTO_PER_FT <= yocto_amount < (whole + 1) * YOCTO_PER_FT,
{
    let whole: u128 = yocto_amount / YOCTO_PER_FT;
    assert(whole * YOCTO_PER_FT <= yocto_amount < (whole + 1) * YOCTO_PER_FT) by (nonlinear_arith)
        requires
            whole == yocto_amount / YOCTO_PER_FT,
            YOCTO_PER_FT == 1_000_000_000_000_000_000,
    ;
    whole
}

} // verus!
