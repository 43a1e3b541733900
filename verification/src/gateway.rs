//! Reading what the host reports about a call: who made it, and how the call
//! it answers has ended.

use vstd::prelude::*;
use crate::types::{Context, LedgerError, PromiseOutcome};

verus! {

/// The balance that a reply of the token contract holds, if it holds one.
/// The reply is JSON: a string of decimal digits.
pub uninterp spec fn decoded_balance(reply: Seq<u8>) -> Option<u128>;

/// Decodes the reply to a balance query with
/// `near_sdk::serde_json::from_slice`, at the type
/// `near_sdk::json_types::U128`; a reply that does not decode gives `None`.
/// Assumed, not proved: the same reply always decodes alike. Nothing is
/// claimed about which replies decode to which balance.
#[verifier::external_body]
pub(crate) fn decode_balance(reply: &Vec<u8>) -> (balance: Option<u128>)
    ensures
        balance == decoded_balance(reply@),
{
    match near_sdk::serde_json::from_slice::<near_sdk::json_types::U128>(reply.as_slice()) {
        Ok(value) => Some(value.0),
        Err(_) => None,
    }
}

/// Makes sure that the call comes from the ledger's own account.
pub fn assert_self(ctx: &Context) -> (checked: Result<(), LedgerError>)
    ensures
        match checked {
            Ok(()) => ctx.is_self_call(),
            Err(error) => !ctx.is_self_call() && error == LedgerError::SelfCallViolation,
        },
{
    if ctx.predecessor_account_id == ctx.current_account_id {
        Ok(())
    } else {
        Err(LedgerError::SelfCallViolation)
    }
}

/// Whether the one call that this call answers has succeeded.
pub fn is_promise_success(ctx: &Context) -> (succeeded: Result<bool, LedgerError>)
    ensures
        match succeeded {
            Ok(success) => ctx.is_callback() && success == ctx.promise_succeeded(),
            Err(error) => !ctx.is_callback() && error == LedgerError::NotACallback,
        },
{
    if ctx.promise_results.len() != 1 {
        return Err(LedgerError::NotACallback);
    }
    match &ctx.promise_results[0] {
        PromiseOutcome::Successful(_) => Ok(true),
        _ => Ok(false),
    }
}

} // verus!
