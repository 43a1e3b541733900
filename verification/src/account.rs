//! Account identifiers and the rule that tells a well-formed one.
//!
//! An account is named by a string. Whether a string names an account at all
//! is decided by the host SDK; this module states the rule it applies and
//! offers the check on a whole batch of recipients.

use vstd::prelude::*;
use vstd::utf8::encode_utf8;

verus! {

/// Shortest identifier, in bytes.
pub const MIN_ACCOUNT_ID_LEN: usize = 2;

/// Longest identifier, in bytes.
pub const MAX_ACCOUNT_ID_LEN: usize = 64;

/// A lower-case ASCII letter or a digit.
pub open spec fn is_id_alphanumeric(byte: u8) -> bool {
    (0x61 <= byte <= 0x7a) || (0x30 <= byte <= 0x39)
}

/// One of `-`, `_` and `.`, which join the parts of an identifier.
pub open spec fn is_id_separator(byte: u8) -> bool {
    byte == 0x2d || byte == 0x5f || byte == 0x2e
}

/// The identifier rule on bytes: between two and sixty-four of them, each a
/// lower-case letter, a digit or a separator, with no separator at either
/// end and no two separators next to each other.
pub open spec fn valid_account_bytes(bytes: Seq<u8>) -> bool {
    &&& MIN_ACCOUNT_ID_LEN <= bytes.len() <= MAX_ACCOUNT_ID_LEN
    &&& forall|i: int|
        0 <= i < bytes.len() ==> {
            ||| is_id_alphanumeric(#[trigger] bytes[i])
            ||| is_id_separator(bytes[i])
        }
    &&& !is_id_separator(bytes[0])
    &&& !is_id_separator(bytes[bytes.len() - 1])
    &&& forall|i: int|
        0 < i < bytes.len() ==> {
            ||| !is_id_separator(bytes[i - 1])
            ||| !is_id_separator(#[trigger] bytes[i])
        }
}

/// The identifier rule on a string: the rule on its UTF-8 bytes.
pub open spec fn valid_account_id(id: Seq<char>) -> bool {
    valid_account_bytes(encode_utf8(id))
}

/// Assumed of `near_sdk::env::is_valid_account_id`, not proved: it accepts
/// exactly the byte strings of two to sixty-four bytes that are made of
/// lower-case letters, digits and the separators `-`, `_`, `.`, that neither
/// start nor end with a separator and that hold no two separators in a row.
/// It reads nothing but its argument.
pub assume_specification[ near_sdk::env::is_valid_account_id ](account_id: &[u8]) -> (valid: bool)
    ensures
        valid == valid_account_bytes(account_id@),
;

/// Whether `id` names an account.
pub fn is_valid_account(id: &String) -> (valid: bool)
    ensures
        valid == valid_account_id(id@),
{
    near_sdk::env::is_valid_account_id(id.as_str().as_bytes())
}

} // verus!
