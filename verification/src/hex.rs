//! The text form in which a transaction is handed to the broadcast client.

use bitcoin::hex::DisplayHex;
use vstd::prelude::*;

verus! {

/// The lower-case hexadecimal digit of a value below sixteen.
pub open spec fn hex_digit(nibble: int) -> char {
    "0123456789abcdef"@[nibble]
}

/// The lower-case hexadecimal text of `bytes`: two digits for each byte, the
/// high four bits first.
pub open spec fn lower_hex(bytes: Seq<u8>) -> Seq<char> {
    Seq::new(
        2 * bytes.len(),
        |i: int|
            if i % 2 == 0 {
                hex_digit(bytes[i / 2] as int / 16)
            } else {
                hex_digit(bytes[i / 2] as int % 16)
            },
    )
}

/// Calls `to_lower_hex_string` of `bitcoin::hex::DisplayHex` on a byte slice.
/// The text it returns is the one [`lower_hex`] describes. The call panics if
/// twice the length of the slice overflows, which the precondition excludes.
#[verifier::external_body]
fn to_lower_hex(bytes: &[u8]) -> (text: String)
    requires
        2 * bytes@.len() <= usize::MAX,
    ensures
        text@ == lower_hex(bytes@),
{
    bytes.to_lower_hex_string()
}

/// Whether the hexadecimal text of `len` bytes can be held in memory.
pub open spec fn hex_fits(len: nat) -> bool {
    2 * len <= usize::MAX
}

/// Encodes a serialized transaction for the broadcast client. There is no
/// text for a transaction whose encoding would exceed the address space.
pub fn broadcast_payload(transaction: &Vec<u8>) -> (payload: Option<String>)
    ensures
        payload is Some <==> hex_fits(transaction@.len()),
        payload matches Some(text) ==> text@ == lower_hex(transaction@),
{
    if transaction.len() > usize::MAX / 2 {
        None
    } else {
        Some(to_lower_hex(transaction.as_slice()))
    }
}

} // verus!
