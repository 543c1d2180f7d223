//! Fresh identifiers for entities the library creates (breakpoints, coroutines,
//! handlers, subscriptions), and their text.

use vstd::prelude::*;

verus! {

/// Calls `uuid::Uuid::new_v4` and returns the identifier as its 128-bit value. The value is
/// random; nothing is claimed about it.
#[verifier::external_body]
pub(crate) fn new_id() -> (r: u128) {
    uuid::Uuid::new_v4().as_u128()
}

/// The lowercase hexadecimal digit for `d` (below 16).
pub open spec fn hex_char(d: int) -> char {
    if d < 10 { ((d + 48) as u8) as char } else { ((d - 10 + 97) as u8) as char }
}

/// The last `count` hexadecimal digits of `n`, most significant first.
pub open spec fn hex_digits(n: nat, count: nat) -> Seq<char>
    decreases count,
{
    if count == 0 {
        Seq::empty()
    } else {
        hex_digits(n / 16, (count - 1) as nat).push(hex_char((n % 16) as int))
    }
}

/// The hyphenated lowercase text of the identifier with this 128-bit value: its 32
/// hexadecimal digits, most significant first, in groups of 8, 4, 4, 4 and 12 joined by `-`.
pub open spec fn id_text_of(id: u128) -> Seq<char> {
    let d = hex_digits(id as nat, 32);
    d.subrange(0, 8) + "-"@ + d.subrange(8, 12) + "-"@ + d.subrange(12, 16) + "-"@
        + d.subrange(16, 20) + "-"@ + d.subrange(20, 32)
}

/// Calls `uuid::Uuid::from_u128` and then `to_string` on the identifier: the value's bytes
/// from most to least significant, written as hyphenated lowercase hexadecimal
/// (`id_text_of`).
#[verifier::external_body]
pub(crate) fn id_text(id: u128) -> (r: String)
    ensures
        r@ == id_text_of(id),
{
    uuid::Uuid::from_u128(id).to_string()
}

} // verus!
