//! 128-bit identifiers and their text.

use vstd::prelude::*;
use crate::naming::hex;

verus! {

/// The text of an identifier: its 32 hexadecimal digits in groups of eight,
/// four, four, four and twelve.
pub open spec fn uuid_text(n: u128) -> Seq<char> {
    let h = hex(n as nat, 32);
    h.subrange(0, 8) + "-"@ + h.subrange(8, 12) + "-"@ + h.subrange(12, 16) + "-"@ + h.subrange(
        16,
        20,
    ) + "-"@ + h.subrange(20, 32)
}

/// `Uuid::new_v4` draws a random identifier. Whatever is drawn, its version
/// digit is 4, so it is never the nil identifier.
#[verifier::external_body]
fn new_v4() -> (out: u128)
    ensures
        (out as nat / 0x1000_0000_0000_0000_0000) % 16 == 4,
{
    uuid::Uuid::new_v4().as_u128()
}

/// `Uuid`'s `Display` writes an identifier as hyphenated lowercase hexadecimal.
#[verifier::external_body]
pub(crate) fn to_text(n: u128) -> (out: String)
    ensures
        out@ == uuid_text(n),
{
    uuid::Uuid::from_u128(n).to_string()
}

/// `Uuid::is_nil` tells whether all bits of an identifier are zero.
#[verifier::external_body]
pub(crate) fn is_nil(n: u128) -> (out: bool)
    ensures
        out == (n == 0),
{
    uuid::Uuid::from_u128(n).is_nil()
}

/// Whether a text is that of a random identifier.
pub open spec fn is_random_uuid_text(s: Seq<char>) -> bool {
    exists|n: u128|
        s == #[trigger] uuid_text(n) && (n as nat / 0x1000_0000_0000_0000_0000) % 16 == 4
}

/// The text of every identifier has 36 characters.
pub proof fn lemma_uuid_text_len(n: u128)
    ensures
        uuid_text(n).len() == 36,
{
    lemma_hex_len(n as nat, 32);
    reveal_strlit("-");
}

proof fn lemma_hex_len(n: nat, k: nat)
    ensures
        hex(n, k).len() == k,
    decreases k,
{
    if k > 0 {
        lemma_hex_len(n / 16, (k - 1) as nat);
    }
}

/// A fresh token: the text of a random identifier.
pub fn fresh_token() -> (out: String)
    ensures
        is_random_uuid_text(out@),
        out@.len() == 36,
{
    let n: u128 = new_v4();
    proof {
        lemma_uuid_text_len(n);
    }
    to_text(n)
}

} // verus!
