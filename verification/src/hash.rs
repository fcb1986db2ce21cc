//! The 32-byte hashes that identify blocks and transactions on the ledger,
//! and the text a hash is written as.

use vstd::prelude::*;

verus! {

/// A 32-byte hash, most significant byte first.
#[derive(Clone, Copy, Debug, PartialEq, Eq, Hash)]
pub struct Hash256 {
    pub bytes: [u8; 32],
}

/// The lower-case hexadecimal digit for a value below 16.
pub open spec fn nibble_char(n: int) -> char {
    if n < 10 {
        ('0' as int + n) as char
    } else {
        ('a' as int + n - 10) as char
    }
}

/// Two lower-case hexadecimal digits per byte, high digit first.
pub open spec fn hex_text(bytes: Seq<u8>) -> Seq<char> {
    Seq::new(
        2 * bytes.len(),
        |i: int|
            nibble_char(
                if i % 2 == 0 {
                    bytes[i / 2] as int / 16
                } else {
                    bytes[i / 2] as int % 16
                },
            ),
    )
}

/// The full text of a hash: `0x` and all of its bytes in hexadecimal.
pub open spec fn full_form(bytes: Seq<u8>) -> Seq<char> {
    seq!['0', 'x'] + hex_text(bytes)
}

/// The full text is `0x` and then two lower-case hexadecimal digits for
/// every byte: no other character stands in it.
pub proof fn lemma_full_form_chars(bytes: Seq<u8>, i: int)
    requires
        0 <= i < full_form(bytes).len(),
    ensures
        full_form(bytes).len() == 2 + 2 * bytes.len(),
        i == 0 ==> full_form(bytes)[i] == '0',
        i == 1 ==> full_form(bytes)[i] == 'x',
        i >= 2 ==> ('0' <= full_form(bytes)[i] <= '9' || 'a' <= full_form(bytes)[i] <= 'f'),
{
}

/// Formats the hash with the `Debug` implementation of
/// `ethers::types::H256`, which writes `0x` followed by every byte as two
/// lower-case hexadecimal digits.
#[verifier::external_body]
fn h256_debug(hash: &Hash256) -> (text: String)
    ensures
        text@ == full_form(hash.bytes@),
{
    format!("{:?}", ethers::types::H256(hash.bytes))
}

impl Hash256 {
    /// The full text, 66 characters long.
    pub fn full_text(&self) -> (text: String)
        ensures
            text@ == full_form(self.bytes@),
            text@.len() == 66,
    {
        h256_debug(self)
    }
}

} // verus!
