//! The BLAKE3 digest of a payload and its hexadecimal form, both taken from
//! the `blake3` crate. The digest itself is only named here; what its
//! hexadecimal form is, is stated in full.

use vstd::prelude::*;

verus! {

/// The sixteen hexadecimal digits, in lower case.
pub open spec fn hex_digits() -> Seq<char> {
    seq!['0', '1', '2', '3', '4', '5', '6', '7', '8', '9', 'a', 'b', 'c', 'd', 'e', 'f']
}

/// The two hexadecimal digits of a byte, the high half first.
pub open spec fn hex_of_byte(b: u8) -> Seq<char> {
    seq![hex_digits()[b as int / 16], hex_digits()[b as int % 16]]
}

/// The bytes in lower-case hexadecimal, two digits for each byte.
pub open spec fn hex_lower(bytes: Seq<u8>) -> Seq<char>
    decreases bytes.len(),
{
    if bytes.len() == 0 {
        Seq::empty()
    } else {
        hex_lower(bytes.drop_last()) + hex_of_byte(bytes.last())
    }
}

/// The hexadecimal text has two characters for each byte.
pub proof fn lemma_hex_lower_len(bytes: Seq<u8>)
    ensures
        hex_lower(bytes).len() == 2 * bytes.len(),
    decreases bytes.len(),
{
    if bytes.len() > 0 {
        lemma_hex_lower_len(bytes.drop_last());
    }
}

/// The BLAKE3 digest of the input: 32 bytes.
pub uninterp spec fn blake3_digest(input: Seq<u8>) -> Seq<u8>;

/// `blake3::hash`: the BLAKE3 digest of the input, as its 32 bytes.
#[verifier::external_body]
pub(crate) fn blake3_hash(input: &[u8]) -> (digest: [u8; 32])
    ensures
        digest@ == blake3_digest(input@),
{
    *blake3::hash(input).as_bytes()
}

/// `blake3::Hash::to_hex`: the 32 bytes of a digest in lower-case
/// hexadecimal, 64 characters.
#[verifier::external_body]
pub(crate) fn digest_hex(digest: &[u8; 32]) -> (hex: String)
    ensures
        hex@ == hex_lower(digest@),
{
    blake3::Hash::from(*digest).to_hex().as_str().to_owned()
}

} // verus!
