//! The address of a payload: its content hash, and the short code derived
//! from the digest.

use crate::base32::{encode, encoding, le_value, radix32_digits, radix32_text};
use crate::digest::{blake3_digest, blake3_hash, digest_hex, hex_lower, lemma_hex_lower_len};
use vstd::prelude::*;
use vstd::string::*;

verus! {

/// The number of characters of a short code.
pub const SHORT_CODE_LEN: usize = 4;

/// The content hash of a payload: its BLAKE3 digest in lower-case
/// hexadecimal.
pub open spec fn content_hash_of(payload: Seq<u8>) -> Seq<char> {
    hex_lower(blake3_digest(payload))
}

/// The short code that a text gives: its first characters, as many as a
/// short code has, or `None` where the text has fewer.
pub open spec fn short_prefix(text: Seq<char>) -> Option<Seq<char>> {
    if text.len() >= SHORT_CODE_LEN {
        Some(text.subrange(0, SHORT_CODE_LEN as int))
    } else {
        None
    }
}

/// The short code of a payload: the first characters of the radix-32
/// encoding of its BLAKE3 digest, or `None` where that encoding has fewer
/// characters than a short code.
pub open spec fn short_code_of(payload: Seq<u8>) -> Option<Seq<char>> {
    short_prefix(encoding(blake3_digest(payload)))
}

/// Every character of a number written in radix 32 is one of the thirty-two
/// digits.
pub proof fn lemma_radix32_text_digits(n: nat)
    ensures
        radix32_text(n).len() >= 1,
        forall|i: int|
            0 <= i < radix32_text(n).len() ==> radix32_digits().contains(
                #[trigger] radix32_text(n)[i],
            ),
    decreases n,
{
    let digits = radix32_digits();
    if n < 32 {
        assert(digits.contains(digits[n as int]));
    } else {
        lemma_radix32_text_digits(n / 32);
        assert(digits.contains(digits[(n % 32) as int]));
    }
}

/// A short code has as many characters as `SHORT_CODE_LEN` says, and each
/// of them is a digit of the radix-32 notation.
pub proof fn lemma_short_code_shape(payload: Seq<u8>)
    ensures
        short_code_of(payload) matches Some(code) ==> code.len() == SHORT_CODE_LEN && forall|
            i: int,
        |
            0 <= i < code.len() ==> radix32_digits().contains(#[trigger] code[i]),
{
    lemma_radix32_text_digits(le_value(blake3_digest(payload)));
}

/// Computes the content hash of a payload: 64 hexadecimal digits.
pub fn content_hash(payload: &[u8]) -> (hash: String)
    ensures
        hash@ == content_hash_of(payload@),
        hash@.len() == 64,
{
    let digest = blake3_hash(payload);
    proof {
        lemma_hex_lower_len(digest@);
    }
    digest_hex(&digest)
}

/// Takes the short code off a text: its first characters, as many as a
/// short code has, or `None` where the text has fewer.
pub fn short_code_of_text(text: &str) -> (code: Option<String>)
    ensures
        code matches Some(c) ==> short_prefix(text@) == Some(c@),
        code is None ==> short_prefix(text@) is None,
{
    if text.unicode_len() >= SHORT_CODE_LEN {
        Some(text.substring_char(0, SHORT_CODE_LEN).to_owned())
    } else {
        None
    }
}

/// Computes the short code of a payload, where its digest gives one.
pub fn short_code(payload: &[u8]) -> (code: Option<String>)
    ensures
        code matches Some(c) ==> short_code_of(payload@) == Some(c@),
        code is None ==> short_code_of(payload@) is None,
{
    let digest = blake3_hash(payload);
    let text = encode(digest.as_slice());
    short_code_of_text(text.as_str())
}

} // verus!
