//! The radix-32 notation of a byte string, taken from `num_bigint`.

use vstd::prelude::*;

verus! {

/// The thirty-two digits of the radix-32 notation: `0` to `9`, then `a` to `v`.
pub open spec fn radix32_digits() -> Seq<char> {
    seq![
        '0', '1', '2', '3', '4', '5', '6', '7', '8', '9', 'a', 'b', 'c', 'd', 'e', 'f',
        'g', 'h', 'i', 'j', 'k', 'l', 'm', 'n', 'o', 'p', 'q', 'r', 's', 't', 'u', 'v',
    ]
}

/// The number that the bytes write, the least significant byte first.
pub open spec fn le_value(bytes: Seq<u8>) -> nat
    decreases bytes.len(),
{
    if bytes.len() == 0 {
        0
    } else {
        bytes[0] as nat + 256 * le_value(bytes.drop_first())
    }
}

/// The number in radix 32, the most significant digit first, without leading
/// zeros; zero is the single digit `0`.
pub open spec fn radix32_text(n: nat) -> Seq<char>
    decreases n,
{
    if n < 32 {
        seq![radix32_digits()[n as int]]
    } else {
        radix32_text(n / 32).push(radix32_digits()[(n % 32) as int])
    }
}

/// The radix-32 encoding of a byte string: the digits of the number that the
/// bytes write in little-endian order.
pub open spec fn encoding(bytes: Seq<u8>) -> Seq<char> {
    radix32_text(le_value(bytes))
}

/// `num_bigint::BigUint::from_bytes_le` followed by
/// `num_bigint::BigUint::to_str_radix` with radix 32: reads the bytes as a
/// number, least significant byte first, and writes it in radix 32 with the
/// digits `0` to `9` and `a` to `v`, most significant digit first.
#[verifier::external_body]
pub fn encode(bytes: &[u8]) -> (text: String)
    ensures
        text@ == encoding(bytes@),
{
    num_bigint::BigUint::from_bytes_le(bytes).to_str_radix(32)
}

} // verus!
