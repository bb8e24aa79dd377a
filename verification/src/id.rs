//! The identifier of a record and its literal. Identifiers are made, read
//! and written by the `uuid` crate; what the library needs of that is stated
//! on the three functions that call it.

use crate::digest::hex_lower;
use vstd::prelude::*;

verus! {

/// The identifier of a record: 128 bits, as 16 bytes.
#[derive(Debug, Clone, Copy, PartialEq, Eq, Hash)]
pub struct RecordId {
    pub bytes: [u8; 16],
}

impl View for RecordId {
    type V = Seq<u8>;

    open spec fn view(&self) -> Seq<u8> {
        self.bytes@
    }
}

/// The literal of an identifier: its bytes in lower-case hexadecimal, in
/// groups of 8, 4, 4, 4 and 12 digits with a hyphen between two groups.
pub open spec fn id_text(id: Seq<u8>) -> Seq<char>
    recommends
        id.len() == 16,
{
    hex_lower(id.subrange(0, 4)) + seq!['-'] + hex_lower(id.subrange(4, 6)) + seq!['-']
        + hex_lower(id.subrange(6, 8)) + seq!['-'] + hex_lower(id.subrange(8, 10)) + seq!['-']
        + hex_lower(id.subrange(10, 16))
}

/// The identifier that a text is a literal of, as its 16 bytes, or `None`
/// where the text is no literal of an identifier.
pub uninterp spec fn uuid_literal(text: Seq<char>) -> Option<Seq<u8>>;

/// Whether the 16 bytes are marked as those of a random identifier: the
/// high half of the seventh byte holds the version, 4, and the two highest
/// bits of the ninth byte hold the variant, one and zero. The other 122 bits
/// are free.
pub open spec fn is_random_id(id: Seq<u8>) -> bool {
    &&& id.len() == 16
    &&& 0x40 <= id[6] <= 0x4f
    &&& 0x80 <= id[8] <= 0xbf
}

/// `uuid::Uuid::new_v4`: the bytes of a random identifier. They carry the
/// version and the variant of a random identifier; nothing is claimed of
/// the other bits.
#[verifier::external_body]
fn random_uuid() -> (bytes: [u8; 16])
    ensures
        is_random_id(bytes@),
{
    *uuid::Uuid::new_v4().as_bytes()
}

/// `uuid::Uuid::parse_str`: the bytes of the identifier that the text is a
/// literal of, or `None` where the text is refused.
#[verifier::external_body]
fn parse_uuid(text: &str) -> (r: Option<[u8; 16]>)
    ensures
        r matches Some(bytes) ==> uuid_literal(text@) == Some(bytes@),
        r is None ==> uuid_literal(text@) is None,
{
    uuid::Uuid::parse_str(text).ok().map(|id| *id.as_bytes())
}

/// `uuid::Uuid::to_string`: the hyphenated lower-case literal of the
/// identifier with these bytes, which `uuid::Uuid::parse_str` reads back as
/// the same identifier.
#[verifier::external_body]
fn uuid_text(bytes: &[u8; 16]) -> (text: String)
    ensures
        text@ == id_text(bytes@),
        uuid_literal(text@) == Some(bytes@),
{
    uuid::Uuid::from_bytes(*bytes).to_string()
}

impl RecordId {
    /// A new random identifier: 122 random bits under the version and the
    /// variant that mark an identifier as random.
    pub fn generate() -> (id: RecordId)
        ensures
            is_random_id(id@),
    {
        RecordId { bytes: random_uuid() }
    }

    /// The identifier that the text is a literal of, if it is one.
    pub fn parse(text: &str) -> (r: Option<RecordId>)
        ensures
            r matches Some(id) ==> uuid_literal(text@) == Some(id@),
            r is None ==> uuid_literal(text@) is None,
    {
        match parse_uuid(text) {
            Some(bytes) => Some(RecordId { bytes }),
            None => None,
        }
    }

    /// The literal of the identifier. It reads back as the identifier.
    pub fn to_text(&self) -> (text: String)
        ensures
            text@ == id_text(self@),
            uuid_literal(text@) == Some(self@),
    {
        uuid_text(&self.bytes)
    }
}

} // verus!
