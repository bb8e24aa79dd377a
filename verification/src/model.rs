//! Payloads and records, with the values that contracts speak of them by,
//! and the classification of uploaded bytes.

use crate::address::{content_hash, content_hash_of, short_code, short_code_of};
use crate::clock::Timestamp;
use crate::id::{is_random_id, RecordId};
use crate::text::{trim_end, utf8_text, without_trailing_space};
use vstd::prelude::*;
use vstd::utf8::*;

verus! {

/// The three key spaces of the store.
#[derive(Debug, Clone, Copy, PartialEq, Eq, Hash)]
pub enum TreeNames {
    DataTree,
    ShortNameTree,
    CustomNameTree,
}

impl TreeNames {
    /// The one-byte name under which the key space is opened in the engine.
    pub open spec fn name(self) -> Seq<u8> {
        match self {
            TreeNames::DataTree => seq![0u8],
            TreeNames::ShortNameTree => seq![1u8],
            TreeNames::CustomNameTree => seq![2u8],
        }
    }

    /// The name of the key space, as bytes.
    pub fn as_bytes(&self) -> (r: Vec<u8>)
        ensures
            r@ == self.name(),
    {
        match self {
            TreeNames::DataTree => vec![0u8],
            TreeNames::ShortNameTree => vec![1u8],
            TreeNames::CustomNameTree => vec![2u8],
        }
    }
}

/// What a record carries: a text, the target of a redirect, or raw bytes.
#[derive(Debug, Clone, PartialEq, Eq)]
pub enum DataType {
    Text(String),
    ShortLink(String),
    Binary(Vec<u8>),
}

/// A payload as a mathematical value.
pub enum PayloadView {
    Text(Seq<char>),
    ShortLink(Seq<char>),
    Binary(Seq<u8>),
}

impl PayloadView {
    /// The bytes of the payload: a text in UTF-8, raw bytes as they are.
    pub open spec fn bytes(self) -> Seq<u8> {
        match self {
            PayloadView::Text(t) => encode_utf8(t),
            PayloadView::ShortLink(t) => encode_utf8(t),
            PayloadView::Binary(b) => b,
        }
    }
}

impl View for DataType {
    type V = PayloadView;

    open spec fn view(&self) -> PayloadView {
        match self {
            DataType::Text(t) => PayloadView::Text(t@),
            DataType::ShortLink(t) => PayloadView::ShortLink(t@),
            DataType::Binary(b) => PayloadView::Binary(b@),
        }
    }
}

/// The payload that uploaded bytes are taken for. With the hint that they
/// are the target of a redirect they must be valid UTF-8, and the text
/// without the white space at its end is a short link. Without the hint
/// valid UTF-8 is a text, kept as it is, and anything else is binary.
pub open spec fn classify(data: Seq<u8>, is_short_link: Option<bool>) -> Option<PayloadView> {
    let short_link = is_short_link == Some(true);
    if valid_utf8(data) {
        if short_link {
            Some(PayloadView::ShortLink(without_trailing_space(decode_utf8(data))))
        } else {
            Some(PayloadView::Text(decode_utf8(data)))
        }
    } else if short_link {
        None
    } else {
        Some(PayloadView::Binary(data))
    }
}

/// The bytes that the payload of an upload holds: the uploaded bytes
/// themselves, or, for a short link, the UTF-8 form of the text without the
/// white space at its end.
pub open spec fn payload_bytes_of(data: Seq<u8>, is_short_link: Option<bool>) -> Seq<u8> {
    if is_short_link == Some(true) {
        encode_utf8(without_trailing_space(decode_utf8(data)))
    } else {
        data
    }
}

/// An upload is refused only where it is meant as a short link and is no
/// valid UTF-8. The payload of an upload holds the bytes that
/// `payload_bytes_of` gives, so the content hash and the short code of a
/// record made of it are determined by the uploaded bytes and the hint
/// alone, whatever its identifier, alias and destroy time are.
pub proof fn lemma_upload_determines_address(
    data: Seq<u8>,
    is_short_link: Option<bool>,
    uuid: Seq<u8>,
    custom_url: Option<Seq<char>>,
    destroy_time: Option<Timestamp>,
)
    ensures
        classify(data, is_short_link) is None <==> is_short_link == Some(true) && !valid_utf8(data),
        classify(data, is_short_link) matches Some(payload) ==> {
            let item = derived_item(uuid, payload, custom_url, destroy_time);
            &&& payload.bytes() == payload_bytes_of(data, is_short_link)
            &&& item.hash == content_hash_of(payload_bytes_of(data, is_short_link))
            &&& Some(item.short) == short_code_of(payload_bytes_of(data, is_short_link))
                || short_code_of(payload_bytes_of(data, is_short_link)) is None
        },
{
    if valid_utf8(data) {
        decode_utf8_encode_utf8(data);
    }
}

/// Records made of payloads with the same bytes have the same content hash
/// and the same short code, whatever their identifiers, aliases and destroy
/// times are, and whether the payloads are text, short link or binary.
pub proof fn lemma_address_of_equal_bytes(
    first: PayloadView,
    first_uuid: Seq<u8>,
    first_alias: Option<Seq<char>>,
    first_time: Option<Timestamp>,
    second: PayloadView,
    second_uuid: Seq<u8>,
    second_alias: Option<Seq<char>>,
    second_time: Option<Timestamp>,
)
    requires
        first.bytes() == second.bytes(),
    ensures
        derived_item(first_uuid, first, first_alias, first_time).hash == derived_item(
            second_uuid,
            second,
            second_alias,
            second_time,
        ).hash,
        derived_item(first_uuid, first, first_alias, first_time).short == derived_item(
            second_uuid,
            second,
            second_alias,
            second_time,
        ).short,
        derived_item(first_uuid, first, first_alias, first_time).hash == content_hash_of(
            first.bytes(),
        ),
{
}

impl DataType {
    /// The bytes of the payload.
    pub fn get_data(&self) -> (bytes: &[u8])
        ensures
            bytes@ == self@.bytes(),
    {
        match self {
            DataType::Text(t) => t.as_str().as_bytes(),
            DataType::ShortLink(t) => t.as_str().as_bytes(),
            DataType::Binary(b) => b.as_slice(),
        }
    }

    /// Classifies uploaded bytes. A redirect target that is no valid UTF-8
    /// is refused; every other upload gives a payload.
    pub fn from_bytes(data: Vec<u8>, is_short_link: Option<bool>) -> (r: Option<DataType>)
        ensures
            r matches Some(d) ==> classify(data@, is_short_link) == Some(d@),
            r is None ==> classify(data@, is_short_link) is None,
    {
        let short_link = match is_short_link {
            Some(b) => b,
            None => false,
        };
        let text: Option<String> = match utf8_text(data.as_slice()) {
            Some(s) => if short_link {
                Some(trim_end(s).to_owned())
            } else {
                Some(s.to_owned())
            },
            None => None,
        };
        match text {
            Some(t) => if short_link {
                Some(DataType::ShortLink(t))
            } else {
                Some(DataType::Text(t))
            },
            None => if short_link {
                None
            } else {
                Some(DataType::Binary(data))
            },
        }
    }
}

/// A stored record.
#[derive(Debug, Clone, PartialEq, Eq)]
pub struct DataBaseItem {
    pub destroy_time: Option<Timestamp>,
    pub custom_url: Option<String>,
    pub uuid: RecordId,
    pub hash: String,
    pub short: String,
    pub data: DataType,
}

/// A record as a mathematical value.
pub struct ItemView {
    pub destroy_time: Option<Timestamp>,
    pub custom_url: Option<Seq<char>>,
    pub uuid: Seq<u8>,
    pub hash: Seq<char>,
    pub short: Seq<char>,
    pub data: PayloadView,
}

impl ItemView {
    /// Whether the record is past its destroy time at the given time.
    pub open spec fn expired_at(self, now: Timestamp) -> bool {
        self.destroy_time matches Some(t) && now.is_after(t)
    }

    /// The record with another payload and the content hash that goes with
    /// it; identifier, short code, alias and destroy time stay.
    pub open spec fn with_payload(self, data: PayloadView) -> ItemView {
        ItemView { hash: content_hash_of(data.bytes()), data, ..self }
    }
}

/// The record that is made of a payload under a given identifier: hash and
/// short code derive from the payload's bytes.
pub open spec fn derived_item(
    uuid: Seq<u8>,
    data: PayloadView,
    custom_url: Option<Seq<char>>,
    destroy_time: Option<Timestamp>,
) -> ItemView
    recommends
        short_code_of(data.bytes()) is Some,
{
    ItemView {
        destroy_time,
        custom_url,
        uuid,
        hash: content_hash_of(data.bytes()),
        short: short_code_of(data.bytes())->0,
        data,
    }
}

/// The text of an optional string.
pub open spec fn text_of(s: Option<String>) -> Option<Seq<char>> {
    match s {
        Some(t) => Some(t@),
        None => None,
    }
}

impl View for DataBaseItem {
    type V = ItemView;

    open spec fn view(&self) -> ItemView {
        ItemView {
            destroy_time: self.destroy_time,
            custom_url: text_of(self.custom_url),
            uuid: self.uuid@,
            hash: self.hash@,
            short: self.short@,
            data: self.data@,
        }
    }
}

impl DataBaseItem {
    /// Makes the record of a payload under the given identifier, or `None`
    /// where the payload's digest gives no short code.
    pub fn with_id(
        uuid: RecordId,
        data: DataType,
        custom_url: Option<String>,
        destroy_time: Option<Timestamp>,
    ) -> (r: Option<DataBaseItem>)
        ensures
            r is Some <==> short_code_of(data@.bytes()) is Some,
            r matches Some(item) ==> item@ == derived_item(
                uuid@,
                data@,
                text_of(custom_url),
                destroy_time,
            ),
    {
        let hash = content_hash(data.get_data());
        match short_code(data.get_data()) {
            Some(short) => Some(DataBaseItem { destroy_time, custom_url, uuid, hash, short, data }),
            None => None,
        }
    }

    /// Makes the record of a payload under a new random identifier.
    pub fn new(data: DataType, custom_url: Option<String>, destroy_time: Option<Timestamp>) -> (item:
        DataBaseItem)
        requires
            short_code_of(data@.bytes()) is Some,
        ensures
            item@ == derived_item(item.uuid@, data@, text_of(custom_url), destroy_time),
            is_random_id(item.uuid@),
    {
        let hash = content_hash(data.get_data());
        let code = short_code(data.get_data());
        DataBaseItem {
            destroy_time,
            custom_url,
            uuid: RecordId::generate(),
            hash,
            short: code.unwrap(),
            data,
        }
    }

    /// Makes the record of a payload under a new random identifier, or
    /// `None` where the payload's digest gives no short code.
    pub fn try_new(
        data: DataType,
        custom_url: Option<String>,
        destroy_time: Option<Timestamp>,
    ) -> (r: Option<DataBaseItem>)
        ensures
            r is Some <==> short_code_of(data@.bytes()) is Some,
            r matches Some(item) ==> item@ == derived_item(
                item.uuid@,
                data@,
                text_of(custom_url),
                destroy_time,
            ) && is_random_id(item.uuid@),
    {
        if short_code(data.get_data()).is_some() {
            Some(DataBaseItem::new(data, custom_url, destroy_time))
        } else {
            None
        }
    }

    /// Whether the record is past its destroy time at the given time.
    pub fn is_expired(&self, now: Timestamp) -> (r: bool)
        ensures
            r == self@.expired_at(now),
    {
        match self.destroy_time {
            Some(t) => now.later_than(t),
            None => false,
        }
    }
}

/// Why an operation of the store did not succeed.
#[derive(Debug)]
pub enum DataBaseErrorType {
    Existed(DataBaseItem),
    Failed,
    NotFound,
}

/// What reading a key gives.
#[derive(Debug)]
pub enum ReadOutcome {
    /// The record that the key leads to.
    Found(DataBaseItem),
    /// The key led to a record past its destroy time. `removed` says whether
    /// the record was removed from the store on that account.
    Expired { removed: bool },
    /// The key leads to no record.
    NotFound,
}

} // verus!
