//! The stored form of a record: how a record is written as bytes, how bytes
//! are read as a record, and the proof that what is written is read back.

use crate::clock::Timestamp;
use crate::id::RecordId;
use crate::model::{DataBaseItem, DataType, ItemView, PayloadView};
use crate::text::utf8_text;
use vstd::bytes::*;
use vstd::prelude::*;
use vstd::slice::*;
use vstd::utf8::*;

verus! {

// The stored form of a record, field after field:
//   destroy time   one byte 0, or one byte 1, the seconds (8 bytes) and the
//                  nanoseconds (4 bytes)
//   alias          one byte 0, or one byte 1 and the alias as a block
//   identifier     16 bytes
//   content hash   a block
//   short code     a block
//   payload        one byte for the variant (0 text, 1 short link, 2 binary)
//                  and the content as a block
// A block is the length of its content (8 bytes) and then the content; a
// text is stored in UTF-8; numbers are little-endian, and the seconds are
// stored with 2^63 added, so that the stored number is not negative.

/// The seconds of a time as the unsigned number that is stored.
pub open spec fn biased(secs: i64) -> u64 {
    (secs + 0x8000_0000_0000_0000) as u64
}

/// The seconds that a stored number stands for.
pub open spec fn unbiased(stored: u64) -> i64 {
    (stored - 0x8000_0000_0000_0000) as i64
}

/// A block: the length of the content, then the content.
pub open spec fn block(content: Seq<u8>) -> Seq<u8> {
    spec_u64_to_le_bytes(content.len() as u64) + content
}

/// The stored form of a destroy time.
pub open spec fn time_field(t: Option<Timestamp>) -> Seq<u8> {
    match t {
        None => seq![0u8],
        Some(t) => seq![1u8] + (spec_u64_to_le_bytes(biased(t.secs)) + spec_u32_to_le_bytes(
            t.nanos,
        )),
    }
}

/// The stored form of an alias.
pub open spec fn alias_field(alias: Option<Seq<char>>) -> Seq<u8> {
    match alias {
        None => seq![0u8],
        Some(a) => seq![1u8] + block(encode_utf8(a)),
    }
}

/// The stored form of a payload.
pub open spec fn payload_field(data: PayloadView) -> Seq<u8> {
    match data {
        PayloadView::Text(t) => seq![0u8] + block(encode_utf8(t)),
        PayloadView::ShortLink(t) => seq![1u8] + block(encode_utf8(t)),
        PayloadView::Binary(b) => seq![2u8] + block(b),
    }
}

/// The stored form of a record.
pub open spec fn encoded(v: ItemView) -> Seq<u8> {
    time_field(v.destroy_time) + (alias_field(v.custom_url) + (v.uuid + (block(encode_utf8(v.hash))
        + (block(encode_utf8(v.short)) + payload_field(v.data)))))
}

/// Whether a record can be stored: its identifier has 16 bytes and the
/// length of each block fits in 8 bytes.
pub open spec fn storable(v: ItemView) -> bool {
    &&& v.uuid.len() == 16
    &&& encode_utf8(v.hash).len() <= u64::MAX
    &&& encode_utf8(v.short).len() <= u64::MAX
    &&& v.data.bytes().len() <= u64::MAX
    &&& (v.custom_url matches Some(a) ==> encode_utf8(a).len() <= u64::MAX)
}

/// The first `n` bytes and the rest, where there are that many.
pub open spec fn split(b: Seq<u8>, n: int) -> Option<(Seq<u8>, Seq<u8>)> {
    if 0 <= n <= b.len() {
        Some((b.subrange(0, n), b.subrange(n, b.len() as int)))
    } else {
        None
    }
}

/// Reads a block: its content and what follows it.
pub open spec fn read_block(b: Seq<u8>) -> Option<(Seq<u8>, Seq<u8>)> {
    match split(b, 8) {
        Some((len, rest)) => split(rest, spec_u64_from_le_bytes(len) as int),
        None => None,
    }
}

/// Reads a block that holds a text in UTF-8.
pub open spec fn read_text(b: Seq<u8>) -> Option<(Seq<char>, Seq<u8>)> {
    match read_block(b) {
        Some((content, rest)) => if valid_utf8(content) {
            Some((decode_utf8(content), rest))
        } else {
            None
        },
        None => None,
    }
}

/// Reads a destroy time.
pub open spec fn read_time(b: Seq<u8>) -> Option<(Option<Timestamp>, Seq<u8>)> {
    match split(b, 1) {
        Some((tag, rest)) => if tag[0] == 0 {
            Some((None, rest))
        } else if tag[0] == 1 {
            match split(rest, 8) {
                Some((secs, rest)) => match split(rest, 4) {
                    Some((nanos, rest)) => Some(
                        (
                            Some(
                                Timestamp {
                                    secs: unbiased(spec_u64_from_le_bytes(secs)),
                                    nanos: spec_u32_from_le_bytes(nanos),
                                },
                            ),
                            rest,
                        ),
                    ),
                    None => None,
                },
                None => None,
            }
        } else {
            None
        },
        None => None,
    }
}

/// Reads an alias.
pub open spec fn read_alias(b: Seq<u8>) -> Option<(Option<Seq<char>>, Seq<u8>)> {
    match split(b, 1) {
        Some((tag, rest)) => if tag[0] == 0 {
            Some((None, rest))
        } else if tag[0] == 1 {
            match read_text(rest) {
                Some((a, rest)) => Some((Some(a), rest)),
                None => None,
            }
        } else {
            None
        },
        None => None,
    }
}

/// Reads a payload.
pub open spec fn read_payload(b: Seq<u8>) -> Option<(PayloadView, Seq<u8>)> {
    match split(b, 1) {
        Some((tag, rest)) => if tag[0] == 0 {
            match read_text(rest) {
                Some((t, rest)) => Some((PayloadView::Text(t), rest)),
                None => None,
            }
        } else if tag[0] == 1 {
            match read_text(rest) {
                Some((t, rest)) => Some((PayloadView::ShortLink(t), rest)),
                None => None,
            }
        } else if tag[0] == 2 {
            match read_block(rest) {
                Some((c, rest)) => Some((PayloadView::Binary(c), rest)),
                None => None,
            }
        } else {
            None
        },
        None => None,
    }
}

/// The record that stored bytes hold, or `None` where they are not the
/// stored form of a record.
#[verifier::opaque]
pub open spec fn decoded(b: Seq<u8>) -> Option<ItemView> {
    match read_time(b) {
        Some((destroy_time, b)) => match read_alias(b) {
            Some((custom_url, b)) => match split(b, 16) {
                Some((uuid, b)) => match read_text(b) {
                    Some((hash, b)) => match read_text(b) {
                        Some((short, b)) => match read_payload(b) {
                            Some((data, b)) => if b.len() == 0 {
                                Some(ItemView { destroy_time, custom_url, uuid, hash, short, data })
                            } else {
                                None
                            },
                            None => None,
                        },
                        None => None,
                    },
                    None => None,
                },
                None => None,
            },
            None => None,
        },
        None => None,
    }
}

/// Splitting at the end of the first of two joined parts gives the parts.
pub proof fn lemma_split_joined(a: Seq<u8>, tail: Seq<u8>)
    ensures
        split(a + tail, a.len() as int) == Some((a, tail)),
{
    let j = a + tail;
    assert(j.subrange(0, a.len() as int) =~= a);
    assert(j.subrange(a.len() as int, j.len() as int) =~= tail);
}

/// A block is read back as its content.
pub proof fn lemma_read_block(content: Seq<u8>, tail: Seq<u8>)
    requires
        content.len() <= u64::MAX,
    ensures
        read_block(block(content) + tail) == Some((content, tail)),
{
    lemma_auto_spec_u64_to_from_le_bytes();
    let len = spec_u64_to_le_bytes(content.len() as u64);
    assert(block(content) + tail =~= len + (content + tail));
    lemma_split_joined(len, content + tail);
    lemma_split_joined(content, tail);
}

/// A block that holds a text is read back as the text.
pub proof fn lemma_read_text(t: Seq<char>, tail: Seq<u8>)
    requires
        encode_utf8(t).len() <= u64::MAX,
    ensures
        read_text(block(encode_utf8(t)) + tail) == Some((t, tail)),
{
    lemma_read_block(encode_utf8(t), tail);
    encode_utf8_valid_utf8(t);
    encode_utf8_decode_utf8(t);
}

/// A stored destroy time is read back.
pub proof fn lemma_read_time(t: Option<Timestamp>, tail: Seq<u8>)
    ensures
        read_time(time_field(t) + tail) == Some((t, tail)),
{
    lemma_auto_spec_u64_to_from_le_bytes();
    lemma_auto_spec_u32_to_from_le_bytes();
    match t {
        None => {
            lemma_split_joined(seq![0u8], tail);
        },
        Some(t) => {
            let secs = spec_u64_to_le_bytes(biased(t.secs));
            let nanos = spec_u32_to_le_bytes(t.nanos);
            assert(time_field(Some(t)) + tail =~= seq![1u8] + (secs + (nanos + tail)));
            lemma_split_joined(seq![1u8], secs + (nanos + tail));
            lemma_split_joined(secs, nanos + tail);
            lemma_split_joined(nanos, tail);
            assert(unbiased(biased(t.secs)) == t.secs);
        },
    }
}

/// A stored alias is read back.
pub proof fn lemma_read_alias(alias: Option<Seq<char>>, tail: Seq<u8>)
    requires
        alias matches Some(a) ==> encode_utf8(a).len() <= u64::MAX,
    ensures
        read_alias(alias_field(alias) + tail) == Some((alias, tail)),
{
    match alias {
        None => {
            lemma_split_joined(seq![0u8], tail);
        },
        Some(a) => {
            let rest = block(encode_utf8(a)) + tail;
            assert(alias_field(alias) + tail =~= seq![1u8] + rest);
            lemma_split_joined(seq![1u8], rest);
            lemma_read_text(a, tail);
        },
    }
}

/// A stored payload is read back.
pub proof fn lemma_read_payload(data: PayloadView, tail: Seq<u8>)
    requires
        data.bytes().len() <= u64::MAX,
    ensures
        read_payload(payload_field(data) + tail) == Some((data, tail)),
{
    match data {
        PayloadView::Text(t) => {
            let rest = block(encode_utf8(t)) + tail;
            assert(payload_field(data) + tail =~= seq![0u8] + rest);
            lemma_split_joined(seq![0u8], rest);
            lemma_read_text(t, tail);
        },
        PayloadView::ShortLink(t) => {
            let rest = block(encode_utf8(t)) + tail;
            assert(payload_field(data) + tail =~= seq![1u8] + rest);
            lemma_split_joined(seq![1u8], rest);
            lemma_read_text(t, tail);
        },
        PayloadView::Binary(b) => {
            let rest = block(b) + tail;
            assert(payload_field(data) + tail =~= seq![2u8] + rest);
            lemma_split_joined(seq![2u8], rest);
            lemma_read_block(b, tail);
        },
    }
}

/// What is stored of a record is read back as that record.
pub proof fn lemma_decode_encoded(v: ItemView)
    requires
        storable(v),
    ensures
        decoded(encoded(v)) == Some(v),
{
    reveal(decoded);
    let f6 = payload_field(v.data);
    let f5 = block(encode_utf8(v.short)) + f6;
    let f4 = block(encode_utf8(v.hash)) + f5;
    let f3 = v.uuid + f4;
    let f2 = alias_field(v.custom_url) + f3;
    lemma_read_time(v.destroy_time, f2);
    lemma_read_alias(v.custom_url, f3);
    lemma_split_joined(v.uuid, f4);
    lemma_read_text(v.hash, f5);
    lemma_read_text(v.short, f6);
    assert(f6 =~= f6 + Seq::<u8>::empty());
    lemma_read_payload(v.data, Seq::<u8>::empty());
}

/// What stands in the bytes from a position on.
pub open spec fn rest(data: Seq<u8>, pos: int) -> Seq<u8> {
    data.subrange(pos, data.len() as int)
}

fn append_bytes(out: &mut Vec<u8>, src: &[u8])
    ensures
        final(out)@ == old(out)@ + src@,
{
    let mut i: usize = 0;
    while i < src.len()
        invariant
            i <= src@.len(),
            out@ == old(out)@ + src@.subrange(0, i as int),
        decreases src@.len() - i,
    {
        out.push(src[i]);
        i += 1;
        assert(out@ =~= old(out)@ + src@.subrange(0, i as int));
    }
    assert(src@.subrange(0, i as int) =~= src@);
}

fn put_block(out: &mut Vec<u8>, content: &[u8])
    ensures
        final(out)@ == old(out)@ + block(content@),
        content@.len() <= u64::MAX,
{
    let len = u64_to_le_bytes(content.len() as u64);
    append_bytes(out, len.as_slice());
    append_bytes(out, content);
    assert(out@ =~= old(out)@ + block(content@));
}

fn put_time(out: &mut Vec<u8>, t: Option<Timestamp>)
    ensures
        final(out)@ == old(out)@ + time_field(t),
{
    match t {
        None => {
            out.push(0u8);
            assert(out@ =~= old(out)@ + time_field(t));
        },
        Some(t) => {
            out.push(1u8);
            let stored: u64 = if t.secs >= 0 {
                (t.secs as u64) + 0x8000_0000_0000_0000u64
            } else {
                (t.secs + i64::MAX + 1) as u64
            };
            assert(stored == biased(t.secs));
            let secs = u64_to_le_bytes(stored);
            let nanos = u32_to_le_bytes(t.nanos);
            append_bytes(out, secs.as_slice());
            append_bytes(out, nanos.as_slice());
            assert(out@ =~= old(out)@ + time_field(Some(t)));
        },
    }
}

fn put_alias(out: &mut Vec<u8>, alias: &Option<String>)
    ensures
        final(out)@ == old(out)@ + alias_field(crate::model::text_of(*alias)),
        crate::model::text_of(*alias) matches Some(a) ==> encode_utf8(a).len() <= u64::MAX,
{
    match alias {
        None => {
            out.push(0u8);
            assert(out@ =~= old(out)@ + alias_field(None));
        },
        Some(a) => {
            out.push(1u8);
            put_block(out, a.as_str().as_bytes());
            assert(out@ =~= old(out)@ + alias_field(Some(a@)));
        },
    }
}

fn put_payload(out: &mut Vec<u8>, data: &DataType)
    ensures
        final(out)@ == old(out)@ + payload_field(data@),
        data@.bytes().len() <= u64::MAX,
{
    match data {
        DataType::Text(t) => {
            out.push(0u8);
            put_block(out, t.as_str().as_bytes());
        },
        DataType::ShortLink(t) => {
            out.push(1u8);
            put_block(out, t.as_str().as_bytes());
        },
        DataType::Binary(b) => {
            out.push(2u8);
            put_block(out, b.as_slice());
        },
    }
    assert(out@ =~= old(out)@ + payload_field(data@));
}

/// Writes a record in its stored form, from which it is read back.
pub fn encode_item(item: &DataBaseItem) -> (bytes: Vec<u8>)
    ensures
        bytes@ == encoded(item@),
        storable(item@),
        decoded(bytes@) == Some(item@),
{
    let mut out: Vec<u8> = Vec::new();
    put_time(&mut out, item.destroy_time);
    put_alias(&mut out, &item.custom_url);
    append_bytes(&mut out, item.uuid.bytes.as_slice());
    put_block(&mut out, item.hash.as_str().as_bytes());
    put_block(&mut out, item.short.as_str().as_bytes());
    put_payload(&mut out, &item.data);
    assert(out@ =~= encoded(item@));
    proof {
        lemma_decode_encoded(item@);
    }
    out
}

fn take<'a>(data: &'a [u8], pos: usize, n: usize) -> (r: Option<(&'a [u8], usize)>)
    requires
        pos <= data@.len(),
    ensures
        r matches Some((x, p)) ==> p <= data@.len() && split(rest(data@, pos as int), n as int)
            == Some((x@, rest(data@, p as int))),
        r is None ==> split(rest(data@, pos as int), n as int) is None,
{
    if n <= data.len() - pos {
        let x = slice_subrange(data, pos, pos + n);
        proof {
            let r0 = rest(data@, pos as int);
            assert(r0.subrange(0, n as int) =~= x@);
            assert(r0.subrange(n as int, r0.len() as int) =~= rest(data@, pos + n));
        }
        Some((x, pos + n))
    } else {
        None
    }
}

fn take_block<'a>(data: &'a [u8], pos: usize) -> (r: Option<(&'a [u8], usize)>)
    requires
        pos <= data@.len(),
    ensures
        r matches Some((x, p)) ==> p <= data@.len() && read_block(rest(data@, pos as int)) == Some(
            (x@, rest(data@, p as int)),
        ),
        r is None ==> read_block(rest(data@, pos as int)) is None,
{
    match take(data, pos, 8) {
        Some((len, p)) => {
            let n = u64_from_le_bytes(len);
            if n <= (data.len() - p) as u64 {
                take(data, p, n as usize)
            } else {
                None
            }
        },
        None => None,
    }
}

fn take_text(data: &[u8], pos: usize) -> (r: Option<(String, usize)>)
    requires
        pos <= data@.len(),
    ensures
        r matches Some((t, p)) ==> p <= data@.len() && read_text(rest(data@, pos as int)) == Some(
            (t@, rest(data@, p as int)),
        ),
        r is None ==> read_text(rest(data@, pos as int)) is None,
{
    match take_block(data, pos) {
        Some((content, p)) => match utf8_text(content) {
            Some(t) => Some((t.to_owned(), p)),
            None => None,
        },
        None => None,
    }
}

fn take_time(data: &[u8], pos: usize) -> (r: Option<(Option<Timestamp>, usize)>)
    requires
        pos <= data@.len(),
    ensures
        r matches Some((t, p)) ==> p <= data@.len() && read_time(rest(data@, pos as int)) == Some(
            (t, rest(data@, p as int)),
        ),
        r is None ==> read_time(rest(data@, pos as int)) is None,
{
    match take(data, pos, 1) {
        Some((tag, p)) => {
            if tag[0] == 0 {
                Some((None, p))
            } else if tag[0] == 1 {
                match take(data, p, 8) {
                    Some((secs, p)) => match take(data, p, 4) {
                        Some((nanos, p)) => {
                            let stored = u64_from_le_bytes(secs);
                            let secs: i64 = if stored >= 0x8000_0000_0000_0000u64 {
                                (stored - 0x8000_0000_0000_0000u64) as i64
                            } else {
                                (stored as i64) - i64::MAX - 1
                            };
                            assert(secs == unbiased(stored));
                            Some((Some(Timestamp { secs, nanos: u32_from_le_bytes(nanos) }), p))
                        },
                        None => None,
                    },
                    None => None,
                }
            } else {
                None
            }
        },
        None => None,
    }
}

fn take_alias(data: &[u8], pos: usize) -> (r: Option<(Option<String>, usize)>)
    requires
        pos <= data@.len(),
    ensures
        r matches Some((a, p)) ==> p <= data@.len() && read_alias(rest(data@, pos as int)) == Some(
            (crate::model::text_of(a), rest(data@, p as int)),
        ),
        r is None ==> read_alias(rest(data@, pos as int)) is None,
{
    match take(data, pos, 1) {
        Some((tag, p)) => {
            if tag[0] == 0 {
                Some((None, p))
            } else if tag[0] == 1 {
                match take_text(data, p) {
                    Some((a, p)) => Some((Some(a), p)),
                    None => None,
                }
            } else {
                None
            }
        },
        None => None,
    }
}

fn take_payload(data: &[u8], pos: usize) -> (r: Option<(DataType, usize)>)
    requires
        pos <= data@.len(),
    ensures
        r matches Some((d, p)) ==> p <= data@.len() && read_payload(rest(data@, pos as int))
            == Some((d@, rest(data@, p as int))),
        r is None ==> read_payload(rest(data@, pos as int)) is None,
{
    match take(data, pos, 1) {
        Some((tag, p)) => {
            if tag[0] == 0 {
                match take_text(data, p) {
                    Some((t, p)) => Some((DataType::Text(t), p)),
                    None => None,
                }
            } else if tag[0] == 1 {
                match take_text(data, p) {
                    Some((t, p)) => Some((DataType::ShortLink(t), p)),
                    None => None,
                }
            } else if tag[0] == 2 {
                match take_block(data, p) {
                    Some((c, p)) => Some((DataType::Binary(slice_to_vec(c)), p)),
                    None => None,
                }
            } else {
                None
            }
        },
        None => None,
    }
}

fn take_id(data: &[u8], pos: usize) -> (r: Option<(RecordId, usize)>)
    requires
        pos <= data@.len(),
    ensures
        r matches Some((id, p)) ==> p <= data@.len() && split(rest(data@, pos as int), 16) == Some(
            (id@, rest(data@, p as int)),
        ),
        r is None ==> split(rest(data@, pos as int), 16) is None,
{
    match take(data, pos, 16) {
        Some((raw, p)) => {
            let mut bytes = [0u8; 16];
            let mut i: usize = 0;
            while i < 16
                invariant
                    i <= 16,
                    raw@.len() == 16,
                    forall|j: int| 0 <= j < i ==> bytes@[j] == raw@[j],
                decreases 16 - i,
            {
                bytes[i] = raw[i];
                i += 1;
            }
            assert(bytes@ =~= raw@);
            Some((RecordId { bytes }, p))
        },
        None => None,
    }
}

/// Reads a record from its stored form; `None` where the bytes are not the
/// stored form of a record.
pub fn decode_item(data: &[u8]) -> (r: Option<DataBaseItem>)
    ensures
        r matches Some(item) ==> decoded(data@) == Some(item@),
        r is None ==> decoded(data@) is None,
{
    proof {
        reveal(decoded);
    }
    assert(rest(data@, 0) =~= data@);
    let (destroy_time, p) = match take_time(data, 0) {
        Some(x) => x,
        None => { return None; },
    };
    let (custom_url, p) = match take_alias(data, p) {
        Some(x) => x,
        None => { return None; },
    };
    let (uuid, p) = match take_id(data, p) {
        Some(x) => x,
        None => { return None; },
    };
    let (hash, p) = match take_text(data, p) {
        Some(x) => x,
        None => { return None; },
    };
    let (short, p) = match take_text(data, p) {
        Some(x) => x,
        None => { return None; },
    };
    let (data_type, p) = match take_payload(data, p) {
        Some(x) => x,
        None => { return None; },
    };
    if p == data.len() {
        Some(DataBaseItem { destroy_time, custom_url, uuid, hash, short, data: data_type })
    } else {
        None
    }
}

} // verus!
