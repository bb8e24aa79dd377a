//! What the store decides from the answers of the engine. The engine is
//! asked whether a key space has a key, and what stands under a key; it may
//! refuse to answer. The functions here take the answers as plain values
//! and say for each of them what the store goes on with, so that nothing of
//! this rests on the engine.
//!
//! An answer to "is the key there" is `Some` of a truth value, an answer to
//! "what stands under the key" `Some` of the value or of `None`; in both,
//! `None` says that the engine refused, and stands as well for an answer
//! that was not asked for because it is not needed.

use crate::address::content_hash;
use crate::codec::{decode_item, decoded};
use crate::id::RecordId;
use crate::clock::Timestamp;
use crate::model::{
    DataBaseErrorType, DataBaseItem, DataType, ItemView, ReadOutcome, TreeNames,
};
use vstd::prelude::*;
use vstd::slice::*;

verus! {

/// The key space that a key belongs to, from the answers of the three key
/// spaces: the short codes are asked first, then the aliases, then, where
/// the key is the literal of an identifier, the records. A refusal counts
/// only where the answer is needed, and is `Failed`.
pub open spec fn resolution(
    in_short: Option<bool>,
    in_custom: Option<bool>,
    is_literal: bool,
    in_data: Option<bool>,
) -> Result<TreeNames, DataBaseErrorType> {
    match in_short {
        None => Err(DataBaseErrorType::Failed),
        Some(true) => Ok(TreeNames::ShortNameTree),
        Some(false) => match in_custom {
            None => Err(DataBaseErrorType::Failed),
            Some(true) => Ok(TreeNames::CustomNameTree),
            Some(false) => if !is_literal {
                Err(DataBaseErrorType::NotFound)
            } else {
                match in_data {
                    None => Err(DataBaseErrorType::Failed),
                    Some(true) => Ok(TreeNames::DataTree),
                    Some(false) => Err(DataBaseErrorType::NotFound),
                }
            },
        },
    }
}

/// Decides the key space of a key from the answers of the three key spaces.
/// `id` is the identifier that the key is a literal of, if it is one, and
/// `in_data` the answer for that identifier.
pub fn resolve_answers(
    in_short: Option<bool>,
    in_custom: Option<bool>,
    id: Option<RecordId>,
    in_data: Option<bool>,
) -> (r: Result<TreeNames, DataBaseErrorType>)
    ensures
        r == resolution(in_short, in_custom, id is Some, in_data),
{
    match in_short {
        None => Err(DataBaseErrorType::Failed),
        Some(true) => Ok(TreeNames::ShortNameTree),
        Some(false) => match in_custom {
            None => Err(DataBaseErrorType::Failed),
            Some(true) => Ok(TreeNames::CustomNameTree),
            Some(false) => match (id, in_data) {
                (None, _) => Err(DataBaseErrorType::NotFound),
                (Some(_), None) => Err(DataBaseErrorType::Failed),
                (Some(_), Some(true)) => Ok(TreeNames::DataTree),
                (Some(_), Some(false)) => Err(DataBaseErrorType::NotFound),
            },
        },
    }
}

/// The identifier, as bytes, that a key of a given key space leads to. In
/// the key space of the records it is the identifier that the key is a
/// literal of; in the two others it is the entry under the key.
pub open spec fn target_of(
    tree: TreeNames,
    id: Option<Seq<u8>>,
    entry: Option<Option<Seq<u8>>>,
) -> Result<Seq<u8>, DataBaseErrorType> {
    match tree {
        TreeNames::DataTree => match id {
            Some(i) => Ok(i),
            None => Err(DataBaseErrorType::NotFound),
        },
        _ => match entry {
            None => Err(DataBaseErrorType::Failed),
            Some(None) => Err(DataBaseErrorType::NotFound),
            Some(Some(v)) => Ok(v),
        },
    }
}

/// An answer of the engine with its bytes as a mathematical value.
pub open spec fn bytes_of(answer: Option<Option<Vec<u8>>>) -> Option<Option<Seq<u8>>> {
    match answer {
        Some(Some(v)) => Some(Some(v@)),
        Some(None) => Some(None),
        None => None,
    }
}

/// The bytes of an identifier, where there is one.
pub open spec fn id_bytes_of(id: Option<RecordId>) -> Option<Seq<u8>> {
    match id {
        Some(i) => Some(i@),
        None => None,
    }
}

/// Decides where a key of a given key space leads, from the identifier that
/// the key is a literal of and from the answer of the index.
pub fn target_of_answer(
    tree: TreeNames,
    id: Option<RecordId>,
    entry: Option<Option<Vec<u8>>>,
) -> (r: Result<Vec<u8>, DataBaseErrorType>)
    ensures
        match target_of(tree, id_bytes_of(id), bytes_of(entry)) {
            Ok(t) => r matches Ok(v) && v@ == t,
            Err(e) => r == Err::<Vec<u8>, DataBaseErrorType>(e),
        },
{
    match tree {
        TreeNames::DataTree => match id {
            Some(i) => Ok(slice_to_vec(i.bytes.as_slice())),
            None => Err(DataBaseErrorType::NotFound),
        },
        _ => match entry {
            None => Err(DataBaseErrorType::Failed),
            Some(None) => Err(DataBaseErrorType::NotFound),
            Some(Some(v)) => Ok(v),
        },
    }
}

/// The record under an identifier, from the answer of the key space of the
/// records: the record that the bytes are the stored form of. Bytes that
/// are no stored form count as no record.
pub open spec fn record_in(answer: Option<Option<Seq<u8>>>) -> Result<ItemView, DataBaseErrorType> {
    match answer {
        None => Err(DataBaseErrorType::Failed),
        Some(None) => Err(DataBaseErrorType::NotFound),
        Some(Some(b)) => match decoded(b) {
            Some(v) => Ok(v),
            None => Err(DataBaseErrorType::NotFound),
        },
    }
}

/// Decides what record stands under an identifier, from the answer of the
/// key space of the records.
pub fn record_of_answer(answer: Option<Option<Vec<u8>>>) -> (r: Result<
    DataBaseItem,
    DataBaseErrorType,
>)
    ensures
        match record_in(bytes_of(answer)) {
            Ok(v) => r matches Ok(item) && item@ == v,
            Err(e) => r == Err::<DataBaseItem, DataBaseErrorType>(e),
        },
{
    match answer {
        None => Err(DataBaseErrorType::Failed),
        Some(None) => Err(DataBaseErrorType::NotFound),
        Some(Some(bytes)) => match decode_item(bytes.as_slice()) {
            Some(item) => Ok(item),
            None => Err(DataBaseErrorType::NotFound),
        },
    }
}

/// Whether a key of a record that is to be created is free, from what the
/// store found for it: a key that belongs to no key space is free; one that
/// belongs to one is taken by the record it leads to; and where that record
/// cannot be given, or the engine refused, the outcome is `Failed`.
/// `loaded` is what loading the key gave, where the key was found to belong
/// to a key space.
pub open spec fn finding(
    resolved: Result<TreeNames, DataBaseErrorType>,
    loaded: Option<Result<DataBaseItem, DataBaseErrorType>>,
) -> Result<(), DataBaseErrorType> {
    match resolved {
        Ok(_) => match loaded {
            Some(Ok(item)) => Err(DataBaseErrorType::Existed(item)),
            _ => Err(DataBaseErrorType::Failed),
        },
        Err(DataBaseErrorType::NotFound) => Ok(()),
        Err(_) => Err(DataBaseErrorType::Failed),
    }
}

/// Decides whether a key of a record that is to be created is free.
pub fn conflict_of_answers(
    resolved: Result<TreeNames, DataBaseErrorType>,
    loaded: Option<Result<DataBaseItem, DataBaseErrorType>>,
) -> (r: Result<(), DataBaseErrorType>)
    ensures
        r == finding(resolved, loaded),
{
    match resolved {
        Ok(_) => match loaded {
            Some(Ok(item)) => Err(DataBaseErrorType::Existed(item)),
            _ => Err(DataBaseErrorType::Failed),
        },
        Err(DataBaseErrorType::NotFound) => Ok(()),
        Err(_) => Err(DataBaseErrorType::Failed),
    }
}

/// The first of the three findings for the keys of a new record that is
/// not `Ok`, in the order in which the keys are tried: the literal of the
/// identifier, the short code, the alias. A record without an alias has no
/// third finding.
pub open spec fn first_refusal(
    by_id: Result<(), DataBaseErrorType>,
    by_short: Result<(), DataBaseErrorType>,
    by_alias: Option<Result<(), DataBaseErrorType>>,
) -> Result<(), DataBaseErrorType> {
    if by_id is Err {
        by_id
    } else if by_short is Err {
        by_short
    } else {
        match by_alias {
            Some(Err(e)) => Err(e),
            _ => Ok(()),
        }
    }
}

/// Decides whether a record may be created, from the findings for its
/// three keys.
pub fn first_conflict(
    by_id: Result<(), DataBaseErrorType>,
    by_short: Result<(), DataBaseErrorType>,
    by_alias: Option<Result<(), DataBaseErrorType>>,
) -> (r: Result<(), DataBaseErrorType>)
    ensures
        r == first_refusal(by_id, by_short, by_alias),
{
    match by_id {
        Err(e) => Err(e),
        Ok(_) => match by_short {
            Err(e) => Err(e),
            Ok(_) => match by_alias {
                Some(Err(e)) => Err(e),
                _ => Ok(()),
            },
        },
    }
}

/// The identifier of the record to remove on a read: that of the record
/// that was loaded, where its destroy time has passed.
pub open spec fn expired_in(
    loaded: Result<DataBaseItem, DataBaseErrorType>,
    now: Timestamp,
) -> Option<RecordId> {
    match loaded {
        Ok(item) => if item@.expired_at(now) {
            Some(item.uuid)
        } else {
            None
        },
        Err(_) => None,
    }
}

/// Decides whether a read removes a record, and which, from what loading
/// the key gave.
pub fn expired_id(loaded: &Result<DataBaseItem, DataBaseErrorType>, now: Timestamp) -> (r: Option<
    RecordId,
>)
    ensures
        r == expired_in(*loaded, now),
{
    match loaded {
        Ok(item) => if item.is_expired(now) {
            Some(item.uuid)
        } else {
            None
        },
        Err(_) => None,
    }
}

/// What a read gives, from what loading the key gave and from whether the
/// removal of an expired record went through: a record is given out unless
/// its destroy time has passed; a key that leads nowhere is `NotFound`; a
/// refusal of the engine is `Failed`.
pub open spec fn outcome_of(
    loaded: Result<DataBaseItem, DataBaseErrorType>,
    now: Timestamp,
    removed: bool,
) -> Result<ReadOutcome, DataBaseErrorType> {
    match loaded {
        Ok(item) => if item@.expired_at(now) {
            Ok(ReadOutcome::Expired { removed })
        } else {
            Ok(ReadOutcome::Found(item))
        },
        Err(DataBaseErrorType::NotFound) => Ok(ReadOutcome::NotFound),
        Err(_) => Err(DataBaseErrorType::Failed),
    }
}

/// Decides what a read gives.
pub fn read_outcome(
    loaded: Result<DataBaseItem, DataBaseErrorType>,
    now: Timestamp,
    removed: bool,
) -> (r: Result<ReadOutcome, DataBaseErrorType>)
    ensures
        r == outcome_of(loaded, now, removed),
{
    match loaded {
        Ok(item) => if item.is_expired(now) {
            Ok(ReadOutcome::Expired { removed })
        } else {
            Ok(ReadOutcome::Found(item))
        },
        Err(DataBaseErrorType::NotFound) => Ok(ReadOutcome::NotFound),
        Err(_) => Err(DataBaseErrorType::Failed),
    }
}

/// The stored record with another payload: the content hash is that of the
/// new payload; identifier, short code, alias and destroy time stay.
pub fn with_new_payload(stored: DataBaseItem, value: DataType) -> (r: DataBaseItem)
    ensures
        r@ == stored@.with_payload(value@),
{
    let hash = content_hash(value.get_data());
    DataBaseItem {
        destroy_time: stored.destroy_time,
        custom_url: stored.custom_url,
        uuid: stored.uuid,
        hash,
        short: stored.short,
        data: value,
    }
}

} // verus!
