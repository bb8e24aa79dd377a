//! The record store: three key spaces of the engine and the operations that
//! create, read, update and delete records.
//!
//! Every operation states its result and the store after it over the model
//! `StoreView`. The engine can refuse any read and any write: an operation
//! then reports `Failed` (a deletion reports `NotFound`). A refused read
//! leaves the store as it is. A refused write may have been applied in part:
//! the store then holds under every key what it held before or what the
//! operation writes there, and no more is known of it.

use crate::address::short_code_of;
use crate::answers::{
    conflict_of_answers, expired_id, first_conflict, id_bytes_of, read_outcome, record_of_answer,
    resolve_answers, target_of_answer, with_new_payload,
};
use crate::clock::{current_time, Timestamp};
use crate::codec::{encode_item, encoded, storable};
use crate::consistency::{
    lemma_created_is_reachable, lemma_deleted_is_unreachable, lemma_expired_then_not_found,
    lemma_update_keeps_addresses, well_formed,
};
use crate::engine::{
    apply_writes, batch_insert, batch_new, batch_remove, commit_three, no_writes, open_tree,
    tree_contains_key, tree_entries, tree_get, tree_name, tree_name_of,
};
use crate::id::{is_random_id, RecordId};
use crate::model::{
    derived_item, text_of, DataBaseErrorType, DataBaseItem, DataType, ReadOutcome, TreeNames,
};
use crate::state::{
    id_key, id_of_key, lemma_between_same, lemma_between_unchanged, text_key, StoreView,
};
use crate::text::utf8_text;
use vstd::prelude::*;
use vstd::utf8::*;

verus! {

/// The store: three key spaces of the engine, for the records, the short
/// codes and the aliases. The three bear different names, so that they are
/// three key spaces and not one under three handles. The store alone writes
/// to them: a database is to be handed to one store at a time.
pub struct DataTrees {
    db: sled::Tree,
    short_to_uuid_db: sled::Tree,
    custom_to_uuid_db: sled::Tree,
}

impl View for DataTrees {
    type V = StoreView;

    closed spec fn view(&self) -> StoreView {
        StoreView {
            data: tree_entries(self.db),
            short: tree_entries(self.short_to_uuid_db),
            custom: tree_entries(self.custom_to_uuid_db),
        }
    }
}

/// Whether three names are pairwise different.
pub open spec fn different_names(a: Seq<u8>, b: Seq<u8>, c: Seq<u8>) -> bool {
    a != b && a != c && b != c
}

/// Compares two byte strings.
fn same_bytes(a: &[u8], b: &[u8]) -> (r: bool)
    ensures
        r == (a@ == b@),
{
    if a.len() != b.len() {
        return false;
    }
    let mut i: usize = 0;
    while i < a.len()
        invariant
            i <= a@.len(),
            a@.len() == b@.len(),
            forall|j: int| 0 <= j < i ==> a@[j] == b@[j],
        decreases a@.len() - i,
    {
        if a[i] != b[i] {
            return false;
        }
        i += 1;
    }
    assert(a@ =~= b@);
    true
}

impl DataTrees {
    /// Whether the three key spaces of the store bear different names. It
    /// holds of every store that `new` or `from_trees` gives, and every
    /// operation keeps it.
    pub closed spec fn separate(&self) -> bool {
        different_names(
            tree_name(self.db),
            tree_name(self.short_to_uuid_db),
            tree_name(self.custom_to_uuid_db),
        )
    }

    /// The store over three key spaces that are open: it holds what they
    /// hold. Key spaces that do not bear three different names are refused
    /// with `Failed`.
    pub fn from_trees(
        db: sled::Tree,
        short_to_uuid_db: sled::Tree,
        custom_to_uuid_db: sled::Tree,
    ) -> (r: Result<DataTrees, DataBaseErrorType>)
        ensures
            r is Ok <==> different_names(
                tree_name(db),
                tree_name(short_to_uuid_db),
                tree_name(custom_to_uuid_db),
            ),
            r matches Ok(store) ==> store.separate() && store@ == (StoreView {
                data: tree_entries(db),
                short: tree_entries(short_to_uuid_db),
                custom: tree_entries(custom_to_uuid_db),
            }),
            r matches Err(e) ==> e is Failed,
    {
        let first = tree_name_of(&db);
        let second = tree_name_of(&short_to_uuid_db);
        let third = tree_name_of(&custom_to_uuid_db);
        if same_bytes(first.as_slice(), second.as_slice()) || same_bytes(
            first.as_slice(),
            third.as_slice(),
        ) || same_bytes(second.as_slice(), third.as_slice()) {
            Err(DataBaseErrorType::Failed)
        } else {
            Ok(DataTrees { db, short_to_uuid_db, custom_to_uuid_db })
        }
    }

    /// Opens the three key spaces of the store in a database, or fails where
    /// the engine cannot open one of them. The store holds whatever the
    /// database held under their names.
    pub fn new(database: sled::Db) -> (r: Result<DataTrees, DataBaseErrorType>)
        ensures
            r matches Ok(store) ==> store.separate(),
            r matches Err(e) ==> e is Failed,
    {
        let db = match open_tree(&database, TreeNames::DataTree.as_bytes().as_slice()) {
            Some(t) => t,
            None => { return Err(DataBaseErrorType::Failed); },
        };
        let short_to_uuid_db = match open_tree(
            &database,
            TreeNames::ShortNameTree.as_bytes().as_slice(),
        ) {
            Some(t) => t,
            None => { return Err(DataBaseErrorType::Failed); },
        };
        let custom_to_uuid_db = match open_tree(
            &database,
            TreeNames::CustomNameTree.as_bytes().as_slice(),
        ) {
            Some(t) => t,
            None => { return Err(DataBaseErrorType::Failed); },
        };
        proof {
            assert(TreeNames::DataTree.name()[0] == 0u8);
            assert(TreeNames::ShortNameTree.name()[0] == 1u8);
            assert(TreeNames::CustomNameTree.name()[0] == 2u8);
        }
        DataTrees::from_trees(db, short_to_uuid_db, custom_to_uuid_db)
    }
}

/// The identifier that a key is the literal of, if it is one.
fn literal_id(key: &[u8]) -> (r: Option<RecordId>)
    ensures
        id_bytes_of(r) == id_of_key(key@),
{
    match utf8_text(key) {
        Some(text) => RecordId::parse(text),
        None => None,
    }
}

/// Finds the key space that a key belongs to. `NotFound` says that the key
/// belongs to none; `Failed` that the engine could not be read. The three
/// key spaces are asked, and `resolve_answers` decides.
pub fn search_key_in_db(db: &DataTrees, key: &[u8]) -> (r: Result<TreeNames, DataBaseErrorType>)
    ensures
        r matches Ok(t) ==> db@.resolve(key@) == Some(t),
        r matches Err(e) ==> e is NotFound || e is Failed,
        r matches Err(DataBaseErrorType::NotFound) ==> db@.resolve(key@) is None,
{
    let in_short = tree_contains_key(&db.short_to_uuid_db, key);
    let in_custom = tree_contains_key(&db.custom_to_uuid_db, key);
    let id = literal_id(key);
    let in_data = match id {
        Some(id) => tree_contains_key(&db.db, id.bytes.as_slice()),
        None => None,
    };
    resolve_answers(in_short, in_custom, id, in_data)
}

/// Loads the record stored under an identifier, given as bytes.
fn load_record(db: &DataTrees, id: &[u8]) -> (r: Result<DataBaseItem, DataBaseErrorType>)
    ensures
        r matches Ok(item) ==> db@.record_at(id@) == Some(item@),
        r matches Err(e) ==> e is NotFound || e is Failed,
        r matches Err(DataBaseErrorType::NotFound) ==> db@.record_at(id@) is None,
{
    record_of_answer(tree_get(&db.db, id))
}

/// Loads the record that a key leads to, whether or not its destroy time
/// has passed. `NotFound` says that the key leads to no record; `Failed`
/// that the engine could not be read.
pub fn get_data_in_db(db: &DataTrees, key: &[u8]) -> (r: Result<DataBaseItem, DataBaseErrorType>)
    ensures
        r matches Ok(item) ==> db@.lookup(key@) == Some(item@),
        r matches Err(e) ==> e is NotFound || e is Failed,
        r matches Err(DataBaseErrorType::NotFound) ==> db@.lookup(key@) is None,
{
    let tree = match search_key_in_db(db, key) {
        Ok(t) => t,
        Err(e) => { return Err(e); },
    };
    let entry = match tree {
        TreeNames::DataTree => None,
        TreeNames::ShortNameTree => tree_get(&db.short_to_uuid_db, key),
        TreeNames::CustomNameTree => tree_get(&db.custom_to_uuid_db, key),
    };
    match target_of_answer(tree, literal_id(key), entry) {
        Ok(id) => load_record(db, id.as_slice()),
        Err(e) => Err(e),
    }
}

/// Loads the record that a key leads to: a short code, an alias, or the
/// literal of an identifier. The record is given whether or not its destroy
/// time has passed: the read that gives no expired record, and removes it,
/// is `read_record`.
pub fn query_record(db: &DataTrees, key: String) -> (r: Result<DataBaseItem, DataBaseErrorType>)
    ensures
        r matches Ok(item) ==> db@.lookup(text_key(key@)) == Some(item@),
        r matches Err(e) ==> e is NotFound || e is Failed,
        r matches Err(DataBaseErrorType::NotFound) ==> db@.lookup(text_key(key@)) is None,
{
    get_data_in_db(db, key.as_str().as_bytes())
}

/// One write applied to a key space is an insertion.
proof fn lemma_one_insert(entries: Map<Seq<u8>, Seq<u8>>, key: Seq<u8>, value: Seq<u8>)
    ensures
        apply_writes(entries, no_writes().insert(key, Some(value))) == entries.insert(key, value),
{
    assert(apply_writes(entries, no_writes().insert(key, Some(value))) =~= entries.insert(
        key,
        value,
    ));
}

/// One removal applied to a key space removes the key.
proof fn lemma_one_remove(entries: Map<Seq<u8>, Seq<u8>>, key: Seq<u8>)
    ensures
        apply_writes(entries, no_writes().insert(key, None)) == entries.remove(key),
{
    assert(apply_writes(entries, no_writes().insert(key, None)) =~= entries.remove(key));
}

/// No write leaves a key space as it is.
proof fn lemma_no_write(entries: Map<Seq<u8>, Seq<u8>>)
    ensures
        apply_writes(entries, no_writes()) == entries,
{
    assert(apply_writes(entries, no_writes()) =~= entries);
}

/// Checks one key of a record that is to be created: `Ok` where the key is
/// free, the record that holds it where it is taken.
fn check_free(db: &DataTrees, key: &[u8]) -> (r: Result<(), DataBaseErrorType>)
    ensures
        r is Ok ==> db@.resolve(key@) is None,
        r matches Err(e) ==> db@.resolve(key@) is Some || e is Failed,
        r matches Err(DataBaseErrorType::Existed(item)) ==> db@.resolve(key@) is Some
            && db@.lookup(key@) == Some(item@),
        !(r matches Err(DataBaseErrorType::NotFound)),
{
    let resolved = search_key_in_db(db, key);
    let loaded = if resolved.is_ok() {
        Some(get_data_in_db(db, key))
    } else {
        None
    };
    conflict_of_answers(resolved, loaded)
}

/// Creates a record in the store. Where one of its keys (the literal of its
/// identifier, its short code, its alias, in that order) leads somewhere
/// already, nothing is written and `Existed` carries the record that the
/// first such key leads to. Otherwise the record and its index entries are
/// written in one transaction; `Failed` says that the engine refused. The
/// engine may have applied a refused transaction in part: whatever the
/// outcome, the store holds under every key what it held before or what the
/// creation writes there.
pub fn add_record(db: &mut DataTrees, data: &DataBaseItem) -> (r: Result<(), DataBaseErrorType>)
    requires
        old(db).separate(),
    ensures
        final(db).separate(),
        r is Ok ==> old(db)@.conflict_key(data@) is None && final(db)@ == old(db)@.with_record(
            data@,
        ),
        r matches Err(DataBaseErrorType::Existed(item)) ==> old(db)@.conflict_key(data@) is Some
            && old(db)@.lookup(old(db)@.conflict_key(data@)->0) == Some(item@)
            && final(db)@ == old(db)@,
        !(r matches Err(DataBaseErrorType::NotFound)),
        old(db)@.conflict_key(data@) is Some ==> r is Err && final(db)@ == old(db)@,
        final(db)@.between(old(db)@, old(db)@.with_record(data@)),
        r is Ok ==> well_formed(data@),
        r is Ok && old(db)@.consistent() ==> {
            &&& final(db)@.consistent()
            &&& final(db)@.lookup(id_key(data@.uuid)) == Some(data@)
            &&& final(db)@.lookup(text_key(data@.short)) == Some(data@)
            &&& data@.custom_url is Some ==> final(db)@.lookup(text_key(data@.custom_url->0))
                == Some(data@)
        },
{
    let id_text = data.uuid.to_text();
    proof {
        encode_utf8_valid_utf8(id_text@);
        encode_utf8_decode_utf8(id_text@);
        lemma_between_unchanged(db@, db@.with_record(data@));
    }
    let by_id = check_free(db, id_text.as_str().as_bytes());
    let by_short = check_free(db, data.short.as_str().as_bytes());
    let by_alias = match &data.custom_url {
        Some(alias) => Some(check_free(db, alias.as_str().as_bytes())),
        None => None,
    };
    match first_conflict(by_id, by_short, by_alias) {
        Ok(_) => {},
        Err(e) => { return Err(e); },
    }
    let id = data.uuid.bytes.as_slice();
    let mut records = batch_new();
    batch_insert(&mut records, id, encode_item(data).as_slice());
    let mut shorts = batch_new();
    batch_insert(&mut shorts, data.short.as_str().as_bytes(), id);
    let mut aliases = batch_new();
    match &data.custom_url {
        Some(alias) => {
            batch_insert(&mut aliases, alias.as_str().as_bytes(), id);
        },
        None => {},
    }
    proof {
        if db@.consistent() {
            lemma_created_is_reachable(db@, data@);
        }
        lemma_one_insert(db@.data, id@, encoded(data@));
        lemma_one_insert(db@.short, text_key(data@.short), id@);
        match data@.custom_url {
            Some(a) => {
                lemma_one_insert(db@.custom, text_key(a), id@);
            },
            None => {
                lemma_no_write(db@.custom);
            },
        }
    }
    if commit_three(
        &mut db.db,
        &mut db.short_to_uuid_db,
        &mut db.custom_to_uuid_db,
        &records,
        &shorts,
        &aliases,
    ) {
        Ok(())
    } else {
        Err(DataBaseErrorType::Failed)
    }
}

/// Makes the record of a payload under the given identifier and creates it
/// in the store. Gives the record as it is stored. `Failed` also says that
/// the payload's digest gives no short code. Whatever the outcome, the
/// store holds under every key what it held before or what the creation
/// writes there.
pub fn create_record_with_id(
    db: &mut DataTrees,
    uuid: RecordId,
    data: DataType,
    custom_url: Option<String>,
    destroy_time: Option<Timestamp>,
) -> (r: Result<DataBaseItem, DataBaseErrorType>)
    requires
        old(db).separate(),
    ensures
        final(db).separate(),
        r matches Ok(item) ==> {
            &&& item@ == derived_item(uuid@, data@, text_of(custom_url), destroy_time)
            &&& old(db)@.conflict_key(item@) is None
            &&& final(db)@ == old(db)@.with_record(item@)
            &&& well_formed(item@)
        },
        r matches Err(DataBaseErrorType::Existed(existing)) ==> {
            let item = derived_item(uuid@, data@, text_of(custom_url), destroy_time);
            &&& short_code_of(data@.bytes()) is Some
            &&& old(db)@.conflict_key(item) is Some
            &&& old(db)@.lookup(old(db)@.conflict_key(item)->0) == Some(existing@)
            &&& final(db)@ == old(db)@
        },
        !(r matches Err(DataBaseErrorType::NotFound)),
        short_code_of(data@.bytes()) is None ==> r is Err && final(db)@ == old(db)@,
        final(db)@.between(
            old(db)@,
            old(db)@.with_record(derived_item(uuid@, data@, text_of(custom_url), destroy_time)),
        ),
        r is Ok && old(db)@.consistent() ==> final(db)@.consistent(),
{
    proof {
        lemma_between_unchanged(
            db@,
            db@.with_record(derived_item(uuid@, data@, text_of(custom_url), destroy_time)),
        );
    }
    match DataBaseItem::with_id(uuid, data, custom_url, destroy_time) {
        Some(item) => match add_record(db, &item) {
            Ok(_) => Ok(item),
            Err(e) => Err(e),
        },
        None => Err(DataBaseErrorType::Failed),
    }
}

/// Makes the record of a payload under a new random identifier and creates
/// it in the store. Gives the record as it is stored; `Existed` carries the
/// record that one of the new record's keys leads to already. Whatever the
/// outcome, the store holds under every key what it held before or what the
/// creation of the record under some random identifier writes there.
pub fn create_record(
    db: &mut DataTrees,
    data: DataType,
    custom_url: Option<String>,
    destroy_time: Option<Timestamp>,
) -> (r: Result<DataBaseItem, DataBaseErrorType>)
    requires
        old(db).separate(),
    ensures
        final(db).separate(),
        r matches Ok(item) ==> {
            &&& item@ == derived_item(item.uuid@, data@, text_of(custom_url), destroy_time)
            &&& is_random_id(item.uuid@)
            &&& old(db)@.conflict_key(item@) is None
            &&& final(db)@ == old(db)@.with_record(item@)
            &&& well_formed(item@)
        },
        r matches Err(DataBaseErrorType::Existed(existing)) ==> {
            &&& final(db)@ == old(db)@
            &&& exists|key: Seq<u8>| #[trigger] old(db)@.lookup(key) == Some(existing@)
        },
        !(r matches Err(DataBaseErrorType::NotFound)),
        short_code_of(data@.bytes()) is None ==> r is Err && final(db)@ == old(db)@,
        exists|uuid: Seq<u8>|
            is_random_id(uuid) && final(db)@.between(
                old(db)@,
                old(db)@.with_record(
                    #[trigger] derived_item(uuid, data@, text_of(custom_url), destroy_time),
                ),
            ),
        r is Ok && old(db)@.consistent() ==> final(db)@.consistent(),
{
    let uuid = RecordId::generate();
    let r = create_record_with_id(db, uuid, data, custom_url, destroy_time);
    proof {
        let item = derived_item(uuid@, data@, text_of(custom_url), destroy_time);
        assert(is_random_id(uuid@) && db@.between(old(db)@, old(db)@.with_record(item)));
    }
    r
}

/// Deletes the record stored under an identifier, with its short code and
/// its alias, in one transaction. Every failure is reported as `NotFound`.
/// The engine may have applied a refused transaction in part: whatever the
/// outcome, the store holds under every key what it held before or what is
/// left there once the record is deleted.
pub fn delete_record(db: &mut DataTrees, key: RecordId) -> (r: Result<(), DataBaseErrorType>)
    requires
        old(db).separate(),
    ensures
        final(db).separate(),
        r is Ok ==> old(db)@.record_at(key@) is Some && final(db)@ == old(db)@.without_record(
            key@,
            old(db)@.record_at(key@)->0,
        ),
        r matches Err(e) ==> e is NotFound,
        old(db)@.record_at(key@) is None ==> r is Err && final(db)@ == old(db)@,
        old(db)@.record_at(key@) is Some ==> final(db)@.between(
            old(db)@,
            old(db)@.without_record(key@, old(db)@.record_at(key@)->0),
        ),
        r is Ok && old(db)@.consistent() ==> {
            let rec = old(db)@.record_at(key@)->0;
            &&& final(db)@.consistent()
            &&& final(db)@.lookup(id_key(key@)) is None
            &&& !old(db)@.names_another(text_key(rec.short), key@) ==> final(db)@.lookup(
                text_key(rec.short),
            ) is None
            &&& rec.custom_url is Some && !old(db)@.names_another(
                text_key(rec.custom_url->0),
                key@,
            ) ==> final(db)@.lookup(text_key(rec.custom_url->0)) is None
        },
{
    proof {
        if db@.record_at(key@) is Some {
            lemma_between_unchanged(db@, db@.without_record(key@, db@.record_at(key@)->0));
        }
    }
    let id = key.bytes.as_slice();
    let item = match load_record(db, id) {
        Ok(item) => item,
        Err(_) => { return Err(DataBaseErrorType::NotFound); },
    };
    let mut records = batch_new();
    batch_remove(&mut records, id);
    let mut shorts = batch_new();
    batch_remove(&mut shorts, item.short.as_str().as_bytes());
    let mut aliases = batch_new();
    match &item.custom_url {
        Some(alias) => {
            batch_remove(&mut aliases, alias.as_str().as_bytes());
        },
        None => {},
    }
    proof {
        if db@.consistent() {
            lemma_deleted_is_unreachable(db@, id@);
        }
        lemma_one_remove(db@.data, id@);
        lemma_one_remove(db@.short, text_key(item@.short));
        match item@.custom_url {
            Some(a) => {
                lemma_one_remove(db@.custom, text_key(a));
            },
            None => {
                lemma_no_write(db@.custom);
            },
        }
    }
    if commit_three(
        &mut db.db,
        &mut db.short_to_uuid_db,
        &mut db.custom_to_uuid_db,
        &records,
        &shorts,
        &aliases,
    ) {
        Ok(())
    } else {
        Err(DataBaseErrorType::NotFound)
    }
}

/// Replaces the payload of the record stored under an identifier and
/// recomputes its content hash; identifier, short code, alias and destroy
/// time stay, and so do the index entries, whatever the outcome. Gives the
/// record as it is stored after the update. Nothing but the entry under the
/// identifier changes; after `Failed` that entry is the old or the new one.
pub fn update_record(db: &mut DataTrees, key: RecordId, value: DataType) -> (r: Result<
    DataBaseItem,
    DataBaseErrorType,
>)
    requires
        old(db).separate(),
    ensures
        final(db).separate(),
        r matches Ok(item) ==> {
            &&& old(db)@.record_at(key@) is Some
            &&& item@ == (old(db)@.record_at(key@)->0).with_payload(value@)
            &&& storable(item@)
            &&& final(db)@ == old(db)@.with_rewritten(key@, item@)
        },
        r matches Err(e) ==> e is NotFound || e is Failed,
        r matches Err(DataBaseErrorType::NotFound) ==> old(db)@.record_at(key@) is None,
        old(db)@.record_at(key@) is None ==> r is Err && final(db)@ == old(db)@,
        final(db)@.short == old(db)@.short,
        final(db)@.custom == old(db)@.custom,
        old(db)@.record_at(key@) is Some ==> final(db)@.between(
            old(db)@,
            old(db)@.with_rewritten(key@, (old(db)@.record_at(key@)->0).with_payload(value@)),
        ),
        r is Ok && old(db)@.consistent() ==> {
            &&& final(db)@.consistent()
            &&& forall|k: Seq<u8>|
                old(db)@.target(k) == Some(key@) ==> #[trigger] final(db)@.lookup(k) == Some(
                    (r->Ok_0)@,
                )
            &&& forall|k: Seq<u8>|
                old(db)@.target(k) != Some(key@) ==> #[trigger] final(db)@.lookup(k) == old(db)@.lookup(k)
        },
{
    proof {
        if db@.record_at(key@) is Some {
            lemma_between_unchanged(
                db@,
                db@.with_rewritten(key@, (db@.record_at(key@)->0).with_payload(value@)),
            );
        }
    }
    let id = key.bytes.as_slice();
    let stored = match load_record(db, id) {
        Ok(item) => item,
        Err(e) => { return Err(e); },
    };
    let item = with_new_payload(stored, value);
    let mut records = batch_new();
    batch_insert(&mut records, id, encode_item(&item).as_slice());
    let shorts = batch_new();
    let aliases = batch_new();
    proof {
        if db@.consistent() {
            lemma_update_keeps_addresses(db@, id@, value@);
        }
        lemma_one_insert(db@.data, id@, encoded(item@));
        lemma_no_write(db@.short);
        lemma_no_write(db@.custom);
    }
    let ok = commit_three(
        &mut db.db,
        &mut db.short_to_uuid_db,
        &mut db.custom_to_uuid_db,
        &records,
        &shorts,
        &aliases,
    );
    proof {
        lemma_between_same(db@.short, old(db)@.short);
        lemma_between_same(db@.custom, old(db)@.custom);
    }
    if ok {
        Ok(item)
    } else {
        Err(DataBaseErrorType::Failed)
    }
}

/// Reads a key at a given time. A record past its destroy time is not
/// given out: it is removed from the store, as far as the engine allows,
/// and the outcome is `Expired`. `NotFound` says that the key leads to no
/// record. Where the engine cannot be read the store stays as it is and the
/// error is `Failed`.
pub fn read_record_at(db: &mut DataTrees, key: &str, now: Timestamp) -> (r: Result<
    ReadOutcome,
    DataBaseErrorType,
>)
    requires
        old(db).separate(),
    ensures
        final(db).separate(),
        r matches Ok(ReadOutcome::Found(item)) ==> {
            &&& old(db)@.lookup(text_key(key@)) == Some(item@)
            &&& !item@.expired_at(now)
            &&& final(db)@ == old(db)@
        },
        r matches Ok(ReadOutcome::Expired { removed }) ==> {
            let id = (old(db)@.lookup(text_key(key@))->0).uuid;
            &&& old(db)@.lookup(text_key(key@)) is Some
            &&& (old(db)@.lookup(text_key(key@))->0).expired_at(now)
            &&& removed ==> old(db)@.record_at(id) is Some && final(db)@
                == old(db)@.without_record(id, old(db)@.record_at(id)->0)
            &&& !removed && old(db)@.record_at(id) is None ==> final(db)@ == old(db)@
            &&& old(db)@.record_at(id) is Some ==> final(db)@.between(
                old(db)@,
                old(db)@.without_record(id, old(db)@.record_at(id)->0),
            )
        },
        r matches Ok(ReadOutcome::NotFound) ==> old(db)@.lookup(text_key(key@)) is None
            && final(db)@ == old(db)@,
        r matches Err(e) ==> e is Failed && final(db)@ == old(db)@,
        old(db)@.consistent() && !(r matches Ok(ReadOutcome::Expired { removed: false }))
            ==> final(db)@.consistent(),
        old(db)@.consistent() && (r matches Ok(ReadOutcome::Expired { removed: true }))
            && !old(db)@.names_another(
                text_key(key@),
                (old(db)@.lookup(text_key(key@))->0).uuid,
            ) ==> final(db)@.lookup(text_key(key@)) is None,
{
    let loaded = get_data_in_db(db, key.as_bytes());
    proof {
        let s = db@;
        let k = text_key(key@);
        if s.consistent() && s.lookup(k) is Some && (s.lookup(k)->0).expired_at(now)
            && !s.names_another(k, (s.lookup(k)->0).uuid) {
            lemma_expired_then_not_found(s, k, now);
        }
    }
    let removed = match expired_id(&loaded, now) {
        Some(id) => delete_record(db, id).is_ok(),
        None => false,
    };
    read_outcome(loaded, now, removed)
}

/// Reads a key at the current time. Whatever the time is, a record that is
/// given out is the one that the key leads to, only a record with a destroy
/// time is taken for expired, and `NotFound` says that the key leads to no
/// record.
pub fn read_record(db: &mut DataTrees, key: &str) -> (r: Result<ReadOutcome, DataBaseErrorType>)
    requires
        old(db).separate(),
    ensures
        final(db).separate(),
        r matches Ok(ReadOutcome::Found(item)) ==> old(db)@.lookup(text_key(key@)) == Some(item@)
            && final(db)@ == old(db)@,
        r matches Ok(ReadOutcome::Expired { removed }) ==> {
            let id = (old(db)@.lookup(text_key(key@))->0).uuid;
            &&& old(db)@.lookup(text_key(key@)) is Some
            &&& (old(db)@.lookup(text_key(key@))->0).destroy_time is Some
            &&& removed ==> old(db)@.record_at(id) is Some && final(db)@
                == old(db)@.without_record(id, old(db)@.record_at(id)->0)
            &&& !removed && old(db)@.record_at(id) is None ==> final(db)@ == old(db)@
            &&& old(db)@.record_at(id) is Some ==> final(db)@.between(
                old(db)@,
                old(db)@.without_record(id, old(db)@.record_at(id)->0),
            )
        },
        r matches Ok(ReadOutcome::NotFound) ==> old(db)@.lookup(text_key(key@)) is None
            && final(db)@ == old(db)@,
        r matches Err(e) ==> e is Failed && final(db)@ == old(db)@,
        old(db)@.consistent() && !(r matches Ok(ReadOutcome::Expired { removed: false }))
            ==> final(db)@.consistent(),
{
    read_record_at(db, key, current_time())
}

} // verus!
