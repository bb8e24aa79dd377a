use pastebin::address::{content_hash, short_code};
use pastebin::clock::Timestamp;
use pastebin::id::RecordId;
use pastebin::model::{DataBaseErrorType, DataBaseItem, DataType, ReadOutcome, TreeNames};
use pastebin::store::{
    add_record, create_record, create_record_with_id, delete_record, get_data_in_db,
    query_record, read_record, read_record_at, search_key_in_db, update_record, DataTrees,
};

fn open_store() -> DataTrees {
    let db = sled::Config::new().temporary(true).open().unwrap();
    DataTrees::new(db).unwrap()
}

fn text(s: &str) -> DataType {
    DataType::Text(String::from(s))
}

fn noon() -> Timestamp {
    Timestamp { secs: 1_700_000_000, nanos: 0 }
}

fn is_not_found<T>(r: Result<T, DataBaseErrorType>) -> bool {
    matches!(r, Err(DataBaseErrorType::NotFound))
}

#[test]
fn create_then_read_by_short_code() {
    let mut store = open_store();
    let item = DataBaseItem::try_new(text("hello"), None, None).unwrap();
    assert_eq!(item.data, text("hello"));
    assert_eq!(item.short, "3p0c");
    assert_eq!(item.hash, "ea8f163db38682925e4491c5e58d4bb3506ef8c14eb78a86e908c5624a67200f");
    assert_eq!(item.custom_url, None);
    assert_eq!(item.destroy_time, None);
    assert!(add_record(&mut store, &item).is_ok());
    let found = query_record(&store, item.short.clone()).unwrap();
    assert_eq!(found, item);
    assert_eq!(found.data, text("hello"));
    let again = DataBaseItem::try_new(text("hello"), None, None).unwrap();
    match add_record(&mut store, &again) {
        Err(DataBaseErrorType::Existed(existing)) => assert_eq!(existing, item),
        _ => panic!("the second create must report the existing record"),
    }
}

#[test]
fn create_gives_the_stored_record() {
    let mut store = open_store();
    let created = create_record(&mut store, text("hello"), None, None).unwrap();
    assert_eq!(created.data, text("hello"));
    assert_eq!(created.short, short_code(b"hello").unwrap());
    assert_eq!(created.hash, content_hash(b"hello"));
    assert_eq!(query_record(&store, String::from("3p0c")).unwrap(), created);
    match create_record(&mut store, text("hello"), None, None) {
        Err(DataBaseErrorType::Existed(existing)) => {
            assert_eq!(existing, created);
            assert_eq!(existing.hash, created.hash);
        },
        _ => panic!("the second create must report the existing record"),
    }
    // nothing of the refused record was written
    assert_eq!(query_record(&store, String::from("3p0c")).unwrap(), created);
}

#[test]
fn new_record_derives_hash_and_short_code() {
    let payload = DataType::Binary(vec![0xff, 0x00, 0x10]);
    let when = Some(noon());
    let item = DataBaseItem::new(payload.clone(), Some(String::from("bin")), when);
    assert_eq!(item.hash, content_hash(&[0xff, 0x00, 0x10]));
    assert_eq!(item.short, short_code(&[0xff, 0x00, 0x10]).unwrap());
    assert_eq!(item.short.len(), 4);
    assert_eq!(item.custom_url, Some(String::from("bin")));
    assert_eq!(item.destroy_time, when);
    assert_eq!(item.data, payload);
    let id = RecordId { bytes: [3; 16] };
    let other = DataBaseItem::with_id(id, payload, Some(String::from("bin")), when).unwrap();
    assert_eq!(other.uuid, id);
    assert_eq!(other.hash, item.hash);
    assert_eq!(other.short, item.short);
}

#[test]
fn colliding_short_codes_do_not_overwrite() {
    let mut store = open_store();
    let first = create_record(&mut store, text("first payload"), None, None).unwrap();
    // another payload whose short code is made to collide with the first
    let mut second = DataBaseItem::try_new(text("second payload"), None, None).unwrap();
    second.short = first.short.clone();
    assert_ne!(second.hash, first.hash);
    match add_record(&mut store, &second) {
        Err(DataBaseErrorType::Existed(existing)) => assert_eq!(existing, first),
        _ => panic!("a taken short code must be reported"),
    }
    assert_eq!(query_record(&store, first.short.clone()).unwrap(), first);
    assert!(is_not_found(query_record(&store, second.uuid.to_text())));
}

#[test]
fn alias_and_identifier_lead_to_the_same_record() {
    let mut store = open_store();
    let created =
        create_record(&mut store, text("with alias"), Some(String::from("x")), None).unwrap();
    let by_alias = query_record(&store, String::from("x")).unwrap();
    let by_id = query_record(&store, created.uuid.to_text()).unwrap();
    let by_short = query_record(&store, created.short.clone()).unwrap();
    assert_eq!(by_alias, created);
    assert_eq!(by_id, created);
    assert_eq!(by_short, created);
}

#[test]
fn keys_resolve_in_their_key_spaces() {
    let mut store = open_store();
    let created =
        create_record(&mut store, text("resolve me"), Some(String::from("alias")), None).unwrap();
    assert_eq!(search_key_in_db(&store, created.short.as_bytes()).unwrap(), TreeNames::ShortNameTree);
    assert_eq!(search_key_in_db(&store, b"alias").unwrap(), TreeNames::CustomNameTree);
    let literal = created.uuid.to_text();
    assert_eq!(search_key_in_db(&store, literal.as_bytes()).unwrap(), TreeNames::DataTree);
    let upper = literal.to_uppercase();
    assert_eq!(search_key_in_db(&store, upper.as_bytes()).unwrap(), TreeNames::DataTree);
    assert_eq!(get_data_in_db(&store, upper.as_bytes()).unwrap(), created);
    assert!(is_not_found(search_key_in_db(&store, b"nothing")));
    assert!(is_not_found(search_key_in_db(&store, &[0xff, 0xfe])));
    assert!(is_not_found(search_key_in_db(&store, &created.uuid.bytes)));
    let unused = RecordId { bytes: [0x11; 16] }.to_text();
    assert!(is_not_found(search_key_in_db(&store, unused.as_bytes())));
    assert!(is_not_found(get_data_in_db(&store, b"nothing")));
}

#[test]
fn short_codes_come_before_aliases() {
    let mut store = open_store();
    let first = create_record(&mut store, text("payload one"), None, None).unwrap();
    // an alias spelled like the short code of the first record is taken
    match create_record(&mut store, text("payload two"), Some(first.short.clone()), None) {
        Err(DataBaseErrorType::Existed(existing)) => assert_eq!(existing, first),
        _ => panic!("an alias that is a short code in use must be reported"),
    }
    assert_eq!(
        search_key_in_db(&store, first.short.as_bytes()).unwrap(),
        TreeNames::ShortNameTree
    );
}

#[test]
fn taken_alias_is_reported_with_its_record() {
    let mut store = open_store();
    let first = create_record(&mut store, text("one"), Some(String::from("mine")), None).unwrap();
    match create_record(&mut store, text("two"), Some(String::from("mine")), None) {
        Err(DataBaseErrorType::Existed(existing)) => assert_eq!(existing, first),
        _ => panic!("a taken alias must be reported"),
    }
    assert!(is_not_found(query_record(&store, short_code(b"two").unwrap())));
}

#[test]
fn taken_identifier_is_reported_with_its_record() {
    let mut store = open_store();
    let id = RecordId { bytes: [0x42; 16] };
    let first = create_record_with_id(&mut store, id, text("one"), None, None).unwrap();
    assert_eq!(first.uuid, id);
    match create_record_with_id(&mut store, id, text("two"), None, None) {
        Err(DataBaseErrorType::Existed(existing)) => assert_eq!(existing, first),
        _ => panic!("an identifier in use must be reported"),
    }
    assert_eq!(query_record(&store, id.to_text()).unwrap(), first);
}

#[test]
fn alias_that_is_the_literal_of_a_stored_identifier_is_taken() {
    let mut store = open_store();
    let first = create_record(&mut store, text("one"), None, None).unwrap();
    match create_record(&mut store, text("two"), Some(first.uuid.to_text()), None) {
        Err(DataBaseErrorType::Existed(existing)) => assert_eq!(existing, first),
        _ => panic!("the literal of a stored identifier is no free alias"),
    }
}

#[test]
fn deleted_record_is_unreachable() {
    let mut store = open_store();
    let created =
        create_record(&mut store, text("to delete"), Some(String::from("gone")), None).unwrap();
    let other = create_record(&mut store, text("to stay"), Some(String::from("stay")), None).unwrap();
    assert!(delete_record(&mut store, created.uuid).is_ok());
    assert!(is_not_found(query_record(&store, created.uuid.to_text())));
    assert!(is_not_found(query_record(&store, created.short.clone())));
    assert!(is_not_found(query_record(&store, String::from("gone"))));
    assert!(matches!(read_record(&mut store, "gone"), Ok(ReadOutcome::NotFound)));
    assert_eq!(query_record(&store, String::from("stay")).unwrap(), other);
    assert_eq!(query_record(&store, other.short.clone()).unwrap(), other);
    // the keys are free again
    let again =
        create_record(&mut store, text("to delete"), Some(String::from("gone")), None).unwrap();
    assert_eq!(again.short, created.short);
    assert_ne!(again.uuid, created.uuid);
}

#[test]
fn delete_of_an_unknown_identifier() {
    let mut store = open_store();
    let created = create_record(&mut store, text("here"), None, None).unwrap();
    assert!(is_not_found(delete_record(&mut store, RecordId { bytes: [9; 16] })));
    assert_eq!(query_record(&store, created.short.clone()).unwrap(), created);
    assert!(delete_record(&mut store, created.uuid).is_ok());
    assert!(is_not_found(delete_record(&mut store, created.uuid)));
}

#[test]
fn expired_record_is_removed_by_the_first_read() {
    let mut store = open_store();
    let now = noon();
    let past = Timestamp { secs: now.secs - 1, nanos: 0 };
    let created =
        create_record(&mut store, text("short lived"), Some(String::from("old")), Some(past))
            .unwrap();
    assert_eq!(created.destroy_time, Some(past));
    match read_record_at(&mut store, "old", now) {
        Ok(ReadOutcome::Expired { removed }) => assert!(removed),
        _ => panic!("the first read must report the expiry"),
    }
    assert!(matches!(read_record_at(&mut store, "old", now), Ok(ReadOutcome::NotFound)));
    assert!(matches!(read_record_at(&mut store, &created.short, now), Ok(ReadOutcome::NotFound)));
    assert!(matches!(
        read_record_at(&mut store, &created.uuid.to_text(), now),
        Ok(ReadOutcome::NotFound)
    ));
    assert!(is_not_found(query_record(&store, String::from("old"))));
}

#[test]
fn record_is_found_until_its_destroy_time_has_passed() {
    let mut store = open_store();
    let at = noon();
    let created = create_record(&mut store, text("for a while"), None, Some(at)).unwrap();
    let before = Timestamp { secs: at.secs - 1, nanos: 999_999_999 };
    match read_record_at(&mut store, &created.short, before) {
        Ok(ReadOutcome::Found(found)) => assert_eq!(found, created),
        _ => panic!("the record has not expired yet"),
    }
    // at the destroy time itself the record is still given out
    match read_record_at(&mut store, &created.short, at) {
        Ok(ReadOutcome::Found(found)) => assert_eq!(found, created),
        _ => panic!("the record has not expired yet"),
    }
    let after = Timestamp { secs: at.secs, nanos: 1 };
    assert!(created.is_expired(after));
    assert!(!created.is_expired(at));
    assert!(matches!(
        read_record_at(&mut store, &created.short, after),
        Ok(ReadOutcome::Expired { removed: true })
    ));
    assert!(matches!(
        read_record_at(&mut store, &created.short, after),
        Ok(ReadOutcome::NotFound)
    ));
}

#[test]
fn read_at_the_current_time() {
    let mut store = open_store();
    let long_ago = Timestamp { secs: 1, nanos: 0 };
    let far_ahead = Timestamp { secs: i64::MAX, nanos: 0 };
    let old = create_record(&mut store, text("old"), None, Some(long_ago)).unwrap();
    let young = create_record(&mut store, text("young"), None, Some(far_ahead)).unwrap();
    let timeless = create_record(&mut store, text("timeless"), None, None).unwrap();
    assert!(matches!(
        read_record(&mut store, &old.short),
        Ok(ReadOutcome::Expired { removed: true })
    ));
    assert!(matches!(read_record(&mut store, &old.short), Ok(ReadOutcome::NotFound)));
    match read_record(&mut store, &young.short) {
        Ok(ReadOutcome::Found(found)) => assert_eq!(found, young),
        _ => panic!("the record has not expired yet"),
    }
    match read_record(&mut store, &timeless.short) {
        Ok(ReadOutcome::Found(found)) => assert_eq!(found, timeless),
        _ => panic!("a record without a destroy time does not expire"),
    }
    assert!(matches!(read_record(&mut store, "none"), Ok(ReadOutcome::NotFound)));
}

#[test]
fn update_changes_content_and_keeps_addresses() {
    let mut store = open_store();
    let when = Some(Timestamp { secs: i64::MAX, nanos: 0 });
    let created =
        create_record(&mut store, text("before"), Some(String::from("doc")), when).unwrap();
    let updated = update_record(&mut store, created.uuid, text("after")).unwrap();
    assert_eq!(updated.data, text("after"));
    assert_eq!(updated.hash, content_hash(b"after"));
    assert_ne!(updated.hash, created.hash);
    assert_eq!(updated.short, created.short);
    assert_eq!(updated.custom_url, created.custom_url);
    assert_eq!(updated.uuid, created.uuid);
    assert_eq!(updated.destroy_time, created.destroy_time);
    assert_eq!(query_record(&store, String::from("doc")).unwrap(), updated);
    assert_eq!(query_record(&store, created.short.clone()).unwrap(), updated);
    assert_eq!(query_record(&store, created.uuid.to_text()).unwrap(), updated);
    // the short code of the new content was not claimed
    assert!(is_not_found(query_record(&store, short_code(b"after").unwrap())));
}

#[test]
fn update_may_change_the_kind_of_payload() {
    let mut store = open_store();
    let created = create_record(&mut store, text("text"), None, None).unwrap();
    let updated = update_record(&mut store, created.uuid, DataType::Binary(vec![0xff])).unwrap();
    assert_eq!(updated.data, DataType::Binary(vec![0xff]));
    assert_eq!(updated.hash, content_hash(&[0xff]));
    assert_eq!(query_record(&store, created.short.clone()).unwrap(), updated);
}

#[test]
fn update_of_an_unknown_identifier() {
    let mut store = open_store();
    let created = create_record(&mut store, text("mine"), None, None).unwrap();
    assert!(is_not_found(update_record(&mut store, RecordId { bytes: [1; 16] }, text("x"))));
    assert_eq!(query_record(&store, created.short.clone()).unwrap(), created);
}

#[test]
fn update_goes_by_the_identifier_alone() {
    let mut store = open_store();
    let target = create_record(&mut store, text("target"), None, None).unwrap();
    // another record whose alias is the literal of an identifier not in use
    let unused = RecordId { bytes: [0x77; 16] };
    let other =
        create_record(&mut store, text("other"), Some(unused.to_text()), None).unwrap();
    assert!(is_not_found(update_record(&mut store, unused, text("changed"))));
    assert_eq!(query_record(&store, unused.to_text()).unwrap(), other);
    assert_eq!(query_record(&store, target.short.clone()).unwrap(), target);
}

#[test]
fn stores_are_separate() {
    let mut one = open_store();
    let two = open_store();
    let created = create_record(&mut one, text("only in one"), None, None).unwrap();
    assert_eq!(query_record(&one, created.short.clone()).unwrap(), created);
    assert!(is_not_found(query_record(&two, created.short.clone())));
}

#[test]
fn store_opened_again_on_its_database_has_its_records() {
    let db = sled::Config::new().temporary(true).open().unwrap();
    let created = {
        let mut first = DataTrees::new(db.clone()).unwrap();
        create_record(&mut first, text("kept"), Some(String::from("k")), None).unwrap()
    };
    let second = DataTrees::new(db).unwrap();
    assert_eq!(query_record(&second, String::from("k")).unwrap(), created);
    assert_eq!(query_record(&second, created.uuid.to_text()).unwrap(), created);
}

#[test]
fn alias_spelled_as_another_identifier_leads_there_once_it_is_free() {
    let mut store = open_store();
    let id = RecordId { bytes: [0xab; 16] };
    let upper = id.to_text().to_uppercase();
    let first = create_record(&mut store, text("first"), Some(upper.clone()), None).unwrap();
    let second = create_record_with_id(&mut store, id, text("second"), None, None).unwrap();
    assert_eq!(query_record(&store, upper.clone()).unwrap(), first);
    assert_eq!(query_record(&store, id.to_text()).unwrap(), second);
    assert!(delete_record(&mut store, first.uuid).is_ok());
    assert!(is_not_found(query_record(&store, first.short.clone())));
    assert!(is_not_found(query_record(&store, first.uuid.to_text())));
    // the alias is gone, and what was its spelling now reads as an identifier
    assert_eq!(query_record(&store, upper).unwrap(), second);
}

#[test]
fn many_records_stay_apart() {
    let mut store = open_store();
    let mut created: Vec<DataBaseItem> = Vec::new();
    for i in 0..40 {
        let payload = format!("payload number {}", i);
        let alias = format!("alias-{}", i);
        match create_record(&mut store, text(&payload), Some(alias), None) {
            Ok(item) => created.push(item),
            Err(DataBaseErrorType::Existed(existing)) => {
                // two payloads may share a short code: the first one stays
                assert_eq!(existing.short, short_code(payload.as_bytes()).unwrap());
            },
            Err(_) => panic!("the engine refused a write"),
        }
    }
    assert!(created.len() > 30);
    for item in created.iter() {
        assert_eq!(&query_record(&store, item.short.clone()).unwrap(), item);
        assert_eq!(&query_record(&store, item.custom_url.clone().unwrap()).unwrap(), item);
        assert_eq!(&query_record(&store, item.uuid.to_text()).unwrap(), item);
    }
}

#[test]
fn store_on_a_compressed_database() {
    let db = sled::Config::new().temporary(true).use_compression(true).open().unwrap();
    let mut store = DataTrees::new(db).unwrap();
    let payload = DataType::Binary(vec![7; 100_000]);
    let created = create_record(&mut store, payload, Some(String::from("big")), None).unwrap();
    assert_eq!(query_record(&store, String::from("big")).unwrap(), created);
    assert!(delete_record(&mut store, created.uuid).is_ok());
    assert!(is_not_found(query_record(&store, String::from("big"))));
}

#[test]
fn store_over_open_key_spaces() {
    let db = sled::Config::new().temporary(true).open().unwrap();
    let records = db.open_tree([0u8]).unwrap();
    let shorts = db.open_tree([1u8]).unwrap();
    let aliases = db.open_tree([2u8]).unwrap();
    let created = {
        let mut store = DataTrees::from_trees(records, shorts, aliases).unwrap();
        create_record(&mut store, text("kept"), Some(String::from("k")), None).unwrap()
    };
    // the store opened by name finds what was written to the three key spaces
    let store = DataTrees::new(db).unwrap();
    assert_eq!(query_record(&store, String::from("k")).unwrap(), created);
    assert_eq!(query_record(&store, created.short.clone()).unwrap(), created);
}

#[test]
fn new_records_get_random_identifiers() {
    let mut store = open_store();
    let created = create_record(&mut store, text("random"), None, None).unwrap();
    assert_eq!(created.uuid.bytes[6] & 0xf0, 0x40);
    assert_eq!(created.uuid.bytes[8] & 0xc0, 0x80);
    let item = DataBaseItem::try_new(text("other"), None, None).unwrap();
    assert_eq!(item.uuid.bytes[6] & 0xf0, 0x40);
    assert_eq!(item.uuid.bytes[8] & 0xc0, 0x80);
    assert_ne!(item.uuid, created.uuid);
}

#[test]
fn one_key_space_is_no_store() {
    let db = sled::Config::new().temporary(true).open().unwrap();
    let one = db.open_tree([0u8]).unwrap();
    let other = db.open_tree([1u8]).unwrap();
    assert!(matches!(
        DataTrees::from_trees(one.clone(), one.clone(), one.clone()),
        Err(DataBaseErrorType::Failed)
    ));
    assert!(matches!(
        DataTrees::from_trees(one.clone(), other.clone(), one.clone()),
        Err(DataBaseErrorType::Failed)
    ));
    assert!(matches!(
        DataTrees::from_trees(one.clone(), one.clone(), other.clone()),
        Err(DataBaseErrorType::Failed)
    ));
    assert!(matches!(
        DataTrees::from_trees(other.clone(), one.clone(), one.clone()),
        Err(DataBaseErrorType::Failed)
    ));
    // the same name opened again is the same key space
    let again = db.open_tree([0u8]).unwrap();
    assert!(matches!(
        DataTrees::from_trees(one.clone(), other.clone(), again),
        Err(DataBaseErrorType::Failed)
    ));
    let third = db.open_tree([2u8]).unwrap();
    assert!(DataTrees::from_trees(one, other, third).is_ok());
}

#[test]
fn query_gives_a_record_past_its_destroy_time() {
    let mut store = open_store();
    let long_ago = Timestamp { secs: 1, nanos: 0 };
    let created = create_record(&mut store, text("old"), None, Some(long_ago)).unwrap();
    assert_eq!(query_record(&store, created.short.clone()).unwrap(), created);
    assert!(matches!(
        read_record(&mut store, &created.short),
        Ok(ReadOutcome::Expired { removed: true })
    ));
    assert!(is_not_found(query_record(&store, created.short.clone())));
}
