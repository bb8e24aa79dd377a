//! What the operations of the store keep true of its three key spaces, and
//! what follows for the keys of a record that is created, updated, deleted
//! or expired. Everything here is stated over the model `StoreView` and
//! proved.

use crate::address::content_hash_of;
use crate::clock::Timestamp;
use crate::codec::{decoded, lemma_decode_encoded, storable};
use crate::model::{ItemView, PayloadView};
use crate::state::{id_key, id_of_key, text_key, StoreView};
use vstd::prelude::*;

verus! {

/// Whether a record can be kept in the store: it can be stored, and the
/// literal of its identifier reads back as the identifier.
pub open spec fn well_formed(rec: ItemView) -> bool {
    storable(rec) && id_of_key(id_key(rec.uuid)) == Some(rec.uuid)
}

impl StoreView {
    /// What holds of an identifier with an entry among the records: the
    /// entry is a well-formed record with that identifier, its short code
    /// and its alias lead to it, and so does the literal of the identifier
    /// where it is a short code or an alias at all.
    pub open spec fn record_ok(self, id: Seq<u8>) -> bool {
        let rec = decoded(self.data[id]);
        &&& rec is Some
        &&& rec->0.uuid == id
        &&& well_formed(rec->0)
        &&& self.short.contains_key(text_key(rec->0.short))
        &&& self.short[text_key(rec->0.short)] == id
        &&& rec->0.custom_url is Some ==> self.custom.contains_key(text_key(rec->0.custom_url->0))
            && self.custom[text_key(rec->0.custom_url->0)] == id
        &&& self.short.contains_key(id_key(id)) ==> self.short[id_key(id)] == id
        &&& self.custom.contains_key(id_key(id)) ==> self.custom[id_key(id)] == id
    }

    /// What holds of a short code with an entry: it leads to a record with
    /// that short code, and an alias that is spelled the same leads to the
    /// same record.
    pub open spec fn short_ok(self, key: Seq<u8>) -> bool {
        let rec = decoded(self.data[self.short[key]]);
        &&& self.data.contains_key(self.short[key])
        &&& rec is Some
        &&& text_key(rec->0.short) == key
        &&& self.custom.contains_key(key) ==> self.custom[key] == self.short[key]
    }

    /// What holds of an alias with an entry: it leads to a record with that
    /// alias.
    pub open spec fn custom_ok(self, key: Seq<u8>) -> bool {
        let rec = decoded(self.data[self.custom[key]]);
        &&& self.data.contains_key(self.custom[key])
        &&& rec is Some
        &&& rec->0.custom_url is Some
        &&& text_key(rec->0.custom_url->0) == key
    }

    /// Whether the three key spaces are consistent: every entry of each is
    /// in order, so that they never disagree about the record that a short
    /// code, an alias or the literal of a stored identifier leads to.
    pub open spec fn consistent(self) -> bool {
        &&& forall|id: Seq<u8>| #[trigger] self.data.contains_key(id) ==> self.record_ok(id)
        &&& forall|key: Seq<u8>| #[trigger] self.short.contains_key(key) ==> self.short_ok(key)
        &&& forall|key: Seq<u8>| #[trigger] self.custom.contains_key(key) ==> self.custom_ok(key)
    }

    /// Whether a key is the literal of the identifier of a stored record
    /// other than the given one.
    pub open spec fn names_another(self, key: Seq<u8>, id: Seq<u8>) -> bool {
        id_of_key(key) is Some && id_of_key(key)->0 != id && self.data.contains_key(
            id_of_key(key)->0,
        )
    }
}

/// A store without entries.
pub open spec fn empty_store() -> StoreView {
    StoreView { data: Map::empty(), short: Map::empty(), custom: Map::empty() }
}

/// A store without entries is consistent, and no key leads anywhere in it.
pub proof fn lemma_empty_store(key: Seq<u8>)
    ensures
        empty_store().consistent(),
        empty_store().lookup(key) is None,
{
}

/// Creating a well-formed record none of whose keys is taken keeps the
/// store consistent, and afterwards the literal of its identifier, its
/// short code and its alias all lead to that record.
pub proof fn lemma_created_is_reachable(s: StoreView, rec: ItemView)
    requires
        s.consistent(),
        well_formed(rec),
        s.conflict_key(rec) is None,
    ensures
        s.with_record(rec).consistent(),
        s.with_record(rec).lookup(id_key(rec.uuid)) == Some(rec),
        s.with_record(rec).lookup(text_key(rec.short)) == Some(rec),
        rec.custom_url matches Some(a) ==> s.with_record(rec).lookup(text_key(a)) == Some(rec),
        forall|key: Seq<u8>| s.lookup(key) is Some ==> s.with_record(rec).lookup(key) == s.lookup(key),
{
    let t = s.with_record(rec);
    lemma_decode_encoded(rec);
    assert(!s.data.contains_key(rec.uuid));
    assert forall|id: Seq<u8>| #[trigger] t.data.contains_key(id) implies t.record_ok(id) by {
        if id != rec.uuid {
            assert(s.data.contains_key(id));
            assert(s.record_ok(id));
            assert(s.resolve(id_key(id)) is Some);
        }
    }
    assert forall|key: Seq<u8>| #[trigger] t.short.contains_key(key) implies t.short_ok(key) by {
        if key != text_key(rec.short) {
            assert(s.short.contains_key(key));
            assert(s.short_ok(key));
        }
    }
    assert forall|key: Seq<u8>| #[trigger] t.custom.contains_key(key) implies t.custom_ok(key) by {
        if s.custom.contains_key(key) {
            assert(s.custom_ok(key));
        }
    }
    assert forall|key: Seq<u8>| s.lookup(key) is Some implies t.lookup(key) == s.lookup(key) by {
        if s.short.contains_key(key) {
            assert(s.short_ok(key));
        } else if s.custom.contains_key(key) {
            assert(s.custom_ok(key));
        }
    }
}

/// A record whose short code is taken cannot be created: one of its keys
/// is in conflict, whatever its identifier and its alias are.
pub proof fn lemma_taken_short_code_conflicts(s: StoreView, rec: ItemView)
    requires
        s.short.contains_key(text_key(rec.short)),
    ensures
        s.conflict_key(rec) is Some,
{
}

/// After a record is created, a second record with the same short code, no
/// alias and an identifier that is not in use is in conflict on the short
/// code, and the short code leads to the first record.
pub proof fn lemma_second_create_conflicts(s: StoreView, first: ItemView, second: ItemView)
    requires
        s.consistent(),
        well_formed(first),
        s.conflict_key(first) is None,
        second.short == first.short,
        second.custom_url is None,
        s.with_record(first).resolve(id_key(second.uuid)) is None,
    ensures
        s.with_record(first).conflict_key(second) == Some(text_key(first.short)),
        s.with_record(first).lookup(text_key(first.short)) == Some(first),
{
    lemma_created_is_reachable(s, first);
}

/// Deleting a stored record keeps the store consistent, and afterwards the
/// literal of its identifier leads nowhere; neither does its short code nor
/// its alias, unless that key is the literal of the identifier of another
/// stored record. A key that led to another record still leads to it.
pub proof fn lemma_deleted_is_unreachable(s: StoreView, id: Seq<u8>)
    requires
        s.consistent(),
        s.record_at(id) is Some,
    ensures
        ({
            let rec = s.record_at(id)->0;
            let t = s.without_record(id, rec);
            &&& t.consistent()
            &&& t.lookup(id_key(id)) is None
            &&& !s.names_another(text_key(rec.short), id) ==> t.lookup(text_key(rec.short)) is None
            &&& rec.custom_url is Some && !s.names_another(text_key(rec.custom_url->0), id)
                ==> t.lookup(text_key(rec.custom_url->0)) is None
            &&& forall|key: Seq<u8>|
                s.target(key) is Some && s.target(key) != Some(id) ==> t.lookup(key) == s.lookup(
                    key,
                )
        }),
{
    let rec = s.record_at(id)->0;
    let t = s.without_record(id, rec);
    assert(s.record_ok(id));
    assert forall|key: Seq<u8>|
        s.target(key) is Some && s.target(key) != Some(id) implies t.lookup(key) == s.lookup(
        key,
    ) by {
        if s.short.contains_key(key) {
            assert(s.short_ok(key));
        } else if s.custom.contains_key(key) {
            assert(s.custom_ok(key));
        }
    }
    assert forall|other: Seq<u8>| #[trigger] t.data.contains_key(other) implies t.record_ok(
        other,
    ) by {
        assert(s.data.contains_key(other));
        assert(s.record_ok(other));
    }
    assert forall|key: Seq<u8>| #[trigger] t.short.contains_key(key) implies t.short_ok(key) by {
        assert(s.short.contains_key(key));
        assert(s.short_ok(key));
        if t.custom.contains_key(key) {
            assert(s.custom.contains_key(key));
        }
    }
    assert forall|key: Seq<u8>| #[trigger] t.custom.contains_key(key) implies t.custom_ok(key) by {
        assert(s.custom.contains_key(key));
        assert(s.custom_ok(key));
    }
    if s.short.contains_key(id_key(id)) {
        assert(s.short_ok(id_key(id)));
    }
    if s.custom.contains_key(id_key(id)) {
        assert(s.custom_ok(id_key(id)));
    }
    if s.custom.contains_key(text_key(rec.short)) {
        assert(s.short_ok(text_key(rec.short)));
        assert(s.custom_ok(text_key(rec.short)));
    }
    if rec.custom_url is Some && s.short.contains_key(text_key(rec.custom_url->0)) {
        assert(s.short_ok(text_key(rec.custom_url->0)));
    }
}

/// A key that leads to a record past its destroy time leads nowhere once
/// that record is removed, unless the key is the literal of the identifier
/// of another stored record; and the store stays consistent.
pub proof fn lemma_expired_then_not_found(s: StoreView, key: Seq<u8>, now: Timestamp)
    requires
        s.consistent(),
        s.lookup(key) is Some,
        (s.lookup(key)->0).expired_at(now),
        !s.names_another(key, (s.lookup(key)->0).uuid),
    ensures
        ({
            let rec = s.lookup(key)->0;
            &&& s.record_at(rec.uuid) == Some(rec)
            &&& s.without_record(rec.uuid, rec).consistent()
            &&& s.without_record(rec.uuid, rec).lookup(key) is None
        }),
{
    let rec = s.lookup(key)->0;
    let id = s.target(key)->0;
    assert(s.data.contains_key(id));
    assert(s.record_ok(id));
    lemma_deleted_is_unreachable(s, id);
    if s.short.contains_key(key) {
        assert(s.short_ok(key));
    } else if s.custom.contains_key(key) {
        assert(s.custom_ok(key));
    }
}

/// Replacing the payload of a stored record by one with which the record
/// can still be stored keeps the store consistent and
/// keeps short code, alias and destroy time; the content hash is that of the
/// new payload; every key that led to the record leads to the record with
/// the new payload, and every key that led to another record still does.
pub proof fn lemma_update_keeps_addresses(s: StoreView, id: Seq<u8>, payload: PayloadView)
    requires
        s.consistent(),
        s.record_at(id) is Some,
        storable((s.record_at(id)->0).with_payload(payload)),
    ensures
        ({
            let rec = s.record_at(id)->0;
            let new = rec.with_payload(payload);
            let t = s.with_rewritten(id, new);
            &&& t.consistent()
            &&& new.uuid == rec.uuid
            &&& new.short == rec.short
            &&& new.custom_url == rec.custom_url
            &&& new.destroy_time == rec.destroy_time
            &&& new.hash == content_hash_of(payload.bytes())
            &&& forall|key: Seq<u8>| s.target(key) == Some(id) ==> t.lookup(key) == Some(new)
            &&& forall|key: Seq<u8>| s.target(key) != Some(id) ==> t.lookup(key) == s.lookup(key)
        }),
{
    let rec = s.record_at(id)->0;
    let new = rec.with_payload(payload);
    let t = s.with_rewritten(id, new);
    assert(s.record_ok(id));
    lemma_decode_encoded(new);
    assert(t.data.dom() =~= s.data.dom());
    assert forall|other: Seq<u8>| #[trigger] t.data.contains_key(other) implies t.record_ok(
        other,
    ) by {
        assert(s.data.contains_key(other));
        assert(s.record_ok(other));
    }
    assert forall|key: Seq<u8>| #[trigger] t.short.contains_key(key) implies t.short_ok(key) by {
        assert(s.short_ok(key));
    }
    assert forall|key: Seq<u8>| #[trigger] t.custom.contains_key(key) implies t.custom_ok(key) by {
        assert(s.custom_ok(key));
    }
    assert forall|key: Seq<u8>| t.target(key) == s.target(key) by {
        assert(t.data.contains_key(id_of_key(key)->0) == s.data.contains_key(id_of_key(key)->0));
    }
    assert forall|key: Seq<u8>| s.target(key) == Some(id) implies t.lookup(key) == Some(new) by {
        assert(t.target(key) == s.target(key));
    }
    assert forall|key: Seq<u8>| s.target(key) != Some(id) implies t.lookup(key) == s.lookup(
        key,
    ) by {
        assert(t.target(key) == s.target(key));
    }
}

} // verus!
