//! The model of the store: what its three key spaces hold, which record a
//! key leads to, and what the store holds after a record is added, removed
//! or rewritten.

use crate::codec::{decoded, encoded};
use crate::engine::{entries_between, same_at};
use crate::id::{id_text, uuid_literal};
use crate::model::{ItemView, TreeNames};
use vstd::prelude::*;
use vstd::utf8::*;

verus! {

/// What the store holds, as three maps: the records in their stored form
/// under their identifiers, and the identifier that each short code and
/// each alias leads to. Keys and values are bytes.
pub struct StoreView {
    pub data: Map<Seq<u8>, Seq<u8>>,
    pub short: Map<Seq<u8>, Seq<u8>>,
    pub custom: Map<Seq<u8>, Seq<u8>>,
}

/// The key that a text is looked up and stored under: its UTF-8 bytes.
pub open spec fn text_key(text: Seq<char>) -> Seq<u8> {
    encode_utf8(text)
}

/// The key under which a record is looked up by its identifier: the
/// identifier's literal.
pub open spec fn id_key(id: Seq<u8>) -> Seq<u8> {
    text_key(id_text(id))
}

/// The identifier that a key is a literal of, if it is one.
pub open spec fn id_of_key(key: Seq<u8>) -> Option<Seq<u8>> {
    if valid_utf8(key) {
        uuid_literal(decode_utf8(key))
    } else {
        None
    }
}

impl StoreView {
    /// The key space that a key belongs to: the short codes first, then the
    /// aliases, then, for the literal of an identifier, the records.
    pub open spec fn resolve(self, key: Seq<u8>) -> Option<TreeNames> {
        if self.short.contains_key(key) {
            Some(TreeNames::ShortNameTree)
        } else if self.custom.contains_key(key) {
            Some(TreeNames::CustomNameTree)
        } else if id_of_key(key) matches Some(id) && self.data.contains_key(id) {
            Some(TreeNames::DataTree)
        } else {
            None
        }
    }

    /// The identifier that a key leads to.
    pub open spec fn target(self, key: Seq<u8>) -> Option<Seq<u8>> {
        match self.resolve(key) {
            Some(TreeNames::ShortNameTree) => Some(self.short[key]),
            Some(TreeNames::CustomNameTree) => Some(self.custom[key]),
            Some(TreeNames::DataTree) => id_of_key(key),
            None => None,
        }
    }

    /// The record stored under an identifier.
    pub open spec fn record_at(self, id: Seq<u8>) -> Option<ItemView> {
        if self.data.contains_key(id) {
            decoded(self.data[id])
        } else {
            None
        }
    }

    /// The record that a key leads to.
    pub open spec fn lookup(self, key: Seq<u8>) -> Option<ItemView> {
        match self.target(key) {
            Some(id) => self.record_at(id),
            None => None,
        }
    }

    /// The first key of a record that is taken in the store already: the
    /// literal of its identifier, its short code and its alias are tried in
    /// that order.
    pub open spec fn conflict_key(self, rec: ItemView) -> Option<Seq<u8>> {
        if self.resolve(id_key(rec.uuid)) is Some {
            Some(id_key(rec.uuid))
        } else if self.resolve(text_key(rec.short)) is Some {
            Some(text_key(rec.short))
        } else if rec.custom_url matches Some(a) && self.resolve(text_key(a)) is Some {
            Some(text_key(rec.custom_url->0))
        } else {
            None
        }
    }

    /// The store with a record added: the record under its identifier, and
    /// its short code and its alias leading to that identifier.
    pub open spec fn with_record(self, rec: ItemView) -> StoreView {
        StoreView {
            data: self.data.insert(rec.uuid, encoded(rec)),
            short: self.short.insert(text_key(rec.short), rec.uuid),
            custom: match rec.custom_url {
                Some(a) => self.custom.insert(text_key(a), rec.uuid),
                None => self.custom,
            },
        }
    }

    /// The store without what stands under an identifier and without the
    /// short code and the alias of the given record.
    pub open spec fn without_record(self, id: Seq<u8>, rec: ItemView) -> StoreView {
        StoreView {
            data: self.data.remove(id),
            short: self.short.remove(text_key(rec.short)),
            custom: match rec.custom_url {
                Some(a) => self.custom.remove(text_key(a)),
                None => self.custom,
            },
        }
    }

    /// Whether the store lies between two states: each of its key spaces
    /// holds under every key what it holds there in the one or in the
    /// other. Such is the store after some of the writes that lead from the
    /// one to the other.
    pub open spec fn between(self, before: StoreView, after: StoreView) -> bool {
        &&& entries_between(self.data, before.data, after.data)
        &&& entries_between(self.short, before.short, after.short)
        &&& entries_between(self.custom, before.custom, after.custom)
    }

    /// The store with the given record written under an identifier; short
    /// codes and aliases stay.
    pub open spec fn with_rewritten(self, id: Seq<u8>, rec: ItemView) -> StoreView {
        StoreView { data: self.data.insert(id, encoded(rec)), ..self }
    }
}

/// A store lies between itself and any other state.
pub proof fn lemma_between_unchanged(s: StoreView, after: StoreView)
    ensures
        s.between(s, after),
{
    assert forall|key: Seq<u8>| #[trigger] same_at(s.data, s.data, key) || same_at(s.data, after.data, key) by {}
    assert forall|key: Seq<u8>| #[trigger] same_at(s.short, s.short, key) || same_at(s.short, after.short, key) by {}
    assert forall|key: Seq<u8>| #[trigger] same_at(s.custom, s.custom, key) || same_at(s.custom, after.custom, key) by {}
}

/// A key space that lies between a state and the same state is in that
/// state.
pub proof fn lemma_between_same(now: Map<Seq<u8>, Seq<u8>>, state: Map<Seq<u8>, Seq<u8>>)
    requires
        entries_between(now, state, state),
    ensures
        now == state,
{
    assert forall|key: Seq<u8>| same_at(now, state, key) by {
        assert(same_at(now, state, key) || same_at(now, state, key));
    }
    assert forall|key: Seq<u8>| now.contains_key(key) == state.contains_key(key) by {
        assert(same_at(now, state, key));
    }
    assert forall|key: Seq<u8>| now.contains_key(key) implies now[key] == state[key] by {
        assert(same_at(now, state, key));
    }
    assert(now =~= state);
}

} // verus!
