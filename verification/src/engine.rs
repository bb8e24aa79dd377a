//! The key-value engine, sled, as the library sees it: a key space is a map
//! from keys to values, a batch a set of writes, and a transaction applies
//! one batch to each of three key spaces or fails.
//!
//! Nothing in this file is proved of sled: each function marked
//! `external_body` states what sled's source shows of the call it makes. The
//! statements are those of a key space that is written through one handle
//! alone: sled shares a key space between all the handles opened under one
//! name, and a write through another handle is a change that these contracts
//! do not see. A transaction therefore asks for key spaces of different
//! names.

use vstd::prelude::*;

verus! {

#[verifier::external_type_specification]
#[verifier::external_body]
pub struct ExDb(sled::Db);

#[verifier::external_type_specification]
#[verifier::external_body]
pub struct ExTree(sled::Tree);

#[verifier::external_type_specification]
#[verifier::external_body]
pub struct ExBatch(sled::Batch);

#[verifier::external_type_specification]
#[verifier::external_body]
pub struct ExTransactionalTree(sled::transaction::TransactionalTree);

#[verifier::external_type_specification]
#[verifier::external_body]
#[verifier::reject_recursive_types(T)]
pub struct ExConflictable<T>(sled::transaction::ConflictableTransactionError<T>);

/// The entries that a key space of the engine holds: each key with its value.
pub uninterp spec fn tree_entries(t: sled::Tree) -> Map<Seq<u8>, Seq<u8>>;

/// The name under which a key space was opened.
pub uninterp spec fn tree_name(t: sled::Tree) -> Seq<u8>;

/// The writes that a batch has collected: each key with the value to set, or
/// `None` where the key is to be removed.
pub uninterp spec fn batch_writes(b: sled::Batch) -> Map<Seq<u8>, Option<Seq<u8>>>;

/// A batch's writes before any was added.
pub open spec fn no_writes() -> Map<Seq<u8>, Option<Seq<u8>>> {
    Map::empty()
}

/// `sled::Db::open_tree`: opens, or creates, the key space of that name.
/// The key space bears the name; nothing is claimed of what it holds.
/// `None` stands for an error of the engine.
#[verifier::external_body]
pub(crate) fn open_tree(db: &sled::Db, name: &[u8]) -> (r: Option<sled::Tree>)
    ensures
        r matches Some(t) ==> tree_name(t) == name@,
{
    db.open_tree(name).ok()
}

/// `sled::Tree::name`: the name under which the key space was opened.
#[verifier::external_body]
pub(crate) fn tree_name_of(t: &sled::Tree) -> (name: Vec<u8>)
    ensures
        name@ == tree_name(*t),
{
    t.name().to_vec()
}

/// `sled::Tree::contains_key`: whether the key space has an entry under the
/// key. `None` stands for an error of the engine.
#[verifier::external_body]
pub(crate) fn tree_contains_key(t: &sled::Tree, key: &[u8]) -> (r: Option<bool>)
    ensures
        r matches Some(b) ==> b == tree_entries(*t).contains_key(key@),
{
    t.contains_key(key).ok()
}

/// `sled::Tree::get`: the value under the key, if the key space has one.
/// The outer `None` stands for an error of the engine.
#[verifier::external_body]
pub(crate) fn tree_get(t: &sled::Tree, key: &[u8]) -> (r: Option<Option<Vec<u8>>>)
    ensures
        r matches Some(Some(v)) ==> tree_entries(*t).contains_key(key@) && tree_entries(
            *t,
        )[key@] == v@,
        r matches Some(None) ==> !tree_entries(*t).contains_key(key@),
{
    t.get(key).ok().map(|found| found.map(|v| v.to_vec()))
}

/// `sled::Batch::default`: a batch without writes.
#[verifier::external_body]
pub(crate) fn batch_new() -> (b: sled::Batch)
    ensures
        batch_writes(b) == no_writes(),
{
    sled::Batch::default()
}

/// `sled::Batch::insert`: the batch sets the key to the value, in place of
/// any write it held for that key.
#[verifier::external_body]
pub(crate) fn batch_insert(b: &mut sled::Batch, key: &[u8], value: &[u8])
    ensures
        batch_writes(*final(b)) == batch_writes(*old(b)).insert(key@, Some(value@)),
{
    b.insert(key, value)
}

/// `sled::Batch::remove`: the batch removes the key, in place of any write
/// it held for that key.
#[verifier::external_body]
pub(crate) fn batch_remove(b: &mut sled::Batch, key: &[u8])
    ensures
        batch_writes(*final(b)) == batch_writes(*old(b)).insert(key@, None),
{
    b.remove(key)
}

/// What a key space holds once the writes of a batch are applied to it.
pub open spec fn apply_writes(
    entries: Map<Seq<u8>, Seq<u8>>,
    writes: Map<Seq<u8>, Option<Seq<u8>>>,
) -> Map<Seq<u8>, Seq<u8>> {
    Map::new(
        |k: Seq<u8>|
            if writes.contains_key(k) {
                writes[k] is Some
            } else {
                entries.contains_key(k)
            },
        |k: Seq<u8>|
            if writes.contains_key(k) {
                writes[k]->0
            } else {
                entries[k]
            },
    )
}

/// Whether two key spaces agree under a key: both have no entry there, or
/// both have the same.
pub open spec fn same_at(a: Map<Seq<u8>, Seq<u8>>, b: Map<Seq<u8>, Seq<u8>>, key: Seq<u8>) -> bool {
    a.contains_key(key) == b.contains_key(key) && (a.contains_key(key) ==> a[key] == b[key])
}

/// Whether a key space lies between two states: under every key it holds
/// what the one or what the other holds there. Such is a key space to which
/// some of the writes that lead from the one to the other were applied.
pub open spec fn entries_between(
    now: Map<Seq<u8>, Seq<u8>>,
    before: Map<Seq<u8>, Seq<u8>>,
    after: Map<Seq<u8>, Seq<u8>>,
) -> bool {
    forall|key: Seq<u8>| #[trigger] same_at(now, before, key) || same_at(now, after, key)
}

/// `sled::transaction::TransactionalTree::apply_batch`: stages the writes of
/// the batch in the running transaction. Nothing is claimed of the result.
#[verifier::external_body]
fn stage_batch(t: &sled::transaction::TransactionalTree, b: &sled::Batch) -> (r: Result<
    (),
    sled::transaction::ConflictableTransactionError<()>,
>) {
    t.apply_batch(b).map_err(sled::transaction::ConflictableTransactionError::from)
}

/// Stages one batch for each of three key spaces, in that order, and stops at
/// the first that the engine refuses.
fn stage_three(
    first: &sled::transaction::TransactionalTree,
    second: &sled::transaction::TransactionalTree,
    third: &sled::transaction::TransactionalTree,
    first_writes: &sled::Batch,
    second_writes: &sled::Batch,
    third_writes: &sled::Batch,
) -> (r: Result<(), sled::transaction::ConflictableTransactionError<()>>) {
    match stage_batch(first, first_writes) {
        Err(e) => { return Err(e); },
        Ok(_) => {},
    }
    match stage_batch(second, second_writes) {
        Err(e) => { return Err(e); },
        Ok(_) => {},
    }
    stage_batch(third, third_writes)
}

/// `sled::transaction::Transactional::transaction` on three key spaces of
/// different names: runs the staging of one batch for each of them as one
/// transaction. Where it returns `true` the engine has committed all the
/// writes, and each key space holds what it held with its batch applied.
/// Where it returns `false` the writes may have been applied in part: the
/// engine applies them key by key, key space after key space, and may stop
/// at an error of its storage. Whatever it returns, a key space holds under
/// every key what it held there before or what its batch writes there, and
/// the key spaces keep their names.
#[verifier::external_body]
pub(crate) fn commit_three(
    first: &mut sled::Tree,
    second: &mut sled::Tree,
    third: &mut sled::Tree,
    first_writes: &sled::Batch,
    second_writes: &sled::Batch,
    third_writes: &sled::Batch,
) -> (ok: bool)
    requires
        tree_name(*old(first)) != tree_name(*old(second)),
        tree_name(*old(first)) != tree_name(*old(third)),
        tree_name(*old(second)) != tree_name(*old(third)),
    ensures
        tree_name(*final(first)) == tree_name(*old(first)),
        tree_name(*final(second)) == tree_name(*old(second)),
        tree_name(*final(third)) == tree_name(*old(third)),
        entries_between(
            tree_entries(*final(first)),
            tree_entries(*old(first)),
            apply_writes(tree_entries(*old(first)), batch_writes(*first_writes)),
        ),
        entries_between(
            tree_entries(*final(second)),
            tree_entries(*old(second)),
            apply_writes(tree_entries(*old(second)), batch_writes(*second_writes)),
        ),
        entries_between(
            tree_entries(*final(third)),
            tree_entries(*old(third)),
            apply_writes(tree_entries(*old(third)), batch_writes(*third_writes)),
        ),
        ok ==> tree_entries(*final(first)) == apply_writes(
            tree_entries(*old(first)),
            batch_writes(*first_writes),
        ),
        ok ==> tree_entries(*final(second)) == apply_writes(
            tree_entries(*old(second)),
            batch_writes(*second_writes),
        ),
        ok ==> tree_entries(*final(third)) == apply_writes(
            tree_entries(*old(third)),
            batch_writes(*third_writes),
        ),
{
    sled::Transactional::transaction(
        &(&*first, &*second, &*third),
        |(a, b, c)| stage_three(a, b, c, first_writes, second_writes, third_writes),
    ).is_ok()
}

} // verus!
