//! What a request says of a record, read from plain values: the key and the
//! extension in the path of a request to view a record, and the status that
//! an upload is answered with.

use crate::model::{DataBaseErrorType, DataBaseItem, ItemView};
use crate::text::{lowercase, lowercase_of};
use vstd::prelude::*;
use vstd::string::*;

verus! {

/// How a request to view a record names it: the key to look the record up
/// by, and the extension that says how to show it.
#[derive(Debug, Clone, PartialEq, Eq)]
pub struct ViewKey {
    pub database_key: String,
    pub ext: String,
    pub has_ext: bool,
}

/// A view key as a mathematical value.
pub struct ViewKeyView {
    pub database_key: Seq<char>,
    pub ext: Seq<char>,
    pub has_ext: bool,
}

impl View for ViewKey {
    type V = ViewKeyView;

    open spec fn view(&self) -> ViewKeyView {
        ViewKeyView { database_key: self.database_key@, ext: self.ext@, has_ext: self.has_ext }
    }
}

/// The extension that a path without one is taken to have.
pub open spec fn default_ext() -> Seq<char> {
    seq!['t', 'x', 't']
}

/// The place of the first full stop in a text, or the length of the text
/// where it has none.
pub open spec fn first_dot(path: Seq<char>) -> int
    decreases path.len(),
{
    if path.len() == 0 || path[0] == '.' {
        0
    } else {
        1 + first_dot(path.drop_first())
    }
}

/// The place after the last full stop in a text, or 0 where it has none.
pub open spec fn after_last_dot(path: Seq<char>) -> int
    decreases path.len(),
{
    if path.len() == 0 {
        0
    } else if path.last() == '.' {
        path.len() as int
    } else {
        after_last_dot(path.drop_last())
    }
}

/// What a path says. A path with a full stop is split at its full stops:
/// the key is what stands before the first, as it is written, and the
/// extension what stands after the last. A path without one is the key, in
/// lower case, and the extension is `txt`.
pub open spec fn view_key_of(path: Seq<char>) -> ViewKeyView {
    if path.contains('.') {
        ViewKeyView {
            database_key: path.subrange(0, first_dot(path)),
            ext: path.subrange(after_last_dot(path), path.len() as int),
            has_ext: true,
        }
    } else {
        ViewKeyView { database_key: lowercase_of(path), ext: default_ext(), has_ext: false }
    }
}

/// The first full stop stands where `first_dot` says, and nowhere before.
proof fn lemma_first_dot(path: Seq<char>, i: int)
    requires
        0 <= i <= path.len(),
        forall|j: int| 0 <= j < i ==> path[j] != '.',
        i < path.len() ==> path[i] == '.',
    ensures
        first_dot(path) == i,
        path.contains('.') <==> i < path.len(),
    decreases i,
{
    if i > 0 {
        let tail = path.drop_first();
        assert forall|j: int| 0 <= j < i - 1 implies tail[j] != '.' by {
            assert(tail[j] == path[j + 1]);
        }
        lemma_first_dot(tail, i - 1);
    }
    if i < path.len() {
        assert(path[i] == '.');
    } else {
        assert(!path.contains('.'));
    }
}

/// The last full stop stands just before where `after_last_dot` says.
proof fn lemma_after_last_dot(path: Seq<char>, i: int)
    requires
        0 <= i <= path.len(),
        forall|j: int| i <= j < path.len() ==> path[j] != '.',
        i > 0 ==> path[i - 1] == '.',
    ensures
        after_last_dot(path) == i,
    decreases path.len() - i,
{
    if i < path.len() {
        let front = path.drop_last();
        assert forall|j: int| i <= j < front.len() implies front[j] != '.' by {
            assert(front[j] == path[j]);
        }
        if i > 0 {
            assert(front[i - 1] == path[i - 1]);
        }
        lemma_after_last_dot(front, i);
    }
}

/// Reads the path of a request to view a record.
pub fn split_view_key(path: &str) -> (r: ViewKey)
    ensures
        r@ == view_key_of(path@),
{
    let n = path.unicode_len();
    let mut first: usize = 0;
    while first < n && path.get_char(first) != '.'
        invariant
            first <= n,
            n == path@.len(),
            forall|j: int| 0 <= j < first ==> path@[j] != '.',
        decreases n - first,
    {
        first += 1;
    }
    proof {
        lemma_first_dot(path@, first as int);
    }
    if first == n {
        proof {
            reveal_strlit("txt");
            assert("txt"@ =~= default_ext());
        }
        return ViewKey {
            database_key: lowercase(path),
            ext: "txt".to_owned(),
            has_ext: false,
        };
    }
    let mut after: usize = n;
    while after > 0 && path.get_char(after - 1) != '.'
        invariant
            after <= n,
            n == path@.len(),
            forall|j: int| after <= j < n ==> path@[j] != '.',
        decreases after,
    {
        after -= 1;
    }
    proof {
        lemma_after_last_dot(path@, after as int);
    }
    ViewKey {
        database_key: path.substring_char(0, first).to_owned(),
        ext: path.substring_char(after, n).to_owned(),
        has_ext: true,
    }
}

/// How an upload ended.
#[derive(Debug, Clone, Copy, PartialEq, Eq)]
pub enum UploadStatus {
    Failed,
    Created,
    Existed,
}

impl UploadStatus {
    /// The word that an upload with this status is answered with.
    pub open spec fn word(self) -> Seq<char> {
        match self {
            UploadStatus::Created => "created"@,
            UploadStatus::Existed => "existed"@,
            UploadStatus::Failed => "failed"@,
        }
    }

    /// The word that an upload with this status is answered with:
    /// `created`, `existed` or `failed`.
    pub fn to_string(&self) -> (r: String)
        ensures
            r@ == self.word(),
    {
        match self {
            UploadStatus::Created => "created".to_owned(),
            UploadStatus::Existed => "existed".to_owned(),
            UploadStatus::Failed => "failed".to_owned(),
        }
    }
}

/// The status of an upload and the record to report for it, from what the
/// store said of the creation: the record that was to be created, or, where
/// one of its keys was taken, the record that holds it.
pub open spec fn report_of(
    result: Result<(), DataBaseErrorType>,
    item: ItemView,
) -> (UploadStatus, ItemView) {
    match result {
        Ok(_) => (UploadStatus::Created, item),
        Err(DataBaseErrorType::Existed(existing)) => (UploadStatus::Existed, existing@),
        Err(_) => (UploadStatus::Failed, item),
    }
}

/// Decides what an upload is answered with. The creation of a record never
/// ends in `NotFound`.
pub fn upload_report(result: Result<(), DataBaseErrorType>, item: DataBaseItem) -> (r: (
    UploadStatus,
    DataBaseItem,
))
    requires
        !(result matches Err(DataBaseErrorType::NotFound)),
    ensures
        (r.0, r.1@) == report_of(result, item@),
{
    match result {
        Ok(_) => (UploadStatus::Created, item),
        Err(DataBaseErrorType::Existed(existing)) => (UploadStatus::Existed, existing),
        Err(_) => (UploadStatus::Failed, item),
    }
}

} // verus!
