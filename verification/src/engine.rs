//! The embedded key-value engine, `sled`: one ordered namespace per partition.

use vstd::prelude::*;

verus! {

/// `sled::Db`, the open database. Opaque.
#[verifier::external_type_specification]
#[verifier::external_body]
pub struct ExDb(sled::Db);

/// `sled::Tree`, one namespace of the database. Opaque; what it holds is
/// named by [`tree_entries`].
#[verifier::external_type_specification]
#[verifier::external_body]
pub struct ExTree(sled::Tree);

/// `sled::Error`, the failure of an operation of the engine. Opaque.
#[verifier::external_type_specification]
#[verifier::external_body]
pub struct ExEngineError(sled::Error);

/// What a namespace holds: a value for each key, both as bytes.
pub uninterp spec fn tree_entries(tree: sled::Tree) -> Map<Seq<u8>, Seq<u8>>;

/// A listing of a namespace: every entry once, in some order.
pub open spec fn is_listing(items: Seq<(Seq<u8>, Seq<u8>)>, entries: Map<Seq<u8>, Seq<u8>>) -> bool {
    &&& forall|i: int|
        0 <= i < items.len() ==> entries.contains_key((#[trigger] items[i]).0) && entries[items[i].0]
            == items[i].1
    &&& forall|i: int, j: int|
        0 <= i < j < items.len() ==> (#[trigger] items[i]).0 != (#[trigger] items[j]).0
    &&& forall|k: Seq<u8>| #[trigger]
        entries.contains_key(k) ==> exists|i: int| 0 <= i < items.len() && (#[trigger] items[i]).0 == k
}

/// The items of a scan as pairs of byte sequences.
pub open spec fn raw_views(items: Seq<(Vec<u8>, Vec<u8>)>) -> Seq<(Seq<u8>, Seq<u8>)> {
    items.map_values(|e: (Vec<u8>, Vec<u8>)| (e.0@, e.1@))
}

/// A listing has as many items as the namespace has keys.
pub proof fn lemma_listing_count(items: Seq<(Seq<u8>, Seq<u8>)>, entries: Map<Seq<u8>, Seq<u8>>)
    requires
        is_listing(items, entries),
    ensures
        entries.dom().finite(),
        entries.dom().len() == items.len(),
    decreases items.len(),
{
    if items.len() == 0 {
        assert(entries.dom() =~= Set::<Seq<u8>>::empty());
    } else {
        let last = items.last();
        let rest = items.drop_last();
        let fewer = entries.remove(last.0);
        assert forall|k: Seq<u8>| #[trigger] fewer.contains_key(k) implies exists|i: int|
            0 <= i < rest.len() && (#[trigger] rest[i]).0 == k by {
            assert(entries.contains_key(k));
            let i = choose|i: int| 0 <= i < items.len() && (#[trigger] items[i]).0 == k;
            assert(i != items.len() - 1);
            assert(rest[i] == items[i]);
        }
        assert forall|i: int| 0 <= i < rest.len() implies fewer.contains_key((#[trigger] rest[i]).0)
            && fewer[rest[i].0] == rest[i].1 by {
            assert(rest[i] == items[i]);
            assert(items[i].0 != items[items.len() - 1].0);
        }
        assert forall|i: int, j: int| 0 <= i < j < rest.len() implies (#[trigger] rest[i]).0 != (
        #[trigger] rest[j]).0 by {
            assert(rest[i] == items[i]);
            assert(rest[j] == items[j]);
        }
        lemma_listing_count(rest, fewer);
        assert(entries.contains_key(items[items.len() - 1].0));
        assert(entries.dom() =~= fewer.dom().insert(last.0));
    }
}

/// Calls `sled::open`: opens or creates the database directory at `path`.
/// Nothing is promised of what it holds.
#[verifier::external_body]
pub(crate) fn open_db(path: &str) -> (db: Result<sled::Db, sled::Error>) {
    sled::open(path)
}

/// Calls `Db::open_tree`: opens or creates the namespace called `name`.
/// Nothing is promised of what it holds.
#[verifier::external_body]
pub(crate) fn open_tree(db: &sled::Db, name: &str) -> (tree: Result<sled::Tree, sled::Error>) {
    db.open_tree(name)
}

/// Calls `Tree::get`. Trusted: a successful read returns the value stored
/// under the key, or `None` where the namespace has no such key.
#[verifier::external_body]
pub(crate) fn tree_get(tree: &sled::Tree, key: &[u8]) -> (found: Result<Option<Vec<u8>>, sled::Error>)
    ensures
        found matches Ok(value) ==> match value {
            Some(bytes) => tree_entries(*tree).contains_key(key@) && tree_entries(*tree)[key@]
                == bytes@,
            None => !tree_entries(*tree).contains_key(key@),
        },
{
    tree.get(key).map(|found| found.map(|bytes| bytes.to_vec()))
}

/// Calls `Tree::insert`. Trusted: a successful write stores the value under
/// the key, leaves every other key as it was, and returns the value that the
/// key had before. Nothing is promised of the namespace after a failed write.
#[verifier::external_body]
pub(crate) fn tree_insert(tree: &mut sled::Tree, key: &[u8], value: &[u8]) -> (previous: Result<
    Option<Vec<u8>>,
    sled::Error,
>)
    ensures
        previous matches Ok(before) ==> {
            &&& tree_entries(*final(tree)) == tree_entries(*old(tree)).insert(key@, value@)
            &&& match before {
                Some(bytes) => tree_entries(*old(tree)).contains_key(key@) && tree_entries(
                    *old(tree),
                )[key@] == bytes@,
                None => !tree_entries(*old(tree)).contains_key(key@),
            }
        },
{
    tree.insert(key, value).map(|before| before.map(|bytes| bytes.to_vec()))
}

/// Calls `Tree::remove`. Trusted: a successful removal deletes the key,
/// leaves every other key as it was, and returns the value that the key had
/// before. Nothing is promised of the namespace after a failed removal.
#[verifier::external_body]
pub(crate) fn tree_remove(tree: &mut sled::Tree, key: &[u8]) -> (previous: Result<
    Option<Vec<u8>>,
    sled::Error,
>)
    ensures
        previous matches Ok(before) ==> {
            &&& tree_entries(*final(tree)) == tree_entries(*old(tree)).remove(key@)
            &&& match before {
                Some(bytes) => tree_entries(*old(tree)).contains_key(key@) && tree_entries(
                    *old(tree),
                )[key@] == bytes@,
                None => !tree_entries(*old(tree)).contains_key(key@),
            }
        },
{
    tree.remove(key).map(|before| before.map(|bytes| bytes.to_vec()))
}

/// Walks `Tree::iter` to its end. Trusted: where no step fails, the items
/// are the entries of the namespace, each exactly once.
#[verifier::external_body]
pub(crate) fn tree_scan(tree: &sled::Tree) -> (listing: Result<Vec<(Vec<u8>, Vec<u8>)>, sled::Error>)
    ensures
        listing matches Ok(items) ==> is_listing(raw_views(items@), tree_entries(*tree)),
{
    tree.iter().map(|item| item.map(|(key, value)| (key.to_vec(), value.to_vec()))).collect()
}

/// Formats a `sled::Error` with its `Display` impl.
#[verifier::external_body]
pub(crate) fn error_text(error: &sled::Error) -> (text: String) {
    error.to_string()
}

} // verus!
