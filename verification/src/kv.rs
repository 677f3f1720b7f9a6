//! Trusted bindings to the sled embedded database.
//!
//! Each tree is modelled by [`tree_entries`], the map from key bytes to value
//! bytes that it currently holds. Every wrapper states over that map what
//! the corresponding sled call does.

use vstd::prelude::*;

verus! {

#[verifier::external_type_specification]
#[verifier::external_body]
pub struct ExDb(sled::Db);

#[verifier::external_type_specification]
#[verifier::external_body]
pub struct ExTree(sled::Tree);

#[verifier::external_type_specification]
#[verifier::external_body]
pub struct ExSledError(sled::Error);

/// The entries a tree currently holds, as a map from key bytes to value bytes.
pub uninterp spec fn tree_entries(tree: sled::Tree) -> Map<Seq<u8>, Seq<u8>>;

/// The map described by a list of writes: every key is bound to the value
/// of its last write in the list.
pub open spec fn write_pairs_map(pairs: Seq<(Vec<u8>, Vec<u8>)>) -> Map<Seq<u8>, Seq<u8>>
    decreases pairs.len(),
{
    if pairs.len() == 0 {
        Map::empty()
    } else {
        write_pairs_map(pairs.drop_last()).insert(pairs.last().0@, pairs.last().1@)
    }
}

/// Relies on sled::open: opens the database at `path`, creating it if it
/// does not yet exist. Nothing is known about the contents of its trees.
#[verifier::external_body]
pub(crate) fn db_open(path: &str) -> (r: Result<sled::Db, sled::Error>) {
    sled::open(path)
}

/// Relies on sled::Config (new, temporary, open): opens a fresh database
/// backed by temporary storage that is removed again when it is dropped.
#[verifier::external_body]
pub(crate) fn db_open_temporary() -> (r: Result<sled::Db, sled::Error>) {
    sled::Config::new().temporary(true).open()
}

/// Relies on sled::Db::open_tree: opens or creates the keyspace named
/// `name`. Nothing is known about the entries it already holds on disk.
#[verifier::external_body]
pub(crate) fn db_open_tree(db: &sled::Db, name: &str) -> (r: Result<sled::Tree, sled::Error>) {
    db.open_tree(name)
}

/// Relies on sled::Tree::insert: sets `key` to `value`, replacing any prior
/// value stored under that key. A failed insert reports its error before
/// any change is installed, so the tree is left as it was.
#[verifier::external_body]
pub(crate) fn tree_insert(tree: &mut sled::Tree, key: &[u8], value: &[u8]) -> (r: Result<
    (),
    sled::Error,
>)
    ensures
        r is Ok ==> tree_entries(*final(tree)) == tree_entries(*old(tree)).insert(key@, value@),
        r is Err ==> tree_entries(*final(tree)) == tree_entries(*old(tree)),
{
    match tree.insert(key, value) {
        Ok(_) => Ok(()),
        Err(e) => Err(e),
    }
}

/// Relies on sled::Tree::get: returns the value stored under `key`, if any.
#[verifier::external_body]
pub(crate) fn tree_get(tree: &sled::Tree, key: &[u8]) -> (r: Result<Option<Vec<u8>>, sled::Error>)
    ensures
        match r {
            Ok(Some(v)) => tree_entries(*tree).contains_key(key@) && v@ == tree_entries(*tree)[key@],
            Ok(None) => !tree_entries(*tree).contains_key(key@),
            Err(_) => true,
        },
{
    match tree.get(key) {
        Ok(Some(v)) => Ok(Some(v.to_vec())),
        Ok(None) => Ok(None),
        Err(e) => Err(e),
    }
}

/// Relies on sled::Tree::remove: deletes the entry stored under `key`, if
/// any. A failed remove reports its error before any change is installed,
/// so the tree is left as it was.
#[verifier::external_body]
pub(crate) fn tree_remove(tree: &mut sled::Tree, key: &[u8]) -> (r: Result<(), sled::Error>)
    ensures
        r is Ok ==> tree_entries(*final(tree)) == tree_entries(*old(tree)).remove(key@),
        r is Err ==> tree_entries(*final(tree)) == tree_entries(*old(tree)),
{
    match tree.remove(key) {
        Ok(_) => Ok(()),
        Err(e) => Err(e),
    }
}

/// Relies on sled::Batch (default, insert) and sled::Tree::apply_batch: the
/// writes are collected into one batch and applied to the tree as one
/// atomic unit; a batch keeps the last write recorded for a key. A failed
/// apply may have installed any subset of the batch's writes, but it never
/// touches a key outside the batch.
#[verifier::external_body]
pub(crate) fn tree_apply_writes(tree: &mut sled::Tree, writes: &Vec<(Vec<u8>, Vec<u8>)>) -> (r:
    Result<(), sled::Error>)
    ensures
        r is Ok ==> tree_entries(*final(tree)) == tree_entries(*old(tree)).union_prefer_right(
            write_pairs_map(writes@),
        ),
        r is Err ==> tree_entries(*final(tree)).remove_keys(write_pairs_map(writes@).dom())
            == tree_entries(*old(tree)).remove_keys(write_pairs_map(writes@).dom()),
{
    let mut batch = sled::Batch::default();
    for (key, value) in writes.iter() {
        batch.insert(key.as_slice(), value.as_slice());
    }
    tree.apply_batch(batch)
}

/// Relies on sled::Tree::scan_prefix: iterates over every entry whose key
/// begins with `prefix`, yielding each such key exactly once together with
/// its stored value.
#[verifier::external_body]
pub(crate) fn tree_scan_prefix(tree: &sled::Tree, prefix: &[u8]) -> (r: Result<
    Vec<(Vec<u8>, Vec<u8>)>,
    sled::Error,
>)
    ensures
        match r {
            Ok(v) => {
                &&& (forall|i: int|
                    0 <= i < v@.len() ==> {
                        &&& tree_entries(*tree).contains_key((#[trigger] v@[i]).0@)
                        &&& tree_entries(*tree)[v@[i].0@] == v@[i].1@
                        &&& prefix@.is_prefix_of(v@[i].0@)
                    })
                &&& (forall|k: Seq<u8>|
                    #[trigger] tree_entries(*tree).contains_key(k) && prefix@.is_prefix_of(k)
                        ==> exists|i: int| 0 <= i < v@.len() && (#[trigger] v@[i].0@) == k)
                &&& (forall|i: int, j: int|
                    0 <= i < j < v@.len() ==> (#[trigger] v@[i]).0@ != (#[trigger] v@[j]).0@)
            },
            Err(_) => true,
        },
{
    let mut out = Vec::new();
    for item in tree.scan_prefix(prefix) {
        let (k, v) = item?;
        out.push((k.to_vec(), v.to_vec()));
    }
    Ok(out)
}

} // verus!
