//! The durable queue store.
//!
//! Every pipeline stage communicates through named queue trees held in an
//! embedded key-value store (sled).  A queue tree is modelled as a map from
//! byte keys to byte values; the store also carries a small scalar keyspace
//! for configuration-derived values such as credential paths.
//!
//! The sled calls stand behind trusted wrappers.  Handles returned by
//! [`Store::open_tree`] share state when opened with the same name, so the
//! wrapper contracts describe a tree reached through a single live handle;
//! the pipeline opens each named tree once and passes it by reference.

use sled::Transactional;
use vstd::prelude::*;

verus! {

#[verifier::external_type_specification]
#[verifier::external_body]
pub struct ExSledTree(sled::Tree);

#[verifier::external_type_specification]
#[verifier::external_body]
pub struct ExSledDb(sled::Db);

/// What a queue tree holds: a finite map from byte keys to byte values.
pub uninterp spec fn tree_entries(t: sled::Tree) -> Map<Seq<u8>, Seq<u8>>;

/// What the store's top-level scalar keyspace (the default tree) holds.
pub uninterp spec fn db_scalars(db: sled::Db) -> Map<Seq<u8>, Seq<u8>>;

/// An error reported by the underlying store.
#[derive(Debug)]
pub struct StoreError {
    pub message: String,
}

/// The outcome of a failed atomic move between two queue trees.
#[derive(Debug)]
pub enum MoveError {
    /// The key was not present in the source tree; neither tree changed.
    Missing,
    /// The underlying store failed.
    Store(StoreError),
}

/// One named queue tree of the durable store.
pub struct QueueTree {
    pub tree: sled::Tree,
}

impl View for QueueTree {
    type V = Map<Seq<u8>, Seq<u8>>;

    open spec fn view(&self) -> Map<Seq<u8>, Seq<u8>> {
        tree_entries(self.tree)
    }
}

impl QueueTree {
    /// Relies on sled::Tree::insert: sets the key to the value.
    #[verifier::external_body]
    pub fn insert(&mut self, key: &[u8], value: Vec<u8>) -> (r: Result<(), StoreError>)
        ensures
            r is Ok ==> tree_entries(final(self).tree) == tree_entries(old(self).tree).insert(
                key@,
                value@,
            ),
    {
        match self.tree.insert(key, value) {
            Ok(_) => Ok(()),
            Err(e) => Err(StoreError { message: e.to_string() }),
        }
    }

    /// Relies on sled::Tree::get: retrieves the value stored at the key, if any.
    #[verifier::external_body]
    pub fn get(&self, key: &[u8]) -> (r: Result<Option<Vec<u8>>, StoreError>)
        ensures
            r matches Ok(Some(v)) ==> self@.contains_key(key@) && v@ == self@[key@],
            r matches Ok(o) && o is None ==> !self@.contains_key(key@),
    {
        match self.tree.get(key) {
            Ok(o) => Ok(o.map(|v| v.to_vec())),
            Err(e) => Err(StoreError { message: e.to_string() }),
        }
    }

    /// Relies on sled::Tree::contains_key: reports whether the key is present.
    #[verifier::external_body]
    pub fn contains_key(&self, key: &[u8]) -> (r: Result<bool, StoreError>)
        ensures
            r matches Ok(b) ==> b == self@.contains_key(key@),
    {
        match self.tree.contains_key(key) {
            Ok(b) => Ok(b),
            Err(e) => Err(StoreError { message: e.to_string() }),
        }
    }

    /// Relies on sled::Tree::remove: deletes the key, returning the value it held.
    #[verifier::external_body]
    pub fn remove(&mut self, key: &[u8]) -> (r: Result<Option<Vec<u8>>, StoreError>)
        ensures
            r is Ok ==> final(self)@ == old(self)@.remove(key@),
            r matches Ok(Some(v)) ==> old(self)@.contains_key(key@) && v@ == old(self)@[key@],
            r matches Ok(o) && o is None ==> !old(self)@.contains_key(key@),
    {
        match self.tree.remove(key) {
            Ok(o) => Ok(o.map(|v| v.to_vec())),
            Err(e) => Err(StoreError { message: e.to_string() }),
        }
    }

    /// Relies on sled::Tree::iter: yields every entry of the tree, each key once.
    #[verifier::external_body]
    pub fn entries(&self) -> (r: Result<Vec<(Vec<u8>, Vec<u8>)>, StoreError>)
        ensures
            r matches Ok(es) ==> {
                &&& forall|i: int|
                    0 <= i < es@.len() ==> self@.contains_key(#[trigger] es@[i].0@)
                        && self@[es@[i].0@] == es@[i].1@
                &&& forall|k: Seq<u8>|
                    self@.contains_key(k) ==> exists|i: int|
                        0 <= i < es@.len() && (#[trigger] es@[i].0@) == k
                &&& forall|i: int, j: int|
                    0 <= i < j < es@.len() ==> (#[trigger] es@[i].0@) != (#[trigger] es@[j].0@)
            },
    {
        self.tree
            .iter()
            .map(|kv| {
                kv.map(|(k, v)| (k.to_vec(), v.to_vec()))
                    .map_err(|e| StoreError { message: e.to_string() })
            })
            .collect()
    }

    /// Relies on sled::Tree::is_empty: a yes means the tree holds no
    /// entry.  A no is not conclusive: the probe reads the first entry,
    /// and a storage error there also answers no.
    #[verifier::external_body]
    pub fn is_empty(&self) -> (r: bool)
        ensures
            r ==> self@.dom().is_empty(),
    {
        self.tree.is_empty()
    }

}

/// Block until the named tree changes, returning at once if it is not
/// empty.
///
/// Relies on sled::Tree::watch_prefix, with sled::Tree::is_empty checked
/// after the subscription to close the race: the subscriber wakes on the
/// first write made after it was registered.  Says nothing about the
/// tree's contents.
#[verifier::external_body]
pub fn wait_for_tree(tree: &QueueTree) {
    let sub = tree.tree.watch_prefix(vec![]);
    if !tree.tree.is_empty() {
        return;
    }
    for _ in sub.take(1) {}
}

/// Atomically move one key, with its value, from one queue tree to another.
///
/// Relies on sled's Transactional::transaction over a pair of trees: the
/// closure's removal and insertion either both commit or neither does, and an
/// abort leaves both trees unchanged.
#[verifier::external_body]
pub fn move_to_new_queue(src: &mut QueueTree, dst: &mut QueueTree, key: &[u8]) -> (r: Result<
    (),
    MoveError,
>)
    ensures
        r is Ok ==> {
            &&& old(src)@.contains_key(key@)
            &&& final(src)@ == old(src)@.remove(key@)
            &&& final(dst)@ == old(dst)@.insert(key@, old(src)@[key@])
        },
        r matches Err(MoveError::Missing) ==> {
            &&& !old(src)@.contains_key(key@)
            &&& final(src)@ == old(src)@
            &&& final(dst)@ == old(dst)@
        },
{
    let r = (&src.tree, &dst.tree).transaction(|(s, d)| {
        match s.remove(key)? {
            Some(v) => d.insert(key, v).map(|_| ()).map_err(|e| e.into()),
            None => sled::transaction::abort(()),
        }
    });
    match r {
        Ok(()) => Ok(()),
        Err(sled::transaction::TransactionError::Abort(())) => Err(MoveError::Missing),
        Err(sled::transaction::TransactionError::Storage(e)) => Err(MoveError::Store(StoreError {
            message: e.to_string(),
        })),
    }
}

/// Whether a list of decoded pairs accounts for every key of a tree.
pub open spec fn pairs_cover_keys(ps: Seq<(String, String)>, m: Map<Seq<u8>, Seq<u8>>) -> bool {
    forall|k: Seq<u8>|
        m.contains_key(k) ==> exists|i: int|
            0 <= i < ps.len() && vstd::utf8::encode_utf8(#[trigger] ps[i].0@) == k
}

/// Whether every key and value of a tree is valid UTF-8.
pub open spec fn all_entries_text(m: Map<Seq<u8>, Seq<u8>>) -> bool {
    forall|k: Seq<u8>|
        #[trigger] m.contains_key(k) ==> vstd::utf8::valid_utf8(k) && vstd::utf8::valid_utf8(m[k])
}

/// Whether some entry of a tree has a key or value that is not valid UTF-8.
pub open spec fn has_non_text_entry(m: Map<Seq<u8>, Seq<u8>>) -> bool {
    exists|k: Seq<u8>|
        #[trigger] m.contains_key(k) && (!vstd::utf8::valid_utf8(k) || !vstd::utf8::valid_utf8(
            m[k],
        ))
}

/// Why a tree could not be read as text.
#[derive(Debug)]
pub enum CollectStringsError {
    /// The underlying store failed.
    Store(StoreError),
    /// An entry's key or value is not valid UTF-8.
    NotText,
}

/// Read every entry of a tree as text, each key and value decoded strictly
/// from UTF-8: on success every entry of the tree is text, each of its keys
/// appears exactly once among the pairs, and an entry that is not text is
/// reported as such — a deliberate tightening over patching bad bytes up
/// with replacement characters, since everything the pipeline writes into
/// these trees is text to begin with.  The pairs come in the underlying
/// iteration's order, which the tree's model — an unordered map — cannot
/// pin down.
pub fn db_collect_string_values(tree: &QueueTree) -> (r: Result<
    Vec<(String, String)>,
    CollectStringsError,
>)
    ensures
        r is Ok ==> forall|i: int|
            0 <= i < r->Ok_0@.len() ==> tree@.contains_key(
                vstd::utf8::encode_utf8(#[trigger] r->Ok_0@[i].0@),
            ) && tree@[vstd::utf8::encode_utf8(r->Ok_0@[i].0@)] == vstd::utf8::encode_utf8(
                r->Ok_0@[i].1@,
            ),
        r is Ok ==> pairs_cover_keys(r->Ok_0@, tree@),
        r is Ok ==> forall|i: int, j: int|
            0 <= i < j < r->Ok_0@.len() ==> (#[trigger] r->Ok_0@[i].0@) != (#[trigger] r
                ->Ok_0@[j].0@),
        r is Ok ==> all_entries_text(tree@),
        r matches Err(e) && e is NotText ==> has_non_text_entry(tree@),
{
    broadcast use vstd::utf8::decode_utf8_encode_utf8;

    let entries = match tree.entries() {
        Ok(es) => es,
        Err(e) => {
            return Err(CollectStringsError::Store(e));
        },
    };
    let mut pairs: Vec<(String, String)> = Vec::new();
    let mut i: usize = 0;
    while i < entries.len()
        invariant
            0 <= i <= entries@.len(),
            pairs@.len() == i,
            forall|j: int|
                0 <= j < i ==> vstd::utf8::encode_utf8(#[trigger] pairs@[j].0@) == entries@[j].0@
                    && vstd::utf8::encode_utf8(pairs@[j].1@) == entries@[j].1@,
            forall|j: int|
                0 <= j < i ==> vstd::utf8::valid_utf8(#[trigger] entries@[j].0@)
                    && vstd::utf8::valid_utf8(entries@[j].1@),
            forall|j: int|
                0 <= j < entries@.len() ==> tree@.contains_key(#[trigger] entries@[j].0@)
                    && tree@[entries@[j].0@] == entries@[j].1@,
        decreases entries@.len() - i,
    {
        let key_bytes = vstd::slice::slice_to_vec(entries[i].0.as_slice());
        let value_bytes = vstd::slice::slice_to_vec(entries[i].1.as_slice());
        let key = match crate::codec::bytes_to_string(key_bytes) {
            Some(s) => s,
            None => {
                proof {
                    assert(tree@.contains_key(entries@[i as int].0@));
                    assert(has_non_text_entry(tree@));
                }
                return Err(CollectStringsError::NotText);
            },
        };
        let value = match crate::codec::bytes_to_string(value_bytes) {
            Some(s) => s,
            None => {
                proof {
                    assert(tree@.contains_key(entries@[i as int].0@));
                    assert(tree@[entries@[i as int].0@] == entries@[i as int].1@);
                    assert(has_non_text_entry(tree@));
                }
                return Err(CollectStringsError::NotText);
            },
        };
        proof {
            assert(vstd::utf8::valid_utf8(entries@[i as int].0@));
            assert(vstd::utf8::valid_utf8(entries@[i as int].1@));
            vstd::utf8::decode_utf8_encode_utf8(entries@[i as int].0@);
            vstd::utf8::decode_utf8_encode_utf8(entries@[i as int].1@);
        }
        pairs.push((key, value));
        i = i + 1;
        proof {
            assert(forall|j: int|
                0 <= j < i ==> vstd::utf8::valid_utf8(#[trigger] entries@[j].0@)
                    && vstd::utf8::valid_utf8(entries@[j].1@));
        }
    }
    proof {
        assert forall|k: Seq<u8>| tree@.contains_key(k) implies exists|j: int|
            0 <= j < pairs@.len() && vstd::utf8::encode_utf8(#[trigger] pairs@[j].0@) == k by {
            let w = choose|w: int| 0 <= w < entries@.len() && (#[trigger] entries@[w].0@) == k;
            assert(vstd::utf8::encode_utf8(pairs@[w].0@) == k);
        }
        assert(pairs_cover_keys(pairs@, tree@));
        assert(forall|i: int|
            0 <= i < pairs@.len() ==> tree@.contains_key(
                vstd::utf8::encode_utf8(#[trigger] pairs@[i].0@),
            ) && tree@[vstd::utf8::encode_utf8(pairs@[i].0@)] == vstd::utf8::encode_utf8(
                pairs@[i].1@,
            ));
        assert forall|a: int, b: int|
            0 <= a < b < pairs@.len() implies (#[trigger] pairs@[a].0@) != (
        #[trigger] pairs@[b].0@) by {
            if pairs@[a].0@ == pairs@[b].0@ {
                assert(entries@[a].0@ == entries@[b].0@);
            }
        }
        assert forall|k: Seq<u8>| tree@.contains_key(k) implies vstd::utf8::valid_utf8(k)
            && vstd::utf8::valid_utf8(tree@[k]) by {
            let w = choose|w: int| 0 <= w < entries@.len() && (#[trigger] entries@[w].0@) == k;
            assert(vstd::utf8::valid_utf8(entries@[w].0@));
            assert(tree@[k] == entries@[w].1@);
        }
        assert(all_entries_text(tree@));
    }
    Ok(pairs)
}

/// The durable store: a handle to the opened database.
pub struct Store {
    pub db: sled::Db,
}

impl Store {
    /// Wrap an opened database.  The caller opens (or recovers) the database;
    /// the store's contents on disk are whatever the last run left behind.
    pub fn new(db: sled::Db) -> (s: Store) {
        Store { db }
    }

    /// Relies on sled::Db::open_tree: opens the named tree, creating it if new.
    /// The tree's contents are whatever the store holds on disk.
    #[verifier::external_body]
    pub fn open_tree(&self, name: &[u8]) -> (r: Result<QueueTree, StoreError>) {
        match self.db.open_tree(name) {
            Ok(tree) => Ok(QueueTree { tree }),
            Err(e) => Err(StoreError { message: e.to_string() }),
        }
    }

    /// Relies on sled::Tree::insert through sled::Db's default tree: sets a
    /// scalar key to the value.
    #[verifier::external_body]
    pub fn put_scalar(&mut self, key: &[u8], value: Vec<u8>) -> (r: Result<(), StoreError>)
        ensures
            r is Ok ==> db_scalars(final(self).db) == db_scalars(old(self).db).insert(key@, value@),
    {
        match self.db.insert(key, value) {
            Ok(_) => Ok(()),
            Err(e) => Err(StoreError { message: e.to_string() }),
        }
    }

    /// Relies on sled::Tree::get through sled::Db's default tree: retrieves
    /// the value stored at a scalar key, if any.
    #[verifier::external_body]
    pub fn get_scalar(&self, key: &[u8]) -> (r: Result<Option<Vec<u8>>, StoreError>)
        ensures
            r matches Ok(Some(v)) ==> db_scalars(self.db).contains_key(key@) && v@ == db_scalars(
                self.db,
            )[key@],
            r matches Ok(o) && o is None ==> !db_scalars(self.db).contains_key(key@),
    {
        match self.db.get(key) {
            Ok(o) => Ok(o.map(|v| v.to_vec())),
            Err(e) => Err(StoreError { message: e.to_string() }),
        }
    }

    /// The scalar keyspace of this store, for contracts.
    pub open spec fn scalars(&self) -> Map<Seq<u8>, Seq<u8>> {
        db_scalars(self.db)
    }
}

} // verus!
