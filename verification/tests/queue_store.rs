//! The durable queue store, exercised against a temporary database.

use snowpatch::store::{
    db_collect_string_values, move_to_new_queue, CollectStringsError, MoveError, Store,
};

fn temp_store() -> Store {
    let db = sled::Config::new().temporary(true).open().unwrap();
    Store::new(db)
}

#[test]
fn insert_get_remove() {
    let store = temp_store();
    let mut tree = store.open_tree(b"needs testing").unwrap();
    assert!(tree.is_empty());
    tree.insert(b"k1", b"v1".to_vec()).unwrap();
    assert!(!tree.is_empty());
    assert!(tree.contains_key(b"k1").unwrap());
    assert_eq!(tree.get(b"k1").unwrap(), Some(b"v1".to_vec()));
    assert_eq!(tree.get(b"k2").unwrap(), None);
    assert_eq!(tree.remove(b"k1").unwrap(), Some(b"v1".to_vec()));
    assert_eq!(tree.remove(b"k1").unwrap(), None);
    assert!(!tree.contains_key(b"k1").unwrap());
}

#[test]
fn entries_list_every_pair() {
    let store = temp_store();
    let mut tree = store.open_tree(b"remotes to push to").unwrap();
    tree.insert(b"origin", b"github".to_vec()).unwrap();
    tree.insert(b"mirror", b"github".to_vec()).unwrap();
    let mut entries = tree.entries().unwrap();
    entries.sort();
    assert_eq!(
        entries,
        vec![
            (b"mirror".to_vec(), b"github".to_vec()),
            (b"origin".to_vec(), b"github".to_vec()),
        ]
    );
}

#[test]
fn move_between_queues_carries_the_value() {
    let store = temp_store();
    let mut src = store.open_tree(b"needs testing").unwrap();
    let mut dst = store.open_tree(b"awaiting git worker").unwrap();
    src.insert(b"13675", b"mbox".to_vec()).unwrap();
    move_to_new_queue(&mut src, &mut dst, b"13675").unwrap();
    assert_eq!(src.get(b"13675").unwrap(), None);
    assert_eq!(dst.get(b"13675").unwrap(), Some(b"mbox".to_vec()));
}

#[test]
fn move_of_missing_key_changes_nothing() {
    let store = temp_store();
    let mut src = store.open_tree(b"a").unwrap();
    let mut dst = store.open_tree(b"b").unwrap();
    dst.insert(b"other", b"x".to_vec()).unwrap();
    match move_to_new_queue(&mut src, &mut dst, b"absent") {
        Err(MoveError::Missing) => {}
        _ => panic!("expected a missing-key refusal"),
    }
    assert!(src.is_empty());
    assert_eq!(dst.get(b"other").unwrap(), Some(b"x".to_vec()));
    assert!(!dst.contains_key(b"absent").unwrap());
}

#[test]
fn collect_string_values_decodes_pairs() {
    let store = temp_store();
    let mut tree = store.open_tree(b"remotes to push to").unwrap();
    tree.insert(b"origin", b"github".to_vec()).unwrap();
    let pairs = db_collect_string_values(&tree).unwrap();
    assert_eq!(
        pairs,
        vec![(String::from("origin"), String::from("github"))]
    );
}

#[test]
fn collect_string_values_rejects_bytes_that_are_not_text() {
    let store = temp_store();
    let mut tree = store.open_tree(b"remotes to push to").unwrap();
    tree.insert(b"origin", vec![0xff, 0xfe]).unwrap();
    match db_collect_string_values(&tree) {
        Err(CollectStringsError::NotText) => {}
        _ => panic!("expected the non-text entry to be reported"),
    }
}

#[test]
fn scalars_read_back() {
    let mut store = temp_store();
    store.put_scalar(b"ssh public key path", b"/home/me/.ssh/id_rsa.pub".to_vec()).unwrap();
    assert_eq!(
        store.get_scalar(b"ssh public key path").unwrap(),
        Some(b"/home/me/.ssh/id_rsa.pub".to_vec())
    );
    assert_eq!(store.get_scalar(b"missing").unwrap(), None);
}
