use ipld_core::cid::Cid;
use ipld_core::error::BlockError;
use ipld_core::mem::MemStore;
use ipld_core::store::{AliasStore, MultiUserStore, ReadonlyStore, Store, Visibility};

fn cid(n: u8) -> Cid {
    Cid::new(0, vec![n, n, n])
}

#[test]
fn insert_then_get_returns_the_bytes() {
    let mut store = MemStore::new();
    let c = cid(1);
    store.insert(&c, vec![0u8], Visibility::Private).unwrap();
    assert_eq!(store.get(&c).unwrap(), vec![0u8]);
}

#[test]
fn get_of_an_absent_block_is_not_found() {
    let mut store = MemStore::new();
    let e = store.get(&cid(9)).unwrap_err();
    assert_eq!(e, BlockError::NotFound);
}

#[test]
fn reinserting_a_block_keeps_it_pinned() {
    let mut store = MemStore::new();
    let c = cid(1);
    store.insert(&c, vec![0u8], Visibility::Private).unwrap();
    store.insert(&c, vec![0u8], Visibility::Private).unwrap();
    assert!(!store.is_collectable(&c));
    assert_eq!(store.get(&c).unwrap(), vec![0u8]);
}

#[test]
fn public_insert_is_announced() {
    let mut store = MemStore::new();
    let c = cid(1);
    store.insert(&c, vec![0u8], Visibility::Public).unwrap();
    assert!(store.block_announced(&c));
}

#[test]
fn private_insert_is_not_announced() {
    let mut store = MemStore::new();
    let c = cid(1);
    store.insert(&c, vec![0u8], Visibility::Private).unwrap();
    assert!(!store.block_announced(&c));
}

#[test]
fn pins_under_distinct_paths_are_independent() {
    let mut store = MemStore::new();
    let c = cid(1);
    store.insert(&c, vec![0u8], Visibility::Private).unwrap();
    store.pin(&c, &b"/a".to_vec()).unwrap();
    store.pin(&c, &b"/b".to_vec()).unwrap();
    store.unpin(&c).unwrap();
    store.unpin_path(&b"/a".to_vec()).unwrap();
    assert_eq!(store.get(&c).unwrap(), vec![0u8]);
    assert!(!store.is_collectable(&c));
    store.unpin_path(&b"/b".to_vec()).unwrap();
    assert!(store.is_collectable(&c));
}

#[test]
fn pin_of_an_absent_block_fails() {
    let mut store = MemStore::new();
    let e = store.pin(&cid(3), &b"/x".to_vec()).unwrap_err();
    assert_eq!(e, BlockError::NotFound);
}

#[test]
fn unpin_of_an_unpinned_block_is_a_no_op() {
    let mut store = MemStore::new();
    store.unpin(&cid(1)).unwrap();
    assert!(!store.contains(&cid(1)));
}

#[test]
fn alias_round_trip() {
    let mut store = MemStore::new();
    let c = cid(1);
    store.insert(&c, vec![0u8], Visibility::Private).unwrap();
    store.alias(&b"name".to_vec(), &c, Visibility::Public).unwrap();
    assert_eq!(store.resolve(&b"name".to_vec()).unwrap(), Some(cid(1)));
    assert!(store.alias_announced(&b"name".to_vec()));
    store.unalias(&b"name".to_vec()).unwrap();
    assert_eq!(store.resolve(&b"name".to_vec()).unwrap(), None);
}

#[test]
fn rebinding_an_alias_overwrites_the_target() {
    let mut store = MemStore::new();
    store.alias(&b"name".to_vec(), &cid(1), Visibility::Private).unwrap();
    store.alias(&b"name".to_vec(), &cid(2), Visibility::Private).unwrap();
    assert_eq!(store.resolve(&b"name".to_vec()).unwrap(), Some(cid(2)));
}

#[test]
fn unalias_of_an_unbound_name_is_a_no_op() {
    let mut store = MemStore::new();
    store.unalias(&b"name".to_vec()).unwrap();
    assert_eq!(store.resolve(&b"name".to_vec()).unwrap(), None);
}

#[test]
fn resolving_does_not_pin() {
    let mut store = MemStore::new();
    let c = cid(1);
    store.insert(&c, vec![0u8], Visibility::Private).unwrap();
    store.alias(&b"name".to_vec(), &c, Visibility::Private).unwrap();
    store.unpin(&c).unwrap();
    assert_eq!(store.resolve(&b"name".to_vec()).unwrap(), Some(cid(1)));
    assert!(store.is_collectable(&c));
}

#[test]
fn cancelled_get_leaves_the_store_unchanged() {
    let mut store = MemStore::new();
    let present = cid(1);
    store.insert(&present, vec![0u8], Visibility::Private).unwrap();
    let absent = cid(2);
    let pending = store.begin_get(&absent);
    pending.cancel(&mut store);
    assert!(!store.contains(&absent));
    assert_eq!(store.get(&present).unwrap(), vec![0u8]);
    assert!(!store.is_collectable(&present));
}

#[test]
fn completed_fetch_pins_the_block_before_returning_it() {
    let mut store = MemStore::new();
    let c = cid(5);
    let pending = store.begin_get(&c);
    let data = pending.complete(&mut store, Some(vec![9u8])).unwrap();
    assert_eq!(data, vec![9u8]);
    assert!(store.contains(&c));
    assert!(!store.is_collectable(&c));
}

#[test]
fn failed_fetch_reports_failure_and_changes_nothing() {
    let mut store = MemStore::new();
    let c = cid(5);
    let pending = store.begin_get(&c);
    let e = pending.complete(&mut store, None).unwrap_err();
    assert_eq!(e, BlockError::FetchFailed);
    assert!(!store.contains(&c));
}

#[test]
fn completing_a_get_of_a_present_block_returns_the_stored_bytes() {
    let mut store = MemStore::new();
    let c = cid(1);
    store.insert(&c, vec![4u8], Visibility::Private).unwrap();
    let pending = store.begin_get(&c);
    let data = pending.complete(&mut store, Some(vec![9u8])).unwrap();
    assert_eq!(data, vec![4u8]);
}

#[test]
fn flush_marks_the_store_clean() {
    let mut store = MemStore::new();
    assert!(store.is_flushed());
    store.insert(&cid(1), vec![0u8], Visibility::Private).unwrap();
    assert!(!store.is_flushed());
    store.flush().unwrap();
    assert!(store.is_flushed());
}
