use std::marker::PhantomData;
use ts_kvstore::index::KvTableIndex;
use ts_kvstore::schema::{Here, IndexDesc, TableDesc, Tables, There};
use ts_kvstore::storage::Table;
use ts_kvstore::{Error, KvStore};

struct Accounts;

struct ByName;

type TableStorage = Tables<(), (Table<u32, &'static str>, (Table<&'static str, u32>, ()))>;

impl TableDesc for Accounts {
    type Key = u32;
    type Value = &'static str;
    type Storage = TableStorage;
    type Position = Here;
    const NAME: &'static str = "Accounts";
}

impl TableDesc for ByName {
    type Key = &'static str;
    type Value = u32;
    type Storage = TableStorage;
    type Position = There<Here>;
    const NAME: &'static str = "ByName";
}

impl IndexDesc for ByName {
    type BaseTable = Accounts;

    fn index_key(value: &&'static str) -> &'static str {
        *value
    }
}

const OWNER: &str = "owner";

fn by_name(store: &mut KvStore<TableStorage>) -> KvTableIndex<'_, TableStorage, ByName, Accounts> {
    KvTableIndex { store, owner: OWNER, index: PhantomData, base: PhantomData }
}

#[test]
fn index_insert_then_get() {
    let mut store = KvStore::<TableStorage>::new();
    let mut index = by_name(&mut store);
    assert!(index.insert(1, "alice").is_none());
    assert!(index.insert(2, "bob").is_none());
    assert_eq!(index.get(&"alice"), Some("alice"));
    assert_eq!(index.get(&"bob"), Some("bob"));
    assert!(index.get(&"carol").is_none());
    assert_eq!(index.len(), 2);
    assert!(!index.is_empty());
}

#[test]
fn index_follows_replaced_value() {
    let mut store = KvStore::<TableStorage>::new();
    let mut index = by_name(&mut store);
    index.insert(1, "alice");
    assert_eq!(index.insert(1, "carol"), Some("alice"));
    assert!(index.get(&"alice").is_none());
    assert_eq!(index.get(&"carol"), Some("carol"));
    assert_eq!(index.len(), 1);
    assert_eq!(store.table::<ByName>(OWNER).len(), 1);
    assert_eq!(store.table::<ByName>(OWNER).get(&"carol"), Some(1));
}

#[test]
fn index_remove_removes_row_and_entry() {
    let mut store = KvStore::<TableStorage>::new();
    let mut index = by_name(&mut store);
    index.insert(1, "alice");
    index.insert(2, "bob");
    assert_eq!(index.remove(&"bob"), Some("bob"));
    assert!(index.remove(&"bob").is_none());
    assert_eq!(index.len(), 1);
    assert!(store.table::<Accounts>(OWNER).get(&2).is_none());
    assert!(store.table::<ByName>(OWNER).get(&"bob").is_none());
}

#[test]
fn index_mutate_moves_entry() {
    let mut store = KvStore::<TableStorage>::new();
    let mut index = by_name(&mut store);
    index.insert(1, "carol");
    assert_eq!(index.mutate(&"carol", |v| {
        *v = "dave";
        7
    }), Some(7));
    assert!(index.get(&"carol").is_none());
    assert_eq!(index.get(&"dave"), Some("dave"));
    assert!(index.mutate(&"carol", |_| 0).is_none());
    assert_eq!(store.table::<Accounts>(OWNER).get(&1), Some("dave"));
}

#[test]
fn index_with_and_iter() {
    let mut store = KvStore::<TableStorage>::new();
    let mut index = by_name(&mut store);
    index.insert(1, "alice");
    index.insert(2, "bob");
    assert_eq!(index.with(&"alice", |v| v.len()), Some(5));
    assert!(index.with(&"zed", |v| v.len()).is_none());
    let mut rows: Vec<(&str, &str)> = Vec::new();
    let mut it = index.iter();
    while let Some((k, v)) = it.next() {
        rows.push((*k, *v));
    }
    rows.sort();
    assert_eq!(rows, vec![("alice", "alice"), ("bob", "bob")]);
}

#[test]
fn index_clear_and_init() {
    let mut store = KvStore::<TableStorage>::new();
    let mut index = by_name(&mut store);
    assert!(index.init().is_ok());
    let err = index.init().unwrap_err();
    assert!(matches!(err, Error::AlreadyInit(o) if o == OWNER));
    index.insert(1, "alice");
    index.clear();
    assert!(index.is_empty());
    assert!(index.get(&"alice").is_none());
    assert_eq!(store.table::<ByName>(OWNER).len(), 0);
}

#[test]
fn index_entry_without_base_row() {
    let mut store = KvStore::<TableStorage>::new();
    by_name(&mut store).insert(1, "alice");
    by_name(&mut store).insert(2, "bob");
    assert_eq!(store.table::<Accounts>(OWNER).remove(&1), Some("alice"));
    let mut index = by_name(&mut store);
    assert!(index.get(&"alice").is_none());
    assert!(index.mutate(&"alice", |v| *v = "carol").is_none());
    assert!(index.remove(&"alice").is_none());
    assert_eq!(index.remove(&"bob"), Some("bob"));
    assert!(index.is_empty());
}
