use std::sync::Arc;
use ts_kvstore::schema::{
    ArcClass, ArcSingleton, Here, MutSingleton, Singleton, TableDesc, Tables, There, U64Class,
};
use ts_kvstore::storage::Table;
use ts_kvstore::{Error, KvStore};

struct Count;

impl Singleton<String> for Count {
    type Class = U64Class;
    const KEY: u64 = 1;
}

impl MutSingleton<String> for Count {}

struct Shared;

impl Singleton<String> for Shared {
    type Class = ArcClass;
    const KEY: u64 = 2;
}

impl ArcSingleton<String> for Shared {}

struct Items;

struct Counters;

type TableStorage = Tables<String, (Table<&'static str, String>, (Table<u32, u64>, ()))>;

impl TableDesc for Items {
    type Key = &'static str;
    type Value = String;
    type Storage = TableStorage;
    type Position = Here;
    const NAME: &'static str = "Items";
}

impl TableDesc for Counters {
    type Key = u32;
    type Value = u64;
    type Storage = TableStorage;
    type Position = There<Here>;
    const NAME: &'static str = "Counters";
}

type Store = KvStore<TableStorage>;

const OWNER: &str = "owner";

#[test]
fn begin_transaction_works() {
    let mut store = Store::new();
    let mut txn = store.begin_transaction(OWNER);
    txn.insert::<Count>(42);
    assert_eq!(txn.get::<Count>(), Some(42));
}

#[test]
fn try_begin_transaction_returns_some_when_unlocked() {
    let mut store = Store::new();
    assert!(store.try_begin_transaction(OWNER).is_some());
}

#[test]
fn begin_ro_transaction_works() {
    let mut store = Store::new();
    store.insert::<Count>(OWNER, 7);
    let txn = store.begin_ro_transaction(OWNER);
    assert_eq!(txn.get::<Count>(), Some(7));
}

#[test]
fn try_begin_ro_transaction_returns_some_when_unlocked() {
    let mut store = Store::new();
    assert!(store.try_begin_ro_transaction(OWNER).is_some());
}

#[test]
fn txn_get_returns_none_when_absent() {
    let mut store = Store::new();
    let txn = store.begin_transaction(OWNER);
    assert!(txn.get::<Count>().is_none());
}

#[test]
fn txn_get_returns_value_inserted_in_same_txn() {
    let mut store = Store::new();
    let mut txn = store.begin_transaction(OWNER);
    txn.insert::<Count>(42);
    assert_eq!(txn.get::<Count>(), Some(42));
}

#[test]
fn txn_get_returns_value_inserted_before_txn() {
    let mut store = Store::new();
    store.insert::<Count>(OWNER, 5);
    let txn = store.begin_transaction(OWNER);
    assert_eq!(txn.get::<Count>(), Some(5));
}

#[test]
fn txn_get_returns_none_after_clear_in_same_txn() {
    let mut store = Store::new();
    let mut txn = store.begin_transaction(OWNER);
    txn.insert::<Count>(1);
    txn.clear::<Count>();
    assert!(txn.get::<Count>().is_none());
}

#[test]
fn txn_get_arc_returns_none_when_absent() {
    let mut store = Store::new();
    let txn = store.begin_transaction(OWNER);
    assert!(txn.get_arc::<Shared>().is_none());
}

#[test]
fn txn_get_arc_returns_arc_after_insert() {
    let mut store = Store::new();
    store.insert::<Shared>(OWNER, Arc::new("hello".to_owned()));
    let txn = store.begin_transaction(OWNER);
    let arc = txn.get_arc::<Shared>().unwrap();
    assert_eq!(*arc, "hello");
}

#[test]
fn txn_get_arc_shares_allocation() {
    let mut store = Store::new();
    store.insert::<Shared>(OWNER, Arc::new("hello".to_owned()));
    let txn = store.begin_transaction(OWNER);
    let arc1 = txn.get_arc::<Shared>().unwrap();
    let arc2 = txn.get_arc::<Shared>().unwrap();
    assert!(Arc::ptr_eq(&arc1, &arc2));
}

#[test]
fn txn_with_returns_none_and_does_not_call_f_when_absent() {
    let mut store = Store::new();
    let txn = store.begin_transaction(OWNER);
    let mut called = false;
    let result = txn.with::<Count, ()>(|_| {
        called = true;
    });
    assert!(result.is_none());
    assert!(!called);
}

#[test]
fn txn_with_returns_result_of_f() {
    let mut store = Store::new();
    let mut txn = store.begin_transaction(OWNER);
    txn.insert::<Count>(5);
    assert_eq!(txn.with::<Count, _>(|v| v * 2), Some(10));
}

#[test]
fn txn_insert_returns_none_on_first() {
    let mut store = Store::new();
    let mut txn = store.begin_transaction(OWNER);
    assert!(txn.insert::<Count>(1).is_none());
}

#[test]
fn txn_insert_returns_previous_value() {
    let mut store = Store::new();
    let mut txn = store.begin_transaction(OWNER);
    txn.insert::<Count>(1);
    assert_eq!(txn.insert::<Count>(2), Some(1));
}

#[test]
fn txn_insert_over_tombstone_returns_none() {
    let mut store = Store::new();
    let mut txn = store.begin_transaction(OWNER);
    txn.insert::<Count>(1);
    txn.clear::<Count>();
    assert!(txn.insert::<Count>(2).is_none());
}

#[test]
fn txn_mutate_returns_none_and_does_not_call_f_when_absent() {
    let mut store = Store::new();
    let mut txn = store.begin_transaction(OWNER);
    let mut called = false;
    let result = txn.mutate::<Count, ()>(|_| {
        called = true;
    });
    assert!(result.is_none());
    assert!(!called);
}

#[test]
fn txn_mutate_modifies_value_in_place() {
    let mut store = Store::new();
    let mut txn = store.begin_transaction(OWNER);
    txn.insert::<Count>(10);
    assert_eq!(
        txn.mutate::<Count, _>(|v| {
            *v += 5;
            *v
        }),
        Some(15)
    );
    assert_eq!(txn.get::<Count>(), Some(15));
}

#[test]
fn txn_remove_returns_none_when_absent() {
    let mut store = Store::new();
    let mut txn = store.begin_transaction(OWNER);
    assert!(txn.remove::<Count>().is_none());
}

#[test]
fn txn_remove_returns_previous_value() {
    let mut store = Store::new();
    let mut txn = store.begin_transaction(OWNER);
    txn.insert::<Count>(7);
    assert_eq!(txn.remove::<Count>(), Some(7));
}

#[test]
fn txn_remove_makes_get_return_none() {
    let mut store = Store::new();
    let mut txn = store.begin_transaction(OWNER);
    txn.insert::<Count>(1);
    txn.remove::<Count>();
    assert!(txn.get::<Count>().is_none());
}

#[test]
fn txn_clear_returns_none_when_absent() {
    let mut store = Store::new();
    let mut txn = store.begin_transaction(OWNER);
    assert!(txn.clear::<Count>().is_none());
}

#[test]
fn txn_clear_returns_previous_value() {
    let mut store = Store::new();
    let mut txn = store.begin_transaction(OWNER);
    txn.insert::<Count>(3);
    assert_eq!(txn.clear::<Count>(), Some(3));
}

#[test]
fn txn_clear_makes_get_return_none() {
    let mut store = Store::new();
    let mut txn = store.begin_transaction(OWNER);
    txn.insert::<Count>(1);
    txn.clear::<Count>();
    assert!(txn.get::<Count>().is_none());
}

#[test]
fn txn_double_clear_returns_none() {
    let mut store = Store::new();
    let mut txn = store.begin_transaction(OWNER);
    txn.insert::<Count>(1);
    txn.clear::<Count>();
    assert!(txn.clear::<Count>().is_none());
}

#[test]
fn txn_writes_visible_after_drop() {
    let mut store = Store::new();
    let mut txn = store.begin_transaction(OWNER);
    txn.insert::<Count>(42);
    txn.commit().unwrap();

    assert_eq!(store.get::<Count>(OWNER), Some(42));
}

#[test]
fn txn_table_writes_visible_after_drop() {
    let mut store = Store::new();
    let mut txn = store.begin_transaction(OWNER);
    txn.table::<Items>().insert("k", "v".to_owned());
    txn.commit().unwrap();

    assert_eq!(store.table::<Items>(OWNER).get(&"k"), Some("v".to_owned()));
}

#[test]
fn txn_mutate_visible_after_drop() {
    let mut store = Store::new();
    store.insert::<Count>(OWNER, 1);
    let mut txn = store.begin_transaction(OWNER);
    txn.mutate::<Count, ()>(|v| *v = 100);
    txn.commit().unwrap();

    assert_eq!(store.get::<Count>(OWNER), Some(100));
}

#[test]
fn txn_table_init_succeeds() {
    let mut store = Store::new();
    let mut txn = store.begin_transaction(OWNER);
    let mut table = txn.table::<Items>();
    assert!(table.init().is_ok());
}

#[test]
fn txn_table_init_second_call_err() {
    let mut store = Store::new();
    let mut txn = store.begin_transaction(OWNER);
    let mut table = txn.table::<Items>();
    table.init().unwrap();
    let err = table.init().unwrap_err();
    assert!(matches!(err, Error::AlreadyInit(o) if o == OWNER));
}

#[test]
fn txn_table_get_returns_none_when_absent() {
    let mut store = Store::new();
    let mut txn = store.begin_transaction(OWNER);
    let table = txn.table::<Items>();
    assert!(table.get(&"missing").is_none());
}

#[test]
fn txn_table_insert_returns_none_on_first() {
    let mut store = Store::new();
    let mut txn = store.begin_transaction(OWNER);
    let mut table = txn.table::<Items>();
    assert!(table.insert("k", "v".to_owned()).is_none());
}

#[test]
fn txn_table_insert_returns_previous() {
    let mut store = Store::new();
    let mut txn = store.begin_transaction(OWNER);
    let mut table = txn.table::<Items>();
    table.insert("k", "v1".to_owned());
    assert_eq!(table.insert("k", "v2".to_owned()), Some("v1".to_owned()));
}

#[test]
fn txn_table_get_returns_value_after_insert() {
    let mut store = Store::new();
    let mut txn = store.begin_transaction(OWNER);
    let mut table = txn.table::<Items>();
    table.insert("k", "val".to_owned());
    assert_eq!(table.get(&"k"), Some("val".to_owned()));
}

#[test]
fn txn_table_with_returns_none_and_does_not_call_f_when_absent() {
    let mut store = Store::new();
    let mut txn = store.begin_transaction(OWNER);
    let table = txn.table::<Items>();
    let mut called = false;
    let result = table.with(
        |_| {
            called = true;
        },
        &"missing",
    );
    assert!(result.is_none());
    assert!(!called);
}

#[test]
fn txn_table_with_returns_some_after_insert() {
    let mut store = Store::new();
    let mut txn = store.begin_transaction(OWNER);
    let mut table = txn.table::<Items>();
    table.insert("k", "val".to_owned());
    assert_eq!(table.with(|s| s.len(), &"k"), Some(3));
}

#[test]
fn txn_table_mutate_returns_none_when_absent() {
    let mut store = Store::new();
    let mut txn = store.begin_transaction(OWNER);
    let mut table = txn.table::<Items>();
    table.init().unwrap();
    assert!(table.mutate(&"missing", |v| v.len()).is_none());
}

#[test]
fn txn_table_mutate_modifies_value() {
    let mut store = Store::new();
    let mut txn = store.begin_transaction(OWNER);
    let mut table = txn.table::<Items>();
    table.insert("k", "hello".to_owned());
    table.mutate(&"k", |v| v.push('!'));
    assert_eq!(table.get(&"k"), Some("hello!".to_owned()));
}

#[test]
fn txn_table_remove_returns_none_when_absent() {
    let mut store = Store::new();
    let mut txn = store.begin_transaction(OWNER);
    let mut table = txn.table::<Items>();
    assert!(table.remove(&"missing").is_none());
}

#[test]
fn txn_table_remove_returns_previous_value() {
    let mut store = Store::new();
    let mut txn = store.begin_transaction(OWNER);
    let mut table = txn.table::<Items>();
    table.insert("k", "v".to_owned());
    assert_eq!(table.remove(&"k"), Some("v".to_owned()));
}

#[test]
fn txn_table_remove_makes_get_return_none() {
    let mut store = Store::new();
    let mut txn = store.begin_transaction(OWNER);
    let mut table = txn.table::<Items>();
    table.insert("k", "v".to_owned());
    table.remove(&"k");
    assert!(table.get(&"k").is_none());
}

#[test]
fn txn_table_clear_removes_all_rows() {
    let mut store = Store::new();
    let mut txn = store.begin_transaction(OWNER);
    let mut table = txn.table::<Items>();
    table.insert("a", "alpha".to_owned());
    table.insert("b", "beta".to_owned());
    table.insert("c", "gamma".to_owned());
    table.clear();
    assert!(table.is_empty());
}

#[test]
fn txn_table_is_empty_on_fresh_store() {
    let mut store = Store::new();
    let mut txn = store.begin_transaction(OWNER);
    let table = txn.table::<Items>();
    assert!(table.is_empty());
}

#[test]
fn txn_table_len_reflects_inserts() {
    let mut store = Store::new();
    let mut txn = store.begin_transaction(OWNER);
    let mut table = txn.table::<Items>();
    table.insert("a", "alpha".to_owned());
    table.insert("b", "beta".to_owned());
    assert_eq!(table.len(), 2);
}

#[test]
fn txn_table_iter_empty() {
    let mut store = Store::new();
    let mut txn = store.begin_transaction(OWNER);
    let table = txn.table::<Items>();
    assert_eq!(table.iter().count(), 0);
}

#[test]
fn txn_table_iter_yields_inserted_rows() {
    let mut store = Store::new();
    let mut txn = store.begin_transaction(OWNER);
    let mut table = txn.table::<Items>();
    table.insert("a", "alpha".to_owned());
    table.insert("b", "beta".to_owned());
    let mut items: Vec<_> = Vec::new();
    let mut rows = table.iter();
    while let Some((&k, v)) = rows.next() {
        items.push((k, v.clone()));
    }
    items.sort();
    assert_eq!(
        items,
        vec![("a", "alpha".to_owned()), ("b", "beta".to_owned())]
    );
}

#[test]
fn ro_txn_get_returns_none_when_absent() {
    let store = Store::new();
    let txn = store.begin_ro_transaction(OWNER);
    assert!(txn.get::<Count>().is_none());
}

#[test]
fn ro_txn_get_returns_value_inserted_before_txn() {
    let mut store = Store::new();
    store.insert::<Count>(OWNER, 42);
    let txn = store.begin_ro_transaction(OWNER);
    assert_eq!(txn.get::<Count>(), Some(42));
}

#[test]
fn ro_txn_get_arc_returns_none_when_absent() {
    let store = Store::new();
    let txn = store.begin_ro_transaction(OWNER);
    assert!(txn.get_arc::<Shared>().is_none());
}

#[test]
fn ro_txn_get_arc_returns_arc() {
    let mut store = Store::new();
    store.insert::<Shared>(OWNER, Arc::new("hello".to_owned()));
    let txn = store.begin_ro_transaction(OWNER);
    let arc = txn.get_arc::<Shared>().unwrap();
    assert_eq!(*arc, "hello");
}

#[test]
fn ro_txn_with_returns_none_and_does_not_call_f_when_absent() {
    let store = Store::new();
    let txn = store.begin_ro_transaction(OWNER);
    let mut called = false;
    let result = txn.with::<Count, ()>(|_| {
        called = true;
    });
    assert!(result.is_none());
    assert!(!called);
}

#[test]
fn ro_txn_with_returns_some_after_insert() {
    let mut store = Store::new();
    store.insert::<Count>(OWNER, 4);
    let txn = store.begin_ro_transaction(OWNER);
    assert_eq!(txn.with::<Count, _>(|v| v * 2), Some(8));
}

#[test]
fn ro_txn_table_get_returns_none_when_absent() {
    let store = Store::new();
    let txn = store.begin_ro_transaction(OWNER);
    let table = txn.table::<Items>();
    assert!(table.get(&"missing").is_none());
}

#[test]
fn ro_txn_table_get_returns_value_inserted_before_txn() {
    let mut store = Store::new();
    store.table::<Items>(OWNER).insert("k", "val".to_owned());
    let txn = store.begin_ro_transaction(OWNER);
    let table = txn.table::<Items>();
    assert_eq!(table.get(&"k"), Some("val".to_owned()));
}

#[test]
fn ro_txn_table_with_returns_none_and_does_not_call_f_when_absent() {
    let store = Store::new();
    let txn = store.begin_ro_transaction(OWNER);
    let table = txn.table::<Items>();
    let mut called = false;
    let result = table.with(
        |_| {
            called = true;
        },
        &"missing",
    );
    assert!(result.is_none());
    assert!(!called);
}

#[test]
fn ro_txn_table_with_returns_some() {
    let mut store = Store::new();
    store.table::<Items>(OWNER).insert("k", "val".to_owned());
    let txn = store.begin_ro_transaction(OWNER);
    let table = txn.table::<Items>();
    assert_eq!(table.with(|s| s.len(), &"k"), Some(3));
}

#[test]
fn ro_txn_table_len_zero_when_empty() {
    let store = Store::new();
    let txn = store.begin_ro_transaction(OWNER);
    let table = txn.table::<Items>();
    assert_eq!(table.len(), 0);
}

#[test]
fn ro_txn_table_len_reflects_pre_txn_inserts() {
    let mut store = Store::new();
    store.table::<Items>(OWNER).insert("a", "alpha".to_owned());
    store.table::<Items>(OWNER).insert("b", "beta".to_owned());
    let txn = store.begin_ro_transaction(OWNER);
    let table = txn.table::<Items>();
    assert_eq!(table.len(), 2);
}

#[test]
fn ro_txn_table_is_empty_true_when_no_rows() {
    let store = Store::new();
    let txn = store.begin_ro_transaction(OWNER);
    let table = txn.table::<Items>();
    assert!(table.is_empty());
}

#[test]
fn ro_txn_table_is_empty_false_after_inserts() {
    let mut store = Store::new();
    store.table::<Items>(OWNER).insert("k", "v".to_owned());
    let txn = store.begin_ro_transaction(OWNER);
    let table = txn.table::<Items>();
    assert!(!table.is_empty());
}

#[test]
fn ro_txn_table_iter_empty() {
    let store = Store::new();
    let txn = store.begin_ro_transaction(OWNER);
    let table = txn.table::<Items>();
    assert_eq!(table.iter().count(), 0);
}

#[test]
fn ro_txn_table_iter_yields_pre_txn_rows() {
    let mut store = Store::new();
    store.table::<Items>(OWNER).insert("a", "alpha".to_owned());
    store.table::<Items>(OWNER).insert("b", "beta".to_owned());
    let txn = store.begin_ro_transaction(OWNER);
    let table = txn.table::<Items>();
    let mut items: Vec<_> = Vec::new();
    let mut rows = table.iter();
    while let Some((&k, v)) = rows.next() {
        items.push((k, v.clone()));
    }
    items.sort();
    assert_eq!(
        items,
        vec![("a", "alpha".to_owned()), ("b", "beta".to_owned())]
    );
}
