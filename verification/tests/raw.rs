use std::sync::Arc;
use ts_kvstore::schema::{
    ArcClass, ArcSingleton, BoxClass, Here, MutSingleton, Singleton, TableDesc, Tables, There,
    U64Class,
};
use ts_kvstore::storage::Table;
use ts_kvstore::{Error, KvStore};

struct Count;

impl Singleton<String> for Count {
    type Class = U64Class;
    const KEY: u64 = 1;
}

impl MutSingleton<String> for Count {}

struct Shared;

impl Singleton<String> for Shared {
    type Class = ArcClass;
    const KEY: u64 = 2;
}

impl ArcSingleton<String> for Shared {}

struct Name;

impl Singleton<String> for Name {
    type Class = BoxClass;
    const KEY: u64 = 3;
}

impl MutSingleton<String> for Name {}

struct Nodes;

struct Edges;

type TableStorage = Tables<String, (Table<u32, String>, (Table<String, (u32, u32)>, ()))>;

impl TableDesc for Nodes {
    type Key = u32;
    type Value = String;
    type Storage = TableStorage;
    type Position = Here;
    const NAME: &'static str = "Nodes";
}

impl TableDesc for Edges {
    type Key = String;
    type Value = (u32, u32);
    type Storage = TableStorage;
    type Position = There<Here>;
    const NAME: &'static str = "Edges";
}

type Store = KvStore<TableStorage>;

const OWNER: &str = "owner";

#[test]
fn raw_insert_returns_previous_value() {
    let mut store = Store::new();
    assert!(store.insert::<Count>(OWNER, 1).is_none());
    assert_eq!(store.insert::<Count>(OWNER, 2), Some(1));
    assert_eq!(store.get::<Count>(OWNER), Some(2));
}

#[test]
fn raw_clear_leaves_a_tombstone() {
    let mut store = Store::new();
    store.insert::<Count>(OWNER, 3);
    assert_eq!(store.clear::<Count>(OWNER), Some(3));
    assert!(store.get::<Count>(OWNER).is_none());
    assert!(store.clear::<Count>(OWNER).is_none());
    assert!(store.insert::<Count>(OWNER, 4).is_none());
    assert_eq!(store.get::<Count>(OWNER), Some(4));
}

#[test]
fn raw_clear_initializes_without_value() {
    let mut store = Store::new();
    assert!(store.clear::<Count>(OWNER).is_none());
    assert!(store.get::<Count>(OWNER).is_none());
    let mut txn = store.begin_transaction(OWNER);
    assert!(txn.insert::<Count>(9).is_none());
    assert_eq!(txn.get::<Count>(), Some(9));
}

#[test]
fn raw_remove_gives_back_and_forgets_value() {
    let mut store = Store::new();
    store.insert::<Count>(OWNER, 7);
    assert_eq!(store.remove::<Count>(OWNER), Some(7));
    assert!(store.remove::<Count>(OWNER).is_none());
    assert!(store.get::<Count>(OWNER).is_none());
}

#[test]
fn raw_with_and_mutate() {
    let mut store = Store::new();
    let mut called = false;
    assert!(store
        .with::<Count, ()>(OWNER, |_| {
            called = true;
        })
        .is_none());
    assert!(!called);
    assert!(store.mutate::<Count, ()>(OWNER, |v| *v = 1).is_none());
    store.insert::<Count>(OWNER, 20);
    assert_eq!(store.with::<Count, _>(OWNER, |v| v + 1), Some(21));
    assert_eq!(
        store.mutate::<Count, _>(OWNER, |v| {
            *v *= 2;
            *v
        }),
        Some(40)
    );
    assert_eq!(store.get::<Count>(OWNER), Some(40));
}

#[test]
fn raw_boxed_value_mutates_in_place() {
    let mut store = Store::new();
    store.insert::<Name>(OWNER, "ab".to_owned());
    assert_eq!(store.mutate::<Name, _>(OWNER, |s| {
        s.push('c');
        s.len()
    }), Some(3));
    assert_eq!(store.get::<Name>(OWNER), Some("abc".to_owned()));
    assert_eq!(store.remove::<Name>(OWNER), Some("abc".to_owned()));
}

#[test]
fn raw_get_arc_shares_allocation() {
    let mut store = Store::new();
    assert!(store.get_arc::<Shared>(OWNER).is_none());
    let a = Arc::new("shared".to_owned());
    store.insert::<Shared>(OWNER, a.clone());
    let b = store.get_arc::<Shared>(OWNER).unwrap();
    assert!(Arc::ptr_eq(&a, &b));
    assert_eq!(store.get::<Shared>(OWNER), Some("shared".to_owned()));
}

#[test]
fn raw_singletons_are_separate() {
    let mut store = Store::new();
    store.insert::<Count>(OWNER, 1);
    store.insert::<Name>(OWNER, "n".to_owned());
    store.remove::<Count>(OWNER);
    assert_eq!(store.get::<Name>(OWNER), Some("n".to_owned()));
}

#[test]
fn raw_table_init_once() {
    let mut store = Store::new();
    assert!(store.table::<Nodes>(OWNER).init().is_ok());
    let err = store.table::<Nodes>("other").init().unwrap_err();
    assert!(matches!(err, Error::AlreadyInit(o) if o == OWNER));
    assert!(store.table::<Edges>("other").init().is_ok());
}

#[test]
fn raw_table_operations() {
    let mut store = Store::new();
    let mut nodes = store.table::<Nodes>(OWNER);
    assert!(nodes.is_empty());
    assert!(nodes.insert(4, "a".to_owned()).is_none());
    assert!(nodes.insert(0, "b".to_owned()).is_none());
    assert!(nodes.insert(10, "c".to_owned()).is_none());
    assert_eq!(nodes.insert(4, "d".to_owned()), Some("a".to_owned()));
    assert_eq!(nodes.len(), 3);
    assert_eq!(nodes.get(&4), Some("d".to_owned()));
    assert_eq!(nodes.with(|s| s.len(), &10), Some(1));
    assert!(nodes.with(|s| s.len(), &11).is_none());
    assert_eq!(nodes.remove(&0), Some("b".to_owned()));
    assert!(nodes.remove(&0).is_none());
    assert_eq!(nodes.len(), 2);
    nodes.clear();
    assert!(nodes.is_empty());
    assert_eq!(nodes.len(), 0);
}

#[test]
fn raw_table_mutate_with_borrowed_key() {
    let mut store = Store::new();
    let mut edges = store.table::<Edges>(OWNER);
    edges.insert("Z".to_owned(), (400, 400));
    edges.mutate(&"Z".to_owned(), |(a, b)| {
        *a += 1;
        *b += 1;
    });
    assert_eq!(edges.get(&"Z".to_owned()), Some((401, 401)));
    assert!(edges.mutate(&"Y".to_owned(), |(a, _)| *a).is_none());
}

#[test]
fn raw_table_iter_yields_each_row_once() {
    let mut store = Store::new();
    let mut nodes = store.table::<Nodes>(OWNER);
    nodes.insert(4, "a".to_owned());
    nodes.insert(0, "b".to_owned());
    nodes.insert(4, "c".to_owned());
    let mut rows: Vec<(u32, String)> = Vec::new();
    let mut it = nodes.iter();
    while let Some((k, v)) = it.next() {
        rows.push((*k, v.clone()));
    }
    rows.sort();
    assert_eq!(rows, vec![(0, "b".to_owned()), (4, "c".to_owned())]);
}

#[test]
fn raw_clear_keeps_table_owner() {
    let mut store = Store::new();
    store.table::<Nodes>(OWNER).init().unwrap();
    store.table::<Nodes>(OWNER).insert(1, "x".to_owned());
    store.table::<Nodes>(OWNER).clear();
    let err = store.table::<Nodes>("other").init().unwrap_err();
    assert!(matches!(err, Error::AlreadyInit(o) if o == OWNER));
}

#[test]
fn txn_table_write_sets_owner_of_fresh_table() {
    let mut store = Store::new();
    let mut txn = store.begin_transaction(OWNER);
    txn.table::<Nodes>().insert(1, "x".to_owned());
    let err = txn.table::<Nodes>().init().unwrap_err();
    assert!(matches!(err, Error::AlreadyInit(o) if o == OWNER));
    txn.commit().unwrap();
    assert_eq!(store.table::<Nodes>(OWNER).len(), 1);
}

#[test]
fn txn_clear_sets_owner() {
    let mut store = Store::new();
    let mut txn = store.begin_transaction(OWNER);
    txn.clear::<Count>();
    txn.commit().unwrap();
    let mut txn = store.begin_transaction(OWNER);
    assert!(txn.insert::<Count>(5).is_none());
}

#[test]
fn smoke_nodes_and_edges() {
    let mut store = Store::new();
    assert!(store.insert::<Count>(OWNER, 42).is_none());

    let mut nodes = store.table::<Nodes>(OWNER);
    nodes.insert(4, "a".to_owned());
    nodes.insert(0, "b".to_owned());
    nodes.insert(10, "c".to_owned());
    nodes.insert(400, "d".to_owned());
    assert_eq!(nodes.len(), 4);

    let mut edges = store.table::<Edges>(OWNER);
    edges.insert("X".to_owned(), (0, 4));
    edges.insert("Y".to_owned(), (10, 4));
    edges.insert("Z".to_owned(), (400, 400));
    edges.mutate(&"Z".to_owned(), |(a, b)| {
        *a += 1;
        *b += 1;
    });
    let mut rows: Vec<(String, (u32, u32))> = Vec::new();
    let mut it = edges.iter();
    while let Some((k, v)) = it.next() {
        rows.push((k.clone(), *v));
    }

    let nodes = store.table::<Nodes>(OWNER);
    let mut lines: Vec<String> = Vec::new();
    for (k, (a, b)) in rows {
        let a_name = match nodes.get(&a) {
            Some(s) => format!(" ({s})"),
            None => String::new(),
        };
        let b_name = match nodes.get(&b) {
            Some(s) => format!(" ({s})"),
            None => String::new(),
        };
        lines.push(format!("{k}: {a}{a_name}, {b}{b_name}"));
    }
    lines.sort();
    assert_eq!(
        lines,
        vec![
            "X: 0 (b), 4 (a)".to_owned(),
            "Y: 10 (c), 4 (a)".to_owned(),
            "Z: 401, 401".to_owned(),
        ]
    );
    assert_eq!(store.get::<Count>(OWNER), Some(42));
}

#[test]
fn raw_first_write_sets_table_owner() {
    let mut store = Store::new();
    assert!(store.table::<Nodes>(OWNER).insert(1, "x".to_owned()).is_none());
    let err = store.table::<Nodes>("other").init().unwrap_err();
    assert!(matches!(err, Error::AlreadyInit(o) if o == OWNER));
    store.table::<Edges>(OWNER).clear();
    let err = store.table::<Edges>("other").init().unwrap_err();
    assert!(matches!(err, Error::AlreadyInit(o) if o == OWNER));
}

#[test]
fn raw_mutate_and_remove_leave_owner() {
    let mut store = Store::new();
    assert!(store.table::<Nodes>(OWNER).remove(&1).is_none());
    assert!(store.table::<Nodes>(OWNER).mutate(&1, |v| v.len()).is_none());
    assert!(store.table::<Nodes>("other").init().is_ok());
}
