use ts_kvstore::schema::{Here, TableDesc, Tables, There};
use ts_kvstore::storage::Table;
use ts_kvstore::KvStore;

struct Foo;

struct Bar;

type TableStorage = Tables<(), (Table<&'static str, String>, (Table<u32, Vec<String>>, ()))>;

impl TableDesc for Foo {
    type Key = &'static str;
    type Value = String;
    type Storage = TableStorage;
    type Position = Here;
    const NAME: &'static str = "Foo";
}

impl TableDesc for Bar {
    type Key = u32;
    type Value = Vec<String>;
    type Storage = TableStorage;
    type Position = There<Here>;
    const NAME: &'static str = "Bar";
}

#[test]
fn table() {
    let mut store = KvStore::<TableStorage>::new();

    store
        .table::<Foo>("owner")
        .insert("hello", "world".to_owned());
    assert_eq!(store.table::<Foo>("owner").get(&"hello").unwrap(), "world");

    store
        .table::<Bar>("owner")
        .insert(5, vec!["boo".to_owned(), "bang".to_owned()]);
    assert_eq!(
        store.table::<Bar>("owner").get(&5).unwrap(),
        vec!["boo".to_owned(), "bang".to_owned()]
    );
}

#[test]
fn tables_are_kept_apart() {
    let mut store = KvStore::<TableStorage>::new();
    store.table::<Foo>("owner").insert("a", "x".to_owned());
    store.table::<Bar>("owner").insert(1, vec!["y".to_owned()]);
    store.table::<Foo>("owner").clear();
    assert!(store.table::<Foo>("owner").is_empty());
    assert_eq!(store.table::<Bar>("owner").len(), 1);
    assert_eq!(store.table::<Bar>("owner").get(&1), Some(vec!["y".to_owned()]));
}

#[test]
fn string_keys_compare_by_content() {
    let mut store = KvStore::<TableStorage>::new();
    let owned = String::from("key");
    let leaked: &'static str = Box::leak(owned.into_boxed_str());
    store.table::<Foo>("owner").insert("key", "v".to_owned());
    assert_eq!(store.table::<Foo>("owner").get(&leaked), Some("v".to_owned()));
    assert_eq!(store.table::<Foo>("owner").insert(leaked, "w".to_owned()), Some("v".to_owned()));
    assert_eq!(store.table::<Foo>("owner").len(), 1);
}
