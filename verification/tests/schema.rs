use std::sync::Arc;
use ts_kvstore::schema::{ArcClass, BoxClass, RefClass, Singleton, Tables, U64Class};
use ts_kvstore::KvStore;

struct Foo;

impl Singleton<u64> for Foo {
    type Class = BoxClass;
    const KEY: u64 = 1;
}

struct Bar;

impl Singleton<u64> for Bar {
    type Class = ArcClass;
    const KEY: u64 = 2;
}

struct Baz;

impl Singleton<u64> for Baz {
    type Class = RefClass;
    const KEY: u64 = 3;
}

struct Qux;

impl Singleton<u64> for Qux {
    type Class = U64Class;
    const KEY: u64 = 4;
}

type TableStorage = Tables<u64, ()>;

#[test]
fn single() {
    assert_eq!(&42, Foo::from_value_ref(&Foo::to_value(42)));
    assert_eq!(&42, Bar::from_value_ref(&Bar::to_value(Arc::new(42))));
    assert_eq!(&42, Baz::from_value_ref(&Baz::to_value(&42)));
    assert_eq!(&42, Qux::from_value_ref(&Qux::to_value(42)));

    let mut store = KvStore::<TableStorage>::new();
    store.insert::<Foo>("owner", 42);
    assert_eq!(store.get::<Foo>("owner").unwrap(), 42);
}

#[test]
fn from_value_gives_back_what_to_value_stored() {
    assert_eq!(42, Foo::from_value(Foo::to_value(42)));
    assert_eq!(42, *Bar::from_value(Bar::to_value(Arc::new(42))));
    assert_eq!(&42, Baz::from_value(Baz::to_value(&42)));
    assert_eq!(42, Qux::from_value(Qux::to_value(42)));
}

#[test]
fn each_storage_class_round_trips_through_the_store() {
    let mut store = KvStore::<TableStorage>::new();
    assert!(store.insert::<Foo>("owner", 1).is_none());
    assert!(store.insert::<Bar>("owner", Arc::new(2)).is_none());
    assert!(store.insert::<Baz>("owner", &3).is_none());
    assert!(store.insert::<Qux>("owner", 4).is_none());
    assert_eq!(store.get::<Foo>("owner"), Some(1));
    assert_eq!(store.get::<Bar>("owner"), Some(2));
    assert_eq!(store.get::<Baz>("owner"), Some(3));
    assert_eq!(store.get::<Qux>("owner"), Some(4));
    assert_eq!(store.remove::<Foo>("owner"), Some(1));
    assert_eq!(*store.remove::<Bar>("owner").unwrap(), 2);
    assert_eq!(store.remove::<Baz>("owner"), Some(&3));
    assert_eq!(store.remove::<Qux>("owner"), Some(4));
    assert!(store.get::<Foo>("owner").is_none());
    assert!(store.get::<Qux>("owner").is_none());
}
