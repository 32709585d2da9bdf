# ts_kvstore

An in-memory key/value store with typed singleton values and typed tables, each
with an owner, verified with Verus.

## Layout

- `src/schema.rs`: the schema traits. `Singleton` names a singleton key and its
  representation class (`U64Class`, `BoxClass`, `ArcClass`, `RefClass`);
  `TableDesc` names a table, its key and value types and its position in the
  store's table list (`Here`, `There<..>`); `IndexDesc` makes a table an index
  of another one.
- `src/storage.rs`: `Table` (rows without duplicate keys, with an owner) and
  `Storage` (the singleton map and the tables), with their models.
- `src/raw.rs`: direct access to a `KvStore` by owner.
- `src/transactions.rs`: read-write and read-only transactions.
- `src/iter.rs`: iterators over a table and over an index.
- `src/index.rs`: tables kept as an index of a base table.
- `src/properties.rs`: the laws of the store, stated over the models.
- `src/hasher.rs`: the hasher for `u64` keys.

## Declaring a schema

A schema is written with plain trait impls:

```rust
struct Count;
impl Singleton<String> for Count {
    type Class = U64Class;
    const KEY: u64 = 1;
}

struct Nodes;
type TableStorage = Tables<String, (Table<u32, String>, ())>;
impl TableDesc for Nodes {
    type Key = u32;
    type Value = String;
    type Storage = TableStorage;
    type Position = Here;
    const NAME: &'static str = "Nodes";
}

let mut store = KvStore::<TableStorage>::new();
store.insert::<Count>("owner", 42);
store.table::<Nodes>("owner").insert(4, "a".to_owned());
```

## Design notes

- Table rows are held in a `Vec` of key/value pairs whose keys all differ (a type invariant),
  viewed as a `Map` from the view of the key to the value. vstd specifies `HashMap` only for
  key types whose hashing and equality it models, which a generic table key cannot be shown to
  be; the `Vec` lets every table operation be proved for any key type with a `TableKey` impl.
  Singletons, keyed by a `u64`, are held in a `HashMap`.
- Singletons are told apart by their `KEY`; each singleton of a store must have a key of its
  own. Values stored boxed, shared or by static reference all have the store's payload type
  `P` (`GeneratedStorage::Payload`); a `u64` singleton is stored inline.
- An `IndexDesc` table is kept up to date by the writes made through `KvTableIndex` for that
  index; a base table with several indexes has each updated through its own `KvTableIndex`.
- Access is by borrow: a transaction holds the store mutably, a read-only transaction holds it
  shared, so `try_begin_transaction` and `try_begin_ro_transaction` always succeed.
- A table without an owner gets one from the first `insert` or `clear` made through a
  `KvTable`; `mutate` and `remove` leave the owner as it is.
