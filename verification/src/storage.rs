//! Where the data of a store lives: singleton values keyed by `u64` and the generated table
//! storage.
use vstd::prelude::*;

use crate::schema::{
    get_table, get_table_mut, TableOf, lemma_table_of_with_table, lemma_with_own_table, lemma_with_table_twice, table_of,
    with_table_of, ArcSingleton, GeneratedStorage, MutSingleton, MutStorageClass, Singleton,
    StorageClass, TableDesc, TableKey, Fresh,
};
use crate::singleton::{arg_of, holds, stored, taken, value_of};
use crate::{Error, Owner};
use std::collections::HashMap;
use std::sync::Arc;

verus! {

broadcast use vstd::std_specs::hash::group_hash_axioms;

/// Internal storage for singleton values.
pub enum SinValue<P: 'static> {
    /// Tombstone value. Used where we want to specify an owner but don't have a value yet.
    Empty,
    /// A single, inline `u64`.
    U64(u64),
    /// A boxed value.
    Box(Box<P>),
    /// A shared reference in the store.
    Arc(Arc<P>),
    /// A static reference in the store.
    Ref(&'static P),
}

/// Shares the allocation of an `Arc`: calls `Arc::clone`, which gives a new `Arc` pointing to the
/// same value.
#[verifier::external_body]
pub(crate) fn share<P>(a: &Arc<P>) -> (r: Arc<P>)
    ensures
        *r == **a,
{
    Arc::clone(a)
}

/// The keys of a sequence of rows, by view.
pub open spec fn row_keys<K: View, V>(rows: Seq<(K, V)>) -> Seq<K::V> {
    rows.map_values(|e: (K, V)| e.0@)
}

/// The map that a sequence of rows with distinct keys stands for.
pub open spec fn rows_map<K: View, V>(rows: Seq<(K, V)>) -> Map<K::V, V> {
    Map::new(
        |k: K::V| row_keys(rows).contains(k),
        |k: K::V| rows[row_keys(rows).index_of(k)].1,
    )
}

/// The row at `i` is in the map, under its key.
pub proof fn lemma_rows_map_index<K: View, V>(rows: Seq<(K, V)>, i: int)
    requires
        row_keys(rows).no_duplicates(),
        0 <= i < rows.len(),
    ensures
        rows_map(rows).contains_key(rows[i].0@),
        rows_map(rows)[rows[i].0@] == rows[i].1,
{
    let keys = row_keys(rows);
    assert(keys[i] == rows[i].0@);
    assert(keys.contains(rows[i].0@));
    let j = keys.index_of(rows[i].0@);
    assert(keys[j] == keys[i]);
}

/// A key that no row has is not in the map.
pub proof fn lemma_rows_map_absent<K: View, V>(rows: Seq<(K, V)>, k: K::V)
    requires
        forall|i: int| 0 <= i < rows.len() ==> rows[i].0@ != k,
    ensures
        !rows_map(rows).contains_key(k),
{
    if row_keys(rows).contains(k) {
        let i = choose|i: int| 0 <= i < row_keys(rows).len() && row_keys(rows)[i] == k;
        assert(rows[i].0@ == k);
    }
}

/// The map has as many keys as there are rows, and finitely many.
pub proof fn lemma_rows_map_len<K: View, V>(rows: Seq<(K, V)>)
    requires
        row_keys(rows).no_duplicates(),
    ensures
        rows_map(rows).dom().finite(),
        rows_map(rows).len() == rows.len(),
{
    let keys = row_keys(rows);
    assert(rows_map(rows).dom() =~= keys.to_set());
    keys.unique_seq_to_set();
    vstd::seq_lib::seq_to_set_is_finite(keys);
}

/// Adding a row with a new key adds that key to the map.
pub proof fn lemma_rows_map_push<K: View, V>(rows: Seq<(K, V)>, row: (K, V))
    requires
        row_keys(rows).no_duplicates(),
        !rows_map(rows).contains_key(row.0@),
    ensures
        row_keys(rows.push(row)).no_duplicates(),
        rows_map(rows.push(row)) == rows_map(rows).insert(row.0@, row.1),
{
    let s = rows.push(row);
    assert(row_keys(s) =~= row_keys(rows).push(row.0@));
    assert forall|i: int| 0 <= i < rows.len() implies rows[i].0@ != row.0@ by {
        lemma_rows_map_index(rows, i);
    }
    assert(row_keys(s).no_duplicates());
    assert forall|k: K::V| #[trigger] rows_map(s).contains_key(k) == rows_map(rows).insert(
        row.0@,
        row.1,
    ).contains_key(k) by {
        if k == row.0@ {
            assert(row_keys(s)[rows.len() as int] == k);
        } else if row_keys(rows).contains(k) {
            let i = choose|i: int| 0 <= i < row_keys(rows).len() && row_keys(rows)[i] == k;
            assert(row_keys(s)[i] == k);
        } else if row_keys(s).contains(k) {
            let i = choose|i: int| 0 <= i < row_keys(s).len() && row_keys(s)[i] == k;
            assert(row_keys(rows)[i] == k);
        }
    }
    assert forall|k: K::V| #[trigger] rows_map(s).contains_key(k) implies rows_map(s)[k]
        == rows_map(rows).insert(row.0@, row.1)[k] by {
        if k == row.0@ {
            lemma_rows_map_index(s, rows.len() as int);
        } else {
            let i = choose|i: int| 0 <= i < row_keys(rows).len() && row_keys(rows)[i] == k;
            lemma_rows_map_index(s, i);
            lemma_rows_map_index(rows, i);
        }
    }
    assert(rows_map(s) =~= rows_map(rows).insert(row.0@, row.1));
}

/// Removing the row at `i` removes its key from the map.
pub proof fn lemma_rows_map_remove<K: View, V>(rows: Seq<(K, V)>, i: int)
    requires
        row_keys(rows).no_duplicates(),
        0 <= i < rows.len(),
    ensures
        row_keys(rows.remove(i)).no_duplicates(),
        rows_map(rows.remove(i)) == rows_map(rows).remove(rows[i].0@),
{
    let s = rows.remove(i);
    let k0 = rows[i].0@;
    assert(row_keys(s) =~= row_keys(rows).remove(i));
    assert forall|a: int, b: int| 0 <= a < b < row_keys(s).len() implies row_keys(s)[a]
        != row_keys(s)[b] by {
        let a0 = if a < i {
            a
        } else {
            a + 1
        };
        let b0 = if b < i {
            b
        } else {
            b + 1
        };
        assert(row_keys(s)[a] == row_keys(rows)[a0]);
        assert(row_keys(s)[b] == row_keys(rows)[b0]);
    }
    assert(row_keys(s).no_duplicates());
    assert forall|k: K::V| #[trigger] rows_map(s).contains_key(k) == rows_map(rows).remove(
        k0,
    ).contains_key(k) by {
        if row_keys(s).contains(k) {
            let j = choose|j: int| 0 <= j < row_keys(s).len() && row_keys(s)[j] == k;
            let j0 = if j < i {
                j
            } else {
                j + 1
            };
            assert(row_keys(rows)[j0] == k);
            assert(row_keys(rows)[i] == k0);
        }
        if k != k0 && row_keys(rows).contains(k) {
            let j = choose|j: int| 0 <= j < row_keys(rows).len() && row_keys(rows)[j] == k;
            assert(j != i);
            if j < i {
                assert(row_keys(s)[j] == k);
            } else {
                assert(row_keys(s)[j - 1] == k);
            }
        }
    }
    assert forall|k: K::V| #[trigger] rows_map(s).contains_key(k) implies rows_map(s)[k]
        == rows_map(rows).remove(k0)[k] by {
        let j = choose|j: int| 0 <= j < row_keys(s).len() && row_keys(s)[j] == k;
        let j0 = if j < i {
            j
        } else {
            j + 1
        };
        assert(s[j] == rows[j0]);
        lemma_rows_map_index(s, j);
        lemma_rows_map_index(rows, j0);
    }
    assert(rows_map(s) =~= rows_map(rows).remove(k0));
}

/// Tabular data in the store: rows of values of type `V` under keys of type `K`. The storage of a
/// store holds one of these for each of its tables.
pub struct Table<K: TableKey, V> {
    /// Owner of the table.
    pub(crate) owner: Option<Owner>,
    /// The rows of the table, no two with the same key.
    pub(crate) data: Vec<(K, V)>,
}

impl<K: TableKey, V> Table<K, V> {
    #[verifier::type_invariant]
    pub(crate) closed spec fn keys_distinct(self) -> bool {
        row_keys(self.data@).no_duplicates()
    }

    /// The rows of the table, by the view of their keys.
    pub closed spec fn rows(self) -> Map<<K as View>::V, V> {
        rows_map(self.data@)
    }

    /// The owner of the table, if it has one.
    pub closed spec fn current_owner(self) -> Option<Owner> {
        self.owner
    }

    /// The rows of the table in the order in which they are held.
    pub closed spec fn row_seq(self) -> Seq<(K, V)> {
        self.data@
    }

    /// The rows that are held stand for the rows of the table.
    pub(crate) proof fn lemma_row_seq(self)
        requires
            self.keys_distinct(),
        ensures
            row_keys(self.row_seq()).no_duplicates(),
            self.rows() == rows_map(self.row_seq()),
            self.rows().dom().finite(),
            self.rows().len() == self.row_seq().len(),
    {
        lemma_rows_map_len(self.data@);
    }

    /// A table has finitely many rows.
    pub proof fn lemma_rows_finite(self)
        ensures
            self.rows().dom().finite(),
    {
        assert(self.rows().dom() =~= row_keys(self.data@).to_set());
        vstd::seq_lib::seq_to_set_is_finite(row_keys(self.data@));
    }

    /// An empty table without an owner.
    pub fn new() -> (t: Self)
        ensures
            t.rows() == Map::<<K as View>::V, V>::empty(),
            t.current_owner() is None,
    {
        let t = Table { owner: None, data: Vec::new() };
        assert(t.rows() =~= Map::<<K as View>::V, V>::empty());
        t
    }

    /// The position of the row with the given key.
    fn find(&self, key: &K) -> (r: Option<usize>)
        ensures
            match r {
                Some(i) => {
                    &&& i < self.data@.len()
                    &&& self.data@[i as int].0@ == key@
                    &&& self.rows().contains_key(key@)
                    &&& self.rows()[key@] == self.data@[i as int].1
                },
                None => !self.rows().contains_key(key@),
            },
    {
        proof {
            use_type_invariant(self);
        }
        let mut i: usize = 0;
        while i < self.data.len()
            invariant
                i <= self.data@.len(),
                row_keys(self.data@).no_duplicates(),
                forall|j: int| 0 <= j < i ==> self.data@[j].0@ != key@,
            decreases self.data@.len() - i,
        {
            if self.data[i].0.key_eq(key) {
                proof {
                    lemma_rows_map_index(self.data@, i as int);
                }
                return Some(i);
            }
            i = i + 1;
        }
        proof {
            lemma_rows_map_absent(self.data@, key@);
        }
        None
    }

    /// The value of the row with the given key.
    pub fn get_row(&self, key: &K) -> (r: Option<&V>)
        ensures
            match r {
                Some(v) => self.rows().contains_key(key@) && self.rows()[key@] == *v,
                None => !self.rows().contains_key(key@),
            },
    {
        match self.find(key) {
            Some(i) => Some(&self.data[i].1),
            None => None,
        }
    }

    /// Takes the owner and the rows out of the table, leaving it empty.
    fn take_parts(&mut self) -> (r: (Option<Owner>, Vec<(K, V)>))
        ensures
            r.0 == old(self).owner,
            r.1@ == old(self).data@,
            row_keys(r.1@).no_duplicates(),
    {
        proof {
            use_type_invariant(&*self);
        }
        let mut parts = Table::new();
        std::mem::swap(self, &mut parts);
        let Table { owner, data } = parts;
        (owner, data)
    }

    /// Inserts a row, replacing the row with the same key. Returns the value that was replaced.
    pub fn insert_row(&mut self, key: K, value: V) -> (r: Option<V>)
        ensures
            final(self).rows() == old(self).rows().insert(key@, value),
            final(self).current_owner() == old(self).current_owner(),
            r == (if old(self).rows().contains_key(key@) {
                Some(old(self).rows()[key@])
            } else {
                None
            }),
    {
        let found = self.find(&key);
        let (owner, mut data) = self.take_parts();
        let previous = match found {
            Some(i) => {
                proof {
                    lemma_rows_map_remove(data@, i as int);
                }
                let (_, v) = data.remove(i);
                Some(v)
            },
            None => None,
        };
        proof {
            lemma_rows_map_push(data@, (key, value));
        }
        data.push((key, value));
        *self = Table { owner, data };
        proof {
            assert(self.rows() =~= old(self).rows().insert(key@, value));
        }
        previous
    }

    /// Removes the row with the given key. Returns its value.
    pub fn remove_row(&mut self, key: &K) -> (r: Option<V>)
        ensures
            final(self).rows() == old(self).rows().remove(key@),
            final(self).current_owner() == old(self).current_owner(),
            !old(self).rows().contains_key(key@) ==> *final(self) == *old(self),
            r == (if old(self).rows().contains_key(key@) {
                Some(old(self).rows()[key@])
            } else {
                None
            }),
    {
        match self.find(key) {
            Some(i) => {
                let (owner, mut data) = self.take_parts();
                proof {
                    lemma_rows_map_remove(data@, i as int);
                }
                let (_, v) = data.remove(i);
                *self = Table { owner, data };
                Some(v)
            },
            None => {
                assert(self.rows() =~= old(self).rows().remove(key@));
                None
            },
        }
    }

    /// Calls `f` on mutable access to the value of the row with the given key; `f` is not called
    /// where there is no such row.
    pub fn mutate_row<T, F: FnOnce(&mut V) -> T>(&mut self, key: &K, f: F) -> (r:
        Option<T>)
        requires
            old(self).rows().contains_key(key@) ==> forall|m: &mut V|
                *m == old(self).rows()[key@] ==> #[trigger] call_requires(f, (m,)),
        ensures
            final(self).current_owner() == old(self).current_owner(),
            match r {
                Some(t) => {
                    &&& old(self).rows().contains_key(key@)
                    &&& exists|m: &mut V|
                        {
                            &&& *m == old(self).rows()[key@]
                            &&& call_ensures(f, (m,), t)
                            &&& final(self).rows() == old(self).rows().insert(key@, *final(m))
                        }
                },
                None => !old(self).rows().contains_key(key@) && *final(self) == *old(self),
            },
    {
        match self.find(key) {
            Some(i) => {
                let (owner, mut data) = self.take_parts();
                proof {
                    lemma_rows_map_remove(data@, i as int);
                }
                let (k, mut v) = data.remove(i);
                let r = f(&mut v);
                proof {
                    lemma_rows_map_push(data@, (k, v));
                }
                data.push((k, v));
                *self = Table { owner, data };
                proof {
                    assert(self.rows() =~= old(self).rows().insert(key@, v));
                }
                Some(r)
            },
            None => None,
        }
    }

    /// Removes all rows; the owner stays.
    pub fn clear_rows(&mut self)
        ensures
            final(self).rows() == Map::<<K as View>::V, V>::empty(),
            final(self).current_owner() == old(self).current_owner(),
    {
        let (owner, _) = self.take_parts();
        *self = Table { owner, data: Vec::new() };
        assert(self.rows() =~= Map::<<K as View>::V, V>::empty());
    }

    /// The number of rows.
    pub fn num_rows(&self) -> (r: usize)
        ensures
            r == self.rows().len(),
            self.rows().dom().finite(),
    {
        proof {
            use_type_invariant(self);
            self.lemma_row_seq();
        }
        self.data.len()
    }

    /// True if the table has no rows.
    pub fn has_no_rows(&self) -> (r: bool)
        ensures
            r == (self.rows().len() == 0),
            self.rows().dom().finite(),
    {
        proof {
            use_type_invariant(self);
            self.lemma_row_seq();
        }
        self.data.len() == 0
    }

    /// Sets the owner if the table has none; the table must not have another owner.
    pub fn assert_or_set_owner(&mut self, owner: Owner)
        requires
            old(self).current_owner() matches Some(prev) ==> prev == owner,
        ensures
            final(self).current_owner() == Some(owner),
            final(self).rows() == old(self).rows(),
    {
        proof {
            use_type_invariant(&*self);
        }
        match &self.owner {
            Some(_) => {},
            None => {
                self.owner = Some(owner);
            },
        }
    }

    /// Checks the owner; the table must not have another owner.
    pub fn assert_owner(&mut self, owner: Owner)
        requires
            old(self).current_owner() matches Some(prev) ==> prev == owner,
        ensures
            *final(self) == *old(self),
    {
    }

    /// Sets the owner of a table that has none; returns the current owner of one that has one.
    pub fn init_owner(&mut self, owner: Owner) -> (r: Result<(), Error>)
        ensures
            final(self).rows() == old(self).rows(),
            match old(self).current_owner() {
                Some(prev) => r == Err::<(), Error>(Error::AlreadyInit(prev)) && *final(self)
                    == *old(self),
                None => r is Ok && final(self).current_owner() == Some(owner),
            },
    {
        proof {
            use_type_invariant(&*self);
        }
        match self.owner {
            Some(prev) => Err(Error::AlreadyInit(prev)),
            None => {
                self.owner = Some(owner);
                Ok(())
            },
        }
    }
}

impl<K: TableKey, V> Fresh for Table<K, V> {
    open spec fn is_fresh(self) -> bool {
        &&& self.rows() == Map::<<K as View>::V, V>::empty()
        &&& self.current_owner() is None
    }

    fn fresh() -> (r: Self) {
        Table::new()
    }
}

impl<K: TableKey, V> Default for Table<K, V> {
    fn default() -> (t: Self)
        ensures
            t.rows() == Map::<<K as View>::V, V>::empty(),
            t.current_owner() is None,
    {
        Table::new()
    }
}

/// Where a store keeps its data.
pub struct Storage<TableStorage: GeneratedStorage> {
    /// Singleton values with their owners, by the key of the singleton.
    pub(crate) singletons: HashMap<u64, (Owner, SinValue<TableStorage::Payload>)>,
    /// Storage for tabular data.
    pub(crate) tables: TableStorage,
}

impl<TableStorage: GeneratedStorage> Storage<TableStorage> {
    /// The singleton entries (owner and stored value) by key.
    pub closed spec fn singletons(self) -> Map<u64, (Owner, SinValue<TableStorage::Payload>)> {
        self.singletons@
    }

    /// The tables.
    pub closed spec fn tables(self) -> TableStorage {
        self.tables
    }

    /// The value of the singleton with the given key; a tombstone counts as no value.
    pub open spec fn singleton_value(self, key: u64) -> Option<SinValue<TableStorage::Payload>> {
        if self.singletons().contains_key(key) && !(self.singletons()[key].1 is Empty) {
            Some(self.singletons()[key].1)
        } else {
            None
        }
    }

    /// The owner of the singleton with the given key.
    pub open spec fn singleton_owner(self, key: u64) -> Option<Owner> {
        if self.singletons().contains_key(key) {
            Some(self.singletons()[key].0)
        } else {
            None
        }
    }

    /// The storage holds no data: no singletons, and tables all empty and without an owner.
    pub open spec fn is_fresh(self) -> bool {
        &&& self.singletons() == Map::<u64, (Owner, SinValue<TableStorage::Payload>)>::empty()
        &&& self.tables().list().is_fresh()
    }

    /// Create a new storage with no data.
    pub fn new() -> (s: Self)
        ensures
            s.is_fresh(),
    {
        Storage { singletons: HashMap::new(), tables: TableStorage::new_fresh() }
    }

    /// Retrieve the stored singleton value (a tombstone included) for the given key.
    pub(crate) fn get_singleton_value(&self, key: u64) -> (r: Option<
        &SinValue<TableStorage::Payload>,
    >)
        ensures
            match r {
                Some(v) => self.singletons().contains_key(key) && *v == self.singletons()[key].1,
                None => !self.singletons().contains_key(key),
            },
    {
        match self.singletons.get(&key) {
            Some(entry) => Some(&entry.1),
            None => None,
        }
    }

    /// Retrieve the owner of the singleton with the given key.
    pub(crate) fn get_singleton_owner(&self, key: u64) -> (r: Option<Owner>)
        ensures
            r == self.singleton_owner(key),
    {
        match self.singletons.get(&key) {
            Some(entry) => Some(entry.0),
            None => None,
        }
    }
}

impl<TableStorage: GeneratedStorage> Storage<TableStorage> {
    /// The value stored for singleton `D`, if any, has the form of `D`.
    pub open spec fn fits<D: Singleton<TableStorage::Payload>>(self) -> bool {
        self.singleton_value(D::KEY) matches Some(v) ==> holds::<TableStorage::Payload, D>(v)
    }

    /// Clones the value of singleton `D`.
    pub fn get_value<D: Singleton<TableStorage::Payload>>(&self) -> (r: Option<
        <D::Class as StorageClass<TableStorage::Payload>>::Value,
    >) where <D::Class as StorageClass<TableStorage::Payload>>::Value: Clone
        requires
            self.fits::<D>(),
        ensures
            match self.singleton_value(D::KEY) {
                Some(v) => r is Some && cloned(value_of::<TableStorage::Payload, D>(v), r->0),
                None => r is None,
            },
    {
        match self.singletons.get(&D::KEY) {
            Some(entry) => match &entry.1 {
                SinValue::Empty => None,
                v => Some(D::from_value_ref(v).clone()),
            },
            None => None,
        }
    }

    /// Calls `f` on the value of singleton `D`; `f` is not called where there is no value.
    pub fn with_value<D: Singleton<TableStorage::Payload>, T, F: FnOnce(
        &<D::Class as StorageClass<TableStorage::Payload>>::Value,
    ) -> T>(&self, f: F) -> (r: Option<T>)
        requires
            self.fits::<D>(),
            self.singleton_value(D::KEY) matches Some(v) ==> call_requires(
                f,
                (&value_of::<TableStorage::Payload, D>(v),),
            ),
        ensures
            match self.singleton_value(D::KEY) {
                Some(v) => r is Some && call_ensures(
                    f,
                    (&value_of::<TableStorage::Payload, D>(v),),
                    r->0,
                ),
                None => r is None,
            },
    {
        match self.singletons.get(&D::KEY) {
            Some(entry) => match &entry.1 {
                SinValue::Empty => None,
                v => Some(f(D::from_value_ref(v))),
            },
            None => None,
        }
    }

    /// Shares the `Arc` holding the value of singleton `D`.
    pub fn get_arc_value<D: ArcSingleton<TableStorage::Payload>>(&self) -> (r: Option<
        Arc<TableStorage::Payload>,
    >)
        requires
            self.fits::<D>(),
        ensures
            match self.singleton_value(D::KEY) {
                Some(v) => r is Some && *r->0 == *v->Arc_0,
                None => r is None,
            },
    {
        match self.singletons.get(&D::KEY) {
            Some(entry) => match &entry.1 {
                SinValue::Empty => None,
                v => Some(D::from_value_arc(v)),
            },
            None => None,
        }
    }

    /// Stores a value for singleton `D` under `owner`. Returns the previous value.
    pub fn insert_value<D: Singleton<TableStorage::Payload>>(
        &mut self,
        owner: Owner,
        value: <D::Class as StorageClass<TableStorage::Payload>>::ArgValue,
    ) -> (r: Option<<D::Class as StorageClass<TableStorage::Payload>>::ArgValue>)
        requires
            old(self).fits::<D>(),
        ensures
            final(self).singletons() == old(self).singletons().insert(
                D::KEY,
                (owner, stored::<TableStorage::Payload, D>(value)),
            ),
            final(self).tables() == old(self).tables(),
            final(self).fits::<D>(),
            r == taken::<TableStorage::Payload, D>(old(self).singleton_value(D::KEY)),
    {
        proof {
            <D::Class as StorageClass<TableStorage::Payload>>::lemma_stored(value);
        }
        let previous = self.singletons.insert(D::KEY, (owner, D::to_value(value)));
        match previous {
            Some((_, v)) => match v {
                SinValue::Empty => None,
                v => Some(D::from_value(v)),
            },
            None => None,
        }
    }

    /// Calls `f` on mutable access to the value of singleton `D`; `f` is not called where there
    /// is no value. The owner stays.
    pub fn mutate_value<D: MutSingleton<TableStorage::Payload>, T, F: FnOnce(
        &mut <D::Class as StorageClass<TableStorage::Payload>>::Value,
    ) -> T>(&mut self, f: F) -> (r: Option<T>)
        requires
            old(self).fits::<D>(),
            old(self).singleton_value(D::KEY) matches Some(v) ==> forall|
                m: &mut <D::Class as StorageClass<TableStorage::Payload>>::Value,
            | *m == value_of::<TableStorage::Payload, D>(v) ==> #[trigger] call_requires(f, (m,)),
        ensures
            final(self).tables() == old(self).tables(),
            final(self).fits::<D>(),
            match old(self).singleton_value(D::KEY) {
                Some(v) => {
                    &&& r is Some
                    &&& exists|m: &mut <D::Class as StorageClass<TableStorage::Payload>>::Value|
                        {
                            &&& *m == value_of::<TableStorage::Payload, D>(v)
                            &&& call_ensures(f, (m,), r->0)
                            &&& final(self).singletons() == old(self).singletons().insert(
                                D::KEY,
                                (
                                    old(self).singletons()[D::KEY].0,
                                    <D::Class as MutStorageClass<
                                        TableStorage::Payload,
                                    >>::stored_value(*final(m)),
                                ),
                            )
                        }
                },
                None => r is None && *final(self) == *old(self),
            },
    {
        let present = match self.singletons.get(&D::KEY) {
            Some(entry) => !(matches!(entry.1, SinValue::Empty)),
            None => false,
        };
        if !present {
            return None;
        }
        let (owner, stored_value) = match self.singletons.remove(&D::KEY) {
            Some(entry) => entry,
            None => vstd::pervasive::unreached(),
        };
        let mut value = <D::Class as MutStorageClass<TableStorage::Payload>>::take_value(
            stored_value,
        );
        let r = f(&mut value);
        let new_value = <D::Class as MutStorageClass<TableStorage::Payload>>::put_value(value);
        self.singletons.insert(D::KEY, (owner, new_value));
        proof {
            assert(self.singletons() =~= old(self).singletons().insert(D::KEY, (owner, new_value)));
        }
        Some(r)
    }

    /// Removes singleton `D`, its owner included. Returns the previous value.
    pub fn remove_value<D: Singleton<TableStorage::Payload>>(&mut self) -> (r: Option<
        <D::Class as StorageClass<TableStorage::Payload>>::ArgValue,
    >)
        requires
            old(self).fits::<D>(),
        ensures
            final(self).singletons() == old(self).singletons().remove(D::KEY),
            final(self).tables() == old(self).tables(),
            final(self).fits::<D>(),
            r == taken::<TableStorage::Payload, D>(old(self).singleton_value(D::KEY)),
    {
        match self.singletons.remove(&D::KEY) {
            Some((_, v)) => match v {
                SinValue::Empty => None,
                v => Some(D::from_value(v)),
            },
            None => None,
        }
    }

    /// Removes the value of singleton `D` while setting its owner to `owner`. Returns the
    /// previous value.
    pub fn clear_value<D: Singleton<TableStorage::Payload>>(&mut self, owner: Owner) -> (r: Option<
        <D::Class as StorageClass<TableStorage::Payload>>::ArgValue,
    >)
        requires
            old(self).fits::<D>(),
        ensures
            final(self).singletons() == old(self).singletons().insert(
                D::KEY,
                (owner, SinValue::Empty),
            ),
            final(self).tables() == old(self).tables(),
            final(self).fits::<D>(),
            r == taken::<TableStorage::Payload, D>(old(self).singleton_value(D::KEY)),
    {
        let previous = self.singletons.insert(D::KEY, (owner, SinValue::Empty));
        match previous {
            Some((_, v)) => match v {
                SinValue::Empty => None,
                v => Some(D::from_value(v)),
            },
            None => None,
        }
    }
}

/// The owner of a table after a write by `owner`: the owner it had, or `owner` where it had none.
pub open spec fn owner_after_write(prev: Option<Owner>, owner: Owner) -> Option<Owner> {
    match prev {
        Some(p) => Some(p),
        None => Some(owner),
    }
}

impl<TableStorage: GeneratedStorage> Storage<TableStorage> {
    /// The rows of table `D`.
    pub open spec fn rows_of<D: TableDesc<Storage = TableStorage>>(self) -> Map<
        <D::Key as View>::V,
        D::Value,
    > {
        table_of::<D>(self.tables()).rows()
    }

    /// The owner of table `D`.
    pub open spec fn owner_of<D: TableDesc<Storage = TableStorage>>(self) -> Option<Owner> {
        table_of::<D>(self.tables()).current_owner()
    }

    /// `self` differs from `before` at most in table `D`.
    pub open spec fn changes_only<D: TableDesc<Storage = TableStorage>>(self, before: Self) -> bool {
        &&& self.singletons() == before.singletons()
        &&& self.tables() == with_table_of::<D>(before.tables(), table_of::<D>(self.tables()))
    }

    /// Changes to table `D` made one after the other change only table `D`.
    pub proof fn lemma_changes_only_trans<D: TableDesc<Storage = TableStorage>>(
        s0: Self,
        s1: Self,
        s2: Self,
    )
        requires
            s1.changes_only::<D>(s0),
            s2.changes_only::<D>(s1),
        ensures
            s2.changes_only::<D>(s0),
    {
        lemma_with_table_twice::<D>(s0.tables(), table_of::<D>(s1.tables()), table_of::<D>(s2.tables()));
    }

    /// Sets the owner of table `D` if it has none; returns its owner if it has one.
    pub fn table_init<D: TableDesc<Storage = TableStorage>>(&mut self, owner: Owner) -> (r: Result<
        (),
        Error,
    >)
        ensures
            final(self).rows_of::<D>() == old(self).rows_of::<D>(),
            final(self).changes_only::<D>(*old(self)),
            match old(self).owner_of::<D>() {
                Some(prev) => r == Err::<(), Error>(Error::AlreadyInit(prev)) && *final(self)
                    == *old(self),
                None => r is Ok && final(self).owner_of::<D>() == Some(owner),
            },
    {
        let table = get_table_mut::<D>(&mut self.tables);
        let r = table.init_owner(owner);
        proof {
            lemma_table_of_with_table::<D>(old(self).tables, *table);
            lemma_with_own_table::<D>(old(self).tables);
        }
        r
    }

    /// Sets the owner of table `D` to `owner` if it has none; an owner it has stays.
    pub fn table_claim<D: TableDesc<Storage = TableStorage>>(&mut self, owner: Owner)
        ensures
            final(self).rows_of::<D>() == old(self).rows_of::<D>(),
            final(self).owner_of::<D>() == owner_after_write(old(self).owner_of::<D>(), owner),
            final(self).changes_only::<D>(*old(self)),
    {
        let _ = self.table_init::<D>(owner);
    }

    /// Sets the owner of table `D` if it has none; the table must not have another owner.
    pub fn table_set_owner<D: TableDesc<Storage = TableStorage>>(&mut self, owner: Owner)
        requires
            old(self).owner_of::<D>() matches Some(prev) ==> prev == owner,
        ensures
            final(self).rows_of::<D>() == old(self).rows_of::<D>(),
            final(self).owner_of::<D>() == Some(owner),
            final(self).changes_only::<D>(*old(self)),
    {
        let table = get_table_mut::<D>(&mut self.tables);
        table.assert_or_set_owner(owner);
        proof {
            lemma_table_of_with_table::<D>(old(self).tables, *table);
        }
    }

    /// Checks that table `D` is not owned by another owner.
    pub fn table_check_owner<D: TableDesc<Storage = TableStorage>>(&self, owner: Owner)
        requires
            self.owner_of::<D>() matches Some(prev) ==> prev == owner,
    {
        match &get_table::<D>(&self.tables).owner {
            Some(prev) => {
                assert(*prev == owner);
            },
            None => {},
        }
    }

    /// Removes all rows of table `D`; its owner stays.
    pub fn table_clear<D: TableDesc<Storage = TableStorage>>(&mut self)
        ensures
            final(self).rows_of::<D>() == Map::<<D::Key as View>::V, D::Value>::empty(),
            final(self).owner_of::<D>() == old(self).owner_of::<D>(),
            final(self).changes_only::<D>(*old(self)),
    {
        let table = get_table_mut::<D>(&mut self.tables);
        table.clear_rows();
        proof {
            lemma_table_of_with_table::<D>(old(self).tables, *table);
        }
    }

    /// The number of rows of table `D`.
    pub fn table_len<D: TableDesc<Storage = TableStorage>>(&self) -> (r: usize)
        ensures
            r == self.rows_of::<D>().len(),
            self.rows_of::<D>().dom().finite(),
    {
        get_table::<D>(&self.tables).num_rows()
    }

    /// True if table `D` has no rows.
    pub fn table_is_empty<D: TableDesc<Storage = TableStorage>>(&self) -> (r: bool)
        ensures
            r == (self.rows_of::<D>().len() == 0),
            self.rows_of::<D>().dom().finite(),
    {
        get_table::<D>(&self.tables).has_no_rows()
    }

    /// Clones the value of the row of table `D` with the given key.
    pub fn table_get<D: TableDesc<Storage = TableStorage>>(&self, key: &D::Key) -> (r: Option<
        D::Value,
    >) where D::Value: Clone
        ensures
            match r {
                Some(v) => self.rows_of::<D>().contains_key(key@) && cloned(
                    self.rows_of::<D>()[key@],
                    v,
                ),
                None => !self.rows_of::<D>().contains_key(key@),
            },
    {
        match get_table::<D>(&self.tables).get_row(key) {
            Some(v) => Some(v.clone()),
            None => None,
        }
    }

    /// Calls `f` on the value of the row of table `D` with the given key; `f` is not called
    /// where there is no such row.
    pub fn table_with<D: TableDesc<Storage = TableStorage>, T, F: FnOnce(&D::Value) -> T>(
        &self,
        f: F,
        key: &D::Key,
    ) -> (r: Option<T>)
        requires
            self.rows_of::<D>().contains_key(key@) ==> call_requires(
                f,
                (&self.rows_of::<D>()[key@],),
            ),
        ensures
            match r {
                Some(t) => self.rows_of::<D>().contains_key(key@) && call_ensures(
                    f,
                    (&self.rows_of::<D>()[key@],),
                    t,
                ),
                None => !self.rows_of::<D>().contains_key(key@),
            },
    {
        match get_table::<D>(&self.tables).get_row(key) {
            Some(v) => Some(f(v)),
            None => None,
        }
    }

    /// Inserts a row into table `D`. Returns the value of the row it replaced.
    pub fn table_insert<D: TableDesc<Storage = TableStorage>>(
        &mut self,
        key: D::Key,
        value: D::Value,
    ) -> (r: Option<D::Value>)
        ensures
            final(self).rows_of::<D>() == old(self).rows_of::<D>().insert(key@, value),
            final(self).owner_of::<D>() == old(self).owner_of::<D>(),
            final(self).changes_only::<D>(*old(self)),
            r == (if old(self).rows_of::<D>().contains_key(key@) {
                Some(old(self).rows_of::<D>()[key@])
            } else {
                None
            }),
    {
        let table = get_table_mut::<D>(&mut self.tables);
        let r = table.insert_row(key, value);
        proof {
            lemma_table_of_with_table::<D>(old(self).tables, *table);
        }
        r
    }

    /// The rows of table `D`, in the order in which they are held.
    pub fn table_rows<D: TableDesc<Storage = TableStorage>>(&self) -> (r: &Vec<(D::Key, D::Value)>)
        ensures
            row_keys(r@).no_duplicates(),
            rows_map(r@) == self.rows_of::<D>(),
    {
        let table = get_table::<D>(&self.tables);
        proof {
            use_type_invariant(table);
        }
        &table.data
    }

    /// Table `D` itself.
    pub fn table_ref<D: TableDesc<Storage = TableStorage>>(&self) -> (r: &TableOf<D>)
        ensures
            r.rows() == self.rows_of::<D>(),
            r.current_owner() == self.owner_of::<D>(),
    {
        get_table::<D>(&self.tables)
    }

    /// Calls `f` on mutable access to the value of the row of table `D` with the given key; `f` is
    /// not called where there is no such row.
    pub fn table_mutate<D: TableDesc<Storage = TableStorage>, T, F: FnOnce(&mut D::Value) -> T>(
        &mut self,
        key: &D::Key,
        f: F,
    ) -> (r: Option<T>)
        requires
            old(self).rows_of::<D>().contains_key(key@) ==> forall|m: &mut D::Value|
                *m == old(self).rows_of::<D>()[key@] ==> #[trigger] call_requires(f, (m,)),
        ensures
            final(self).owner_of::<D>() == old(self).owner_of::<D>(),
            final(self).changes_only::<D>(*old(self)),
            match r {
                Some(t) => {
                    &&& old(self).rows_of::<D>().contains_key(key@)
                    &&& exists|m: &mut D::Value|
                        {
                            &&& *m == old(self).rows_of::<D>()[key@]
                            &&& call_ensures(f, (m,), t)
                            &&& final(self).rows_of::<D>() == old(self).rows_of::<D>().insert(
                                key@,
                                *final(m),
                            )
                        }
                },
                None => !old(self).rows_of::<D>().contains_key(key@) && *final(self) == *old(self),
            },
    {
        let table = get_table_mut::<D>(&mut self.tables);
        let r = table.mutate_row(key, f);
        proof {
            lemma_table_of_with_table::<D>(old(self).tables, *table);
            lemma_with_own_table::<D>(old(self).tables);
        }
        r
    }

    /// Removes the row of table `D` with the given key. Returns its value.
    pub fn table_remove<D: TableDesc<Storage = TableStorage>>(&mut self, key: &D::Key) -> (r:
        Option<D::Value>)
        ensures
            final(self).rows_of::<D>() == old(self).rows_of::<D>().remove(key@),
            final(self).owner_of::<D>() == old(self).owner_of::<D>(),
            final(self).changes_only::<D>(*old(self)),
            !old(self).rows_of::<D>().contains_key(key@) ==> *final(self) == *old(self),
            r == (if old(self).rows_of::<D>().contains_key(key@) {
                Some(old(self).rows_of::<D>()[key@])
            } else {
                None
            }),
    {
        let table = get_table_mut::<D>(&mut self.tables);
        let r = table.remove_row(key);
        proof {
            lemma_table_of_with_table::<D>(old(self).tables, *table);
            lemma_with_own_table::<D>(old(self).tables);
        }
        r
    }
}

} // verus!
