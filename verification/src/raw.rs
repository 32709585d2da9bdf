//! The store's non-transactional API.
use vstd::prelude::*;

use crate::schema::{
    ArcSingleton, GeneratedStorage, MutSingleton, MutStorageClass, Singleton, StorageClass,
    TableDesc,
};
use crate::singleton::{stored, taken, value_of};
use crate::iter::TableIterator;
use crate::storage::{owner_after_write, row_keys, rows_map, SinValue, Storage};
use crate::{KvStore, Owner, Result};
use std::marker::PhantomData;
use std::sync::Arc;

verus! {

impl<TableStorage: GeneratedStorage> KvStore<TableStorage> {
    /// Get a single value from the store by cloning the value.
    ///
    /// Returns `None` if there is no value for the specified key.
    pub fn get<D: Singleton<TableStorage::Payload>>(&self, _owner: Owner) -> (r: Option<
        <D::Class as StorageClass<TableStorage::Payload>>::Value,
    >) where <D::Class as StorageClass<TableStorage::Payload>>::Value: Clone
        requires
            self@.fits::<D>(),
        ensures
            match self@.singleton_value(D::KEY) {
                Some(v) => r is Some && cloned(value_of::<TableStorage::Payload, D>(v), r->0),
                None => r is None,
            },
    {
        self.storage.get_value::<D>()
    }

    /// Get a single value from the store by cloning an `Arc`.
    ///
    /// Returns `None` if there is no value for the specified key.
    pub fn get_arc<D: ArcSingleton<TableStorage::Payload>>(&self, _owner: Owner) -> (r: Option<
        Arc<TableStorage::Payload>,
    >)
        requires
            self@.fits::<D>(),
        ensures
            match self@.singleton_value(D::KEY) {
                Some(v) => r is Some && *r->0 == *v->Arc_0,
                None => r is None,
            },
    {
        self.storage.get_arc_value::<D>()
    }

    /// Get immutable access to a value in the store by reference.
    ///
    /// Returns `None` (and does not call `f`) if there is no value for the specified key.
    pub fn with<D: Singleton<TableStorage::Payload>, T>(
        &self,
        _owner: Owner,
        f: impl FnOnce(&<D::Class as StorageClass<TableStorage::Payload>>::Value) -> T,
    ) -> (r: Option<T>)
        requires
            self@.fits::<D>(),
            self@.singleton_value(D::KEY) matches Some(v) ==> call_requires(
                f,
                (&value_of::<TableStorage::Payload, D>(v),),
            ),
        ensures
            match self@.singleton_value(D::KEY) {
                Some(v) => r is Some && call_ensures(
                    f,
                    (&value_of::<TableStorage::Payload, D>(v),),
                    r->0,
                ),
                None => r is None,
            },
    {
        self.storage.with_value::<D, T, _>(f)
    }

    /// Insert a single value into the store, owned by `owner`.
    ///
    /// Returns the previous value if there is one, or `None` if there is no value for the
    /// specified key.
    pub fn insert<D: Singleton<TableStorage::Payload>>(
        &mut self,
        owner: Owner,
        value: <D::Class as StorageClass<TableStorage::Payload>>::ArgValue,
    ) -> (r: Option<<D::Class as StorageClass<TableStorage::Payload>>::ArgValue>)
        requires
            old(self)@.fits::<D>(),
        ensures
            final(self)@.singletons() == old(self)@.singletons().insert(
                D::KEY,
                (owner, stored::<TableStorage::Payload, D>(value)),
            ),
            final(self)@.tables() == old(self)@.tables(),
            final(self)@.fits::<D>(),
            r == taken::<TableStorage::Payload, D>(old(self)@.singleton_value(D::KEY)),
    {
        self.storage.insert_value::<D>(owner, value)
    }

    /// Get mutable access to a value in the store.
    ///
    /// Returns `None` (and does not call `f`) if there is no value for the specified key.
    pub fn mutate<D: MutSingleton<TableStorage::Payload>, T>(
        &mut self,
        _owner: Owner,
        f: impl FnOnce(&mut <D::Class as StorageClass<TableStorage::Payload>>::Value) -> T,
    ) -> (r: Option<T>)
        requires
            old(self)@.fits::<D>(),
            old(self)@.singleton_value(D::KEY) matches Some(v) ==> forall|
                m: &mut <D::Class as StorageClass<TableStorage::Payload>>::Value,
            | *m == value_of::<TableStorage::Payload, D>(v) ==> #[trigger] call_requires(f, (m,)),
        ensures
            final(self)@.tables() == old(self)@.tables(),
            final(self)@.fits::<D>(),
            match old(self)@.singleton_value(D::KEY) {
                Some(v) => {
                    &&& r is Some
                    &&& exists|m: &mut <D::Class as StorageClass<TableStorage::Payload>>::Value|
                        {
                            &&& *m == value_of::<TableStorage::Payload, D>(v)
                            &&& call_ensures(f, (m,), r->0)
                            &&& final(self)@.singletons() == old(self)@.singletons().insert(
                                D::KEY,
                                (
                                    old(self)@.singletons()[D::KEY].0,
                                    <D::Class as MutStorageClass<
                                        TableStorage::Payload,
                                    >>::stored_value(*final(m)),
                                ),
                            )
                        }
                },
                None => r is None && final(self)@ == old(self)@,
            },
    {
        self.storage.mutate_value::<D, T, _>(f)
    }

    /// Remove a single value from the store, its owner included.
    ///
    /// Returns the previous value if there is one, or `None` if there is no value for the
    /// specified key.
    pub fn remove<D: Singleton<TableStorage::Payload>>(&mut self, _owner: Owner) -> (r: Option<
        <D::Class as StorageClass<TableStorage::Payload>>::ArgValue,
    >)
        requires
            old(self)@.fits::<D>(),
        ensures
            final(self)@.singletons() == old(self)@.singletons().remove(D::KEY),
            final(self)@.tables() == old(self)@.tables(),
            final(self)@.fits::<D>(),
            r == taken::<TableStorage::Payload, D>(old(self)@.singleton_value(D::KEY)),
    {
        self.storage.remove_value::<D>()
    }

    /// Remove a single value from the store while preserving ownership of the key/value.
    ///
    /// Can also be used to initialize a key/value with an owner but without a value.
    ///
    /// Returns the previous value if there is one, or `None` if there is no value for the
    /// specified key.
    pub fn clear<D: Singleton<TableStorage::Payload>>(&mut self, owner: Owner) -> (r: Option<
        <D::Class as StorageClass<TableStorage::Payload>>::ArgValue,
    >)
        requires
            old(self)@.fits::<D>(),
        ensures
            final(self)@.singletons() == old(self)@.singletons().insert(
                D::KEY,
                (owner, SinValue::Empty),
            ),
            final(self)@.tables() == old(self)@.tables(),
            final(self)@.fits::<D>(),
            r == taken::<TableStorage::Payload, D>(old(self)@.singleton_value(D::KEY)),
    {
        self.storage.clear_value::<D>(owner)
    }

    /// Operate on tables of key/values in the store.
    pub fn table<'a, D: TableDesc<Storage = TableStorage>>(&'a mut self, owner: Owner) -> (r:
        KvTable<'a, TableStorage, D>)
        ensures
            r.current() == old(self)@,
            *final(r.borrow()) == *final(self),
            r.owner() == owner,
    {
        KvTable { store: self, owner, table: PhantomData }
    }
}

/// Abstracts a table of key/value pairs in the store.
///
/// `KvTable` has no transactional semantics and only exists as a convenience for accessing
/// tabular data.
#[verifier::reject_recursive_types(TableStorage)]
pub struct KvTable<'a, TableStorage: GeneratedStorage, D: TableDesc<Storage = TableStorage>> {
    store: &'a mut KvStore<TableStorage>,
    owner: Owner,
    table: PhantomData<D>,
}

impl<'a, TableStorage: GeneratedStorage, D: TableDesc<Storage = TableStorage>> KvTable<
    'a,
    TableStorage,
    D,
> {
    /// The storage of the store, as it is now.
    pub closed spec fn current(&self) -> Storage<TableStorage> {
        (*self.store)@
    }

    /// The borrow of the store that this access holds.
    pub closed spec fn borrow(&self) -> &'a mut KvStore<TableStorage> {
        self.store
    }

    /// The owner of this access.
    pub closed spec fn owner(&self) -> Owner {
        self.owner
    }

    /// Once this access is done with, the store holds the storage as the access left it: every
    /// write made through it is visible after it.
    pub proof fn writes_persist(self)
        requires
            has_resolved(self),
        ensures
            (*final(self.borrow()))@ == self.current(),
    {
    }

    /// Initialize a table by setting its owner.
    ///
    /// Calling this function is optional, a table can be used without initialization, in which
    /// case its owner is set to the owner given for the first insert or clear.
    ///
    /// Returns an error (containing the current owner of the table) if the table has already
    /// been initialized. In this case, the table will be in a consistent state and can be used
    /// as normal.
    pub fn init(&mut self) -> (r: Result<()>)
        ensures
            final(self).owner() == old(self).owner(),
            *final(final(self).borrow()) == *final(old(self).borrow()),
            final(self).current().rows_of::<D>() == old(self).current().rows_of::<D>(),
            final(self).current().changes_only::<D>(old(self).current()),
            match old(self).current().owner_of::<D>() {
                Some(prev) => r == Err::<(), crate::Error>(crate::Error::AlreadyInit(prev))
                    && final(self).current() == old(self).current(),
                None => r is Ok && final(self).current().owner_of::<D>() == Some(
                    old(self).owner(),
                ),
            },
    {
        self.store.storage.table_init::<D>(self.owner)
    }

    /// Clear a table by removing all its KVs, but preserving ownership; a table without an owner
    /// gets this access's owner.
    pub fn clear(&mut self)
        ensures
            final(self).owner() == old(self).owner(),
            *final(final(self).borrow()) == *final(old(self).borrow()),
            final(self).current().rows_of::<D>() == Map::<
                <D::Key as View>::V,
                D::Value,
            >::empty(),
            final(self).current().owner_of::<D>() == owner_after_write(
                old(self).current().owner_of::<D>(),
                old(self).owner(),
            ),
            final(self).current().changes_only::<D>(old(self).current()),
    {
        let ghost s0 = self.store.storage;
        self.store.storage.table_claim::<D>(self.owner);
        let ghost s1 = self.store.storage;
        self.store.storage.table_clear::<D>();
        proof {
            Storage::lemma_changes_only_trans::<D>(s0, s1, self.store.storage);
        }
    }

    /// Iterate all the key/value pairs in a table.
    pub fn iter(&self) -> (r: TableIterator<'_, D>)
        ensures
            row_keys(r.remaining()).no_duplicates(),
            rows_map(r.remaining()) == self.current().rows_of::<D>(),
    {
        TableIterator::new(self.store.storage.table_rows::<D>())
    }

    /// The number of key/value pairs in the table.
    pub fn len(&self) -> (r: usize)
        ensures
            r == self.current().rows_of::<D>().len(),
    {
        self.store.storage.table_len::<D>()
    }

    /// True if the table is empty.
    pub fn is_empty(&self) -> (r: bool)
        ensures
            r == (self.current().rows_of::<D>().len() == 0),
    {
        self.store.storage.table_is_empty::<D>()
    }

    /// Get a row of the table from the store by cloning the value.
    ///
    /// Returns `None` if there is no value for the specified key.
    pub fn get(&self, key: &D::Key) -> (r: Option<D::Value>) where D::Value: Clone
        ensures
            match r {
                Some(v) => self.current().rows_of::<D>().contains_key(key@) && cloned(
                    self.current().rows_of::<D>()[key@],
                    v,
                ),
                None => !self.current().rows_of::<D>().contains_key(key@),
            },
    {
        self.store.storage.table_get::<D>(key)
    }

    /// Get immutable access to a row of the table in the store by reference.
    ///
    /// Returns `None` (and does not call `f`) if there is no value for the specified key.
    pub fn with<T>(&self, f: impl FnOnce(&D::Value) -> T, key: &D::Key) -> (r: Option<T>)
        requires
            self.current().rows_of::<D>().contains_key(key@) ==> call_requires(
                f,
                (&self.current().rows_of::<D>()[key@],),
            ),
        ensures
            match r {
                Some(t) => self.current().rows_of::<D>().contains_key(key@) && call_ensures(
                    f,
                    (&self.current().rows_of::<D>()[key@],),
                    t,
                ),
                None => !self.current().rows_of::<D>().contains_key(key@),
            },
    {
        self.store.storage.table_with::<D, T, _>(f, key)
    }

    /// Insert a value into the table; a table without an owner gets this access's owner.
    ///
    /// Returns the previous value if there is one, or `None` if there is no value for the
    /// specified key.
    pub fn insert(&mut self, key: D::Key, value: D::Value) -> (r: Option<D::Value>)
        ensures
            final(self).owner() == old(self).owner(),
            *final(final(self).borrow()) == *final(old(self).borrow()),
            final(self).current().rows_of::<D>() == old(self).current().rows_of::<D>().insert(
                key@,
                value,
            ),
            final(self).current().owner_of::<D>() == owner_after_write(
                old(self).current().owner_of::<D>(),
                old(self).owner(),
            ),
            final(self).current().changes_only::<D>(old(self).current()),
            r == (if old(self).current().rows_of::<D>().contains_key(key@) {
                Some(old(self).current().rows_of::<D>()[key@])
            } else {
                None
            }),
    {
        let ghost s0 = self.store.storage;
        self.store.storage.table_claim::<D>(self.owner);
        let ghost s1 = self.store.storage;
        let r = self.store.storage.table_insert::<D>(key, value);
        proof {
            Storage::lemma_changes_only_trans::<D>(s0, s1, self.store.storage);
        }
        r
    }

    /// Get mutable access to a row of the table in the store. The table's owner stays as it is.
    ///
    /// Returns `None` (and does not call `f`) if there is no value for the specified key.
    pub fn mutate<T>(&mut self, key: &D::Key, f: impl FnOnce(&mut D::Value) -> T) -> (r: Option<
        T,
    >)
        requires
            old(self).current().rows_of::<D>().contains_key(key@) ==> forall|m: &mut D::Value|
                *m == old(self).current().rows_of::<D>()[key@] ==> #[trigger] call_requires(f, (m,)),
        ensures
            final(self).owner() == old(self).owner(),
            *final(final(self).borrow()) == *final(old(self).borrow()),
            final(self).current().owner_of::<D>() == old(self).current().owner_of::<D>(),
            final(self).current().changes_only::<D>(old(self).current()),
            match r {
                Some(t) => {
                    &&& old(self).current().rows_of::<D>().contains_key(key@)
                    &&& exists|m: &mut D::Value|
                        {
                            &&& *m == old(self).current().rows_of::<D>()[key@]
                            &&& call_ensures(f, (m,), t)
                            &&& final(self).current().rows_of::<D>() == old(self).current().rows_of::<D>().insert(key@, *final(m))
                        }
                },
                None => !old(self).current().rows_of::<D>().contains_key(key@)
                    && final(self).current() == old(self).current(),
            },
    {
        self.store.storage.table_mutate::<D, T, _>(key, f)
    }

    /// Remove a row from the table. The table's owner stays as it is.
    ///
    /// Returns the previous value if there is one, or `None` if there is no value for the
    /// specified key.
    pub fn remove(&mut self, key: &D::Key) -> (r: Option<D::Value>)
        ensures
            final(self).owner() == old(self).owner(),
            *final(final(self).borrow()) == *final(old(self).borrow()),
            final(self).current().rows_of::<D>() == old(self).current().rows_of::<D>().remove(
                key@,
            ),
            final(self).current().owner_of::<D>() == old(self).current().owner_of::<D>(),
            !old(self).current().rows_of::<D>().contains_key(key@) ==> final(self).current()
                == old(self).current(),
            final(self).current().changes_only::<D>(old(self).current()),
            r == (if old(self).current().rows_of::<D>().contains_key(key@) {
                Some(old(self).current().rows_of::<D>()[key@])
            } else {
                None
            }),
    {
        self.store.storage.table_remove::<D>(key)
    }
}

} // verus!
