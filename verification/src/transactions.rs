//! The store's transactional API.
//!
//! A transaction holds exclusive access to the whole store while it is active; a read-only
//! transaction holds shared access. Every read within a transaction sees the writes made before
//! it in the same transaction, and the store holds the transaction's writes once it ends.
use vstd::prelude::*;

use crate::schema::{
    ArcSingleton, GeneratedStorage, MutSingleton, MutStorageClass, Singleton, StorageClass,
    TableDesc,
};
use crate::singleton::{assert_owner, stored, taken, value_of};
use crate::iter::TableIterator;
use crate::storage::{row_keys, rows_map, SinValue, Storage};
use crate::{KvStore, Owner, Result};
use std::marker::PhantomData;
use std::sync::Arc;

verus! {

impl<TableStorage: GeneratedStorage> KvStore<TableStorage> {
    /// Start a transaction.
    ///
    /// The transaction has exclusive access to the store until it ends.
    pub fn begin_transaction(&mut self, owner: Owner) -> (r: Transaction<'_, TableStorage>)
        ensures
            r.current() == old(self)@,
            *final(r.borrow()) == final(self)@,
            r.owner() == owner,
    {
        Transaction { storage: &mut self.storage, owner }
    }

    /// Start a transaction.
    ///
    /// Returns `None` if the store is not available for exclusive access; holding the store
    /// mutably borrowed, the caller always gets it.
    pub fn try_begin_transaction(&mut self, owner: Owner) -> (r: Option<
        Transaction<'_, TableStorage>,
    >)
        ensures
            r is Some,
            r->0.current() == old(self)@,
            *final(r->0.borrow()) == final(self)@,
            r->0.owner() == owner,
    {
        Some(self.begin_transaction(owner))
    }

    /// Start a read-only transaction (i.e., only supports non-mutating access to the store, but
    /// all reads are guaranteed to be atomic).
    pub fn begin_ro_transaction(&self, owner: Owner) -> (r: RoTransaction<'_, TableStorage>)
        ensures
            r.current() == self@,
    {
        RoTransaction { storage: &self.storage, _owner: owner }
    }

    /// Start a read-only transaction (i.e., only supports non-mutating access to the store, but
    /// all reads are guaranteed to be atomic).
    ///
    /// Returns `None` if the store is not available for write access. The store is taken
    /// mutably, so no other access to it, a read-only transaction included, can be alive during
    /// the call: the store is always available and the caller always gets the transaction.
    pub fn try_begin_ro_transaction(&mut self, owner: Owner) -> (r: Option<
        RoTransaction<'_, TableStorage>,
    >)
        ensures
            r is Some,
            r->0.current() == old(self)@,
            final(self)@ == old(self)@,
    {
        Some(RoTransaction { storage: &self.storage, _owner: owner })
    }
}

/// A read/write transaction over a [`KvStore`].
///
/// Create a transaction by calling [`KvStore::begin_transaction`] or
/// [`KvStore::try_begin_transaction`]. A transaction holds exclusive access to the whole store
/// while it is active.
#[verifier::reject_recursive_types(TableStorage)]
pub struct Transaction<'a, TableStorage: GeneratedStorage> {
    storage: &'a mut Storage<TableStorage>,
    owner: Owner,
}

impl<'a, TableStorage: GeneratedStorage> Transaction<'a, TableStorage> {
    /// The storage of the store, as the transaction has left it so far.
    pub closed spec fn current(&self) -> Storage<TableStorage> {
        *self.storage
    }

    /// The borrow of the store's storage that the transaction holds.
    pub closed spec fn borrow(&self) -> &'a mut Storage<TableStorage> {
        self.storage
    }

    /// The owner of the transaction.
    pub closed spec fn owner(&self) -> Owner {
        self.owner
    }

    /// The transaction may write the singleton with the given key.
    pub open spec fn may_write(&self, key: u64) -> bool {
        self.current().singleton_owner(key) matches Some(prev) ==> prev == self.owner()
    }

    /// Once a transaction is done with, the store holds the storage as the transaction left it:
    /// every write made in the transaction is visible after it.
    pub proof fn writes_persist(self)
        requires
            has_resolved(self),
        ensures
            *final(self.borrow()) == self.current(),
    {
    }

    /// Commit this transaction.
    ///
    /// This ends the transaction, leaving its writes in the store; it always succeeds.
    pub fn commit(self) -> (r: Result<()>)
        ensures
            r is Ok,
            *final(self.borrow()) == self.current(),
    {
        Ok(())
    }

    /// Get a single value from the store by cloning the value.
    ///
    /// Returns `None` if there is no value for the specified key.
    pub fn get<D: Singleton<TableStorage::Payload>>(&self) -> (r: Option<
        <D::Class as StorageClass<TableStorage::Payload>>::Value,
    >) where <D::Class as StorageClass<TableStorage::Payload>>::Value: Clone
        requires
            self.current().fits::<D>(),
        ensures
            match self.current().singleton_value(D::KEY) {
                Some(v) => r is Some && cloned(value_of::<TableStorage::Payload, D>(v), r->0),
                None => r is None,
            },
    {
        self.storage.get_value::<D>()
    }

    /// Get a single value from the store by cloning an `Arc`.
    ///
    /// Returns `None` if there is no value for the specified key.
    pub fn get_arc<D: ArcSingleton<TableStorage::Payload>>(&self) -> (r: Option<
        Arc<TableStorage::Payload>,
    >)
        requires
            self.current().fits::<D>(),
        ensures
            match self.current().singleton_value(D::KEY) {
                Some(v) => r is Some && *r->0 == *v->Arc_0,
                None => r is None,
            },
    {
        self.storage.get_arc_value::<D>()
    }

    /// Get immutable access to a value in the store by reference.
    ///
    /// Returns `None` (and does not call `f`) if there is no value for the specified key.
    pub fn with<D: Singleton<TableStorage::Payload>, T>(
        &self,
        f: impl FnOnce(&<D::Class as StorageClass<TableStorage::Payload>>::Value) -> T,
    ) -> (r: Option<T>)
        requires
            self.current().fits::<D>(),
            self.current().singleton_value(D::KEY) matches Some(v) ==> call_requires(
                f,
                (&value_of::<TableStorage::Payload, D>(v),),
            ),
        ensures
            match self.current().singleton_value(D::KEY) {
                Some(v) => r is Some && call_ensures(
                    f,
                    (&value_of::<TableStorage::Payload, D>(v),),
                    r->0,
                ),
                None => r is None,
            },
    {
        self.storage.with_value::<D, T, _>(f)
    }

    /// Insert a single value into the store, owned by the transaction's owner.
    ///
    /// Returns the previous value if there is one, or `None` if there is no value for the
    /// specified key. The key/value must not be owned by another owner.
    pub fn insert<D: Singleton<TableStorage::Payload>>(
        &mut self,
        value: <D::Class as StorageClass<TableStorage::Payload>>::ArgValue,
    ) -> (r: Option<<D::Class as StorageClass<TableStorage::Payload>>::ArgValue>)
        requires
            old(self).current().fits::<D>(),
            old(self).may_write(D::KEY),
        ensures
            final(self).owner() == old(self).owner(),
            *final(final(self).borrow()) == *final(old(self).borrow()),
            final(self).current().singletons() == old(self).current().singletons().insert(
                D::KEY,
                (old(self).owner(), stored::<TableStorage::Payload, D>(value)),
            ),
            final(self).current().tables() == old(self).current().tables(),
            final(self).current().fits::<D>(),
            r == taken::<TableStorage::Payload, D>(old(self).current().singleton_value(D::KEY)),
    {
        assert_owner(self.owner, D::KEY, self.storage);
        self.storage.insert_value::<D>(self.owner, value)
    }

    /// Get mutable access to a value in the store.
    ///
    /// Returns `None` (and does not call `f`) if there is no value for the specified key. The
    /// key/value must not be owned by another owner.
    pub fn mutate<D: MutSingleton<TableStorage::Payload>, T>(
        &mut self,
        f: impl FnOnce(&mut <D::Class as StorageClass<TableStorage::Payload>>::Value) -> T,
    ) -> (r: Option<T>)
        requires
            old(self).current().fits::<D>(),
            old(self).may_write(D::KEY),
            old(self).current().singleton_value(D::KEY) matches Some(v) ==> forall|
                m: &mut <D::Class as StorageClass<TableStorage::Payload>>::Value,
            | *m == value_of::<TableStorage::Payload, D>(v) ==> #[trigger] call_requires(f, (m,)),
        ensures
            final(self).owner() == old(self).owner(),
            *final(final(self).borrow()) == *final(old(self).borrow()),
            final(self).current().tables() == old(self).current().tables(),
            final(self).current().fits::<D>(),
            match old(self).current().singleton_value(D::KEY) {
                Some(v) => {
                    &&& r is Some
                    &&& exists|m: &mut <D::Class as StorageClass<TableStorage::Payload>>::Value|
                        {
                            &&& *m == value_of::<TableStorage::Payload, D>(v)
                            &&& call_ensures(f, (m,), r->0)
                            &&& final(self).current().singletons() == old(self).current().singletons().insert(
                                D::KEY,
                                (
                                    old(self).current().singletons()[D::KEY].0,
                                    <D::Class as MutStorageClass<
                                        TableStorage::Payload,
                                    >>::stored_value(*final(m)),
                                ),
                            )
                        }
                },
                None => r is None && final(self).current() == old(self).current(),
            },
    {
        assert_owner(self.owner, D::KEY, self.storage);
        self.storage.mutate_value::<D, T, _>(f)
    }

    /// Remove a single value from the store, its owner included.
    ///
    /// Returns the previous value if there is one, or `None` if there is no value for the
    /// specified key. The key/value must not be owned by another owner.
    pub fn remove<D: Singleton<TableStorage::Payload>>(&mut self) -> (r: Option<
        <D::Class as StorageClass<TableStorage::Payload>>::ArgValue,
    >)
        requires
            old(self).current().fits::<D>(),
            old(self).may_write(D::KEY),
        ensures
            final(self).owner() == old(self).owner(),
            *final(final(self).borrow()) == *final(old(self).borrow()),
            final(self).current().singletons() == old(self).current().singletons().remove(
                D::KEY,
            ),
            final(self).current().tables() == old(self).current().tables(),
            final(self).current().fits::<D>(),
            r == taken::<TableStorage::Payload, D>(old(self).current().singleton_value(D::KEY)),
    {
        assert_owner(self.owner, D::KEY, self.storage);
        self.storage.remove_value::<D>()
    }

    /// Remove a single value from the store while preserving ownership of the key/value.
    ///
    /// Can also be used to initialize a key/value with an owner but without a value.
    ///
    /// Returns the previous value if there is one, or `None` if there is no value for the
    /// specified key. The key/value must not be owned by another owner.
    pub fn clear<D: Singleton<TableStorage::Payload>>(&mut self) -> (r: Option<
        <D::Class as StorageClass<TableStorage::Payload>>::ArgValue,
    >)
        requires
            old(self).current().fits::<D>(),
            old(self).may_write(D::KEY),
        ensures
            final(self).owner() == old(self).owner(),
            *final(final(self).borrow()) == *final(old(self).borrow()),
            final(self).current().singletons() == old(self).current().singletons().insert(
                D::KEY,
                (old(self).owner(), SinValue::Empty),
            ),
            final(self).current().tables() == old(self).current().tables(),
            final(self).current().fits::<D>(),
            r == taken::<TableStorage::Payload, D>(old(self).current().singleton_value(D::KEY)),
    {
        assert_owner(self.owner, D::KEY, self.storage);
        self.storage.clear_value::<D>(self.owner)
    }

    /// Operate on tables of key/values in the store as part of the transaction.
    pub fn table<'t, D: TableDesc<Storage = TableStorage>>(&'t mut self) -> (r:
        KvTableTransactional<'a, 't, TableStorage, D>)
        ensures
            r.current() == old(self).current(),
            r.owner() == old(self).owner(),
            *final(r.borrow()) == *final(self),
            *final((*r.borrow()).borrow()) == *final(old(self).borrow()),
    {
        KvTableTransactional { txn: self, table: PhantomData }
    }
}

/// Abstracts a table of key/value pairs in the store accessed as part of a transaction.
#[verifier::reject_recursive_types(TableStorage)]
pub struct KvTableTransactional<
    'a,
    't,
    TableStorage: GeneratedStorage,
    D: TableDesc<Storage = TableStorage>,
> {
    txn: &'t mut Transaction<'a, TableStorage>,
    table: PhantomData<D>,
}

impl<'a, 't, TableStorage: GeneratedStorage, D: TableDesc<Storage = TableStorage>> KvTableTransactional<
    'a,
    't,
    TableStorage,
    D,
> {
    /// The storage of the store, as the transaction has left it so far.
    pub closed spec fn current(&self) -> Storage<TableStorage> {
        (*self.txn).current()
    }

    /// The borrow of the transaction that this access holds.
    pub closed spec fn borrow(&self) -> &'t mut Transaction<'a, TableStorage> {
        self.txn
    }

    /// The owner of the transaction.
    pub closed spec fn owner(&self) -> Owner {
        (*self.txn).owner()
    }

    /// Once this access is done with, the transaction is as the access left it: every write
    /// made through it is visible to the transaction after it.
    pub proof fn writes_persist(self)
        requires
            has_resolved(self),
        ensures
            *final(self.borrow()) == *self.borrow(),
            (*final(self.borrow())).current() == self.current(),
            (*final(self.borrow())).owner() == self.owner(),
    {
    }

    /// The transaction may write the table.
    pub open spec fn may_write(&self) -> bool {
        self.current().owner_of::<D>() matches Some(prev) ==> prev == self.owner()
    }

    /// Initialize a table by setting its owner to the transaction's owner.
    ///
    /// Returns an error (containing the current owner of the table) if the table has already
    /// been initialized. In this case, the table will be in a consistent state and can be used
    /// as normal.
    pub fn init(&mut self) -> (r: Result<()>)
        ensures
            final(self).owner() == old(self).owner(),
            *final(final(self).borrow()) == *final(old(self).borrow()),
            *final((*final(self).borrow()).borrow()) == *final((*old(self).borrow()).borrow()),
            final(self).current().rows_of::<D>() == old(self).current().rows_of::<D>(),
            final(self).current().changes_only::<D>(old(self).current()),
            match old(self).current().owner_of::<D>() {
                Some(prev) => r == Err::<(), crate::Error>(crate::Error::AlreadyInit(prev))
                    && final(self).current() == old(self).current(),
                None => r is Ok && final(self).current().owner_of::<D>() == Some(
                    old(self).owner(),
                ),
            },
    {
        let owner = self.txn.owner;
        self.txn.storage.table_init::<D>(owner)
    }

    /// Clear a table by removing all its KVs, preserving its owner or setting it to the
    /// transaction's owner if it has none. The table must not be owned by another owner.
    pub fn clear(&mut self)
        requires
            old(self).may_write(),
        ensures
            final(self).owner() == old(self).owner(),
            *final(final(self).borrow()) == *final(old(self).borrow()),
            *final((*final(self).borrow()).borrow()) == *final((*old(self).borrow()).borrow()),
            final(self).current().rows_of::<D>() == Map::<
                <D::Key as View>::V,
                D::Value,
            >::empty(),
            final(self).current().owner_of::<D>() == Some(old(self).owner()),
            final(self).current().changes_only::<D>(old(self).current()),
    {
        let owner = self.txn.owner;
        let ghost s0 = *self.txn.storage;
        self.txn.storage.table_set_owner::<D>(owner);
        let ghost s1 = *self.txn.storage;
        self.txn.storage.table_clear::<D>();
        proof {
            Storage::lemma_changes_only_trans::<D>(s0, s1, *self.txn.storage);
        }
    }

    /// Iterate all the key/value pairs in a table.
    pub fn iter(&self) -> (r: TableIterator<'_, D>)
        ensures
            row_keys(r.remaining()).no_duplicates(),
            rows_map(r.remaining()) == self.current().rows_of::<D>(),
    {
        TableIterator::new(self.txn.storage.table_rows::<D>())
    }

    /// The number of key/value pairs in the table.
    pub fn len(&self) -> (r: usize)
        ensures
            r == self.current().rows_of::<D>().len(),
    {
        self.txn.storage.table_len::<D>()
    }

    /// True if the table is empty.
    pub fn is_empty(&self) -> (r: bool)
        ensures
            r == (self.current().rows_of::<D>().len() == 0),
    {
        self.txn.storage.table_is_empty::<D>()
    }

    /// Get a row of the table from the store by cloning the value.
    ///
    /// Returns `None` if there is no value for the specified key.
    pub fn get(&self, key: &D::Key) -> (r: Option<D::Value>) where D::Value: Clone
        ensures
            match r {
                Some(v) => self.current().rows_of::<D>().contains_key(key@) && cloned(
                    self.current().rows_of::<D>()[key@],
                    v,
                ),
                None => !self.current().rows_of::<D>().contains_key(key@),
            },
    {
        self.txn.storage.table_get::<D>(key)
    }

    /// Get immutable access to a row of the table in the store by reference.
    ///
    /// Returns `None` (and does not call `f`) if there is no value for the specified key.
    pub fn with<T>(&self, f: impl FnOnce(&D::Value) -> T, key: &D::Key) -> (r: Option<T>)
        requires
            self.current().rows_of::<D>().contains_key(key@) ==> call_requires(
                f,
                (&self.current().rows_of::<D>()[key@],),
            ),
        ensures
            match r {
                Some(t) => self.current().rows_of::<D>().contains_key(key@) && call_ensures(
                    f,
                    (&self.current().rows_of::<D>()[key@],),
                    t,
                ),
                None => !self.current().rows_of::<D>().contains_key(key@),
            },
    {
        self.txn.storage.table_with::<D, T, _>(f, key)
    }

    /// Insert a value into the table, setting the table's owner to the transaction's owner if it
    /// has none. The table must not be owned by another owner.
    ///
    /// Returns the previous value if there is one, or `None` if there is no value for the
    /// specified key.
    pub fn insert(&mut self, key: D::Key, value: D::Value) -> (r: Option<D::Value>)
        requires
            old(self).may_write(),
        ensures
            final(self).owner() == old(self).owner(),
            *final(final(self).borrow()) == *final(old(self).borrow()),
            *final((*final(self).borrow()).borrow()) == *final((*old(self).borrow()).borrow()),
            final(self).current().rows_of::<D>() == old(self).current().rows_of::<D>().insert(
                key@,
                value,
            ),
            final(self).current().owner_of::<D>() == Some(old(self).owner()),
            final(self).current().changes_only::<D>(old(self).current()),
            r == (if old(self).current().rows_of::<D>().contains_key(key@) {
                Some(old(self).current().rows_of::<D>()[key@])
            } else {
                None
            }),
    {
        let owner = self.txn.owner;
        let ghost s0 = *self.txn.storage;
        self.txn.storage.table_set_owner::<D>(owner);
        let ghost s1 = *self.txn.storage;
        let r = self.txn.storage.table_insert::<D>(key, value);
        proof {
            Storage::lemma_changes_only_trans::<D>(s0, s1, *self.txn.storage);
        }
        r
    }

    /// Get mutable access to a row of the table in the store. The table must not be owned by
    /// another owner.
    ///
    /// Returns `None` (and does not call `f`) if there is no value for the specified key.
    pub fn mutate<T>(&mut self, key: &D::Key, f: impl FnOnce(&mut D::Value) -> T) -> (r: Option<
        T,
    >)
        requires
            old(self).may_write(),
            old(self).current().rows_of::<D>().contains_key(key@) ==> forall|m: &mut D::Value|
                *m == old(self).current().rows_of::<D>()[key@] ==> #[trigger] call_requires(f, (m,)),
        ensures
            final(self).owner() == old(self).owner(),
            *final(final(self).borrow()) == *final(old(self).borrow()),
            *final((*final(self).borrow()).borrow()) == *final((*old(self).borrow()).borrow()),
            final(self).current().owner_of::<D>() == old(self).current().owner_of::<D>(),
            final(self).current().changes_only::<D>(old(self).current()),
            match r {
                Some(t) => {
                    &&& old(self).current().rows_of::<D>().contains_key(key@)
                    &&& exists|m: &mut D::Value|
                        {
                            &&& *m == old(self).current().rows_of::<D>()[key@]
                            &&& call_ensures(f, (m,), t)
                            &&& final(self).current().rows_of::<D>() == old(self).current().rows_of::<D>().insert(key@, *final(m))
                        }
                },
                None => !old(self).current().rows_of::<D>().contains_key(key@) && final(self).current() == old(self).current(),
            },
    {
        let owner = self.txn.owner;
        self.txn.storage.table_check_owner::<D>(owner);
        self.txn.storage.table_mutate::<D, T, _>(key, f)
    }

    /// Remove a row from the table. The table must not be owned by another owner.
    ///
    /// Returns the previous value if there is one, or `None` if there is no value for the
    /// specified key.
    pub fn remove(&mut self, key: &D::Key) -> (r: Option<D::Value>)
        requires
            old(self).may_write(),
        ensures
            final(self).owner() == old(self).owner(),
            *final(final(self).borrow()) == *final(old(self).borrow()),
            *final((*final(self).borrow()).borrow()) == *final((*old(self).borrow()).borrow()),
            final(self).current().rows_of::<D>() == old(self).current().rows_of::<D>().remove(
                key@,
            ),
            !old(self).current().rows_of::<D>().contains_key(key@) ==> final(self).current()
                == old(self).current(),
            final(self).current().owner_of::<D>() == old(self).current().owner_of::<D>(),
            final(self).current().changes_only::<D>(old(self).current()),
            r == (if old(self).current().rows_of::<D>().contains_key(key@) {
                Some(old(self).current().rows_of::<D>()[key@])
            } else {
                None
            }),
    {
        let owner = self.txn.owner;
        self.txn.storage.table_check_owner::<D>(owner);
        self.txn.storage.table_remove::<D>(key)
    }
}

/// A read-only transaction over a [`KvStore`].
///
/// Create a read-only transaction by calling [`KvStore::begin_ro_transaction`] or
/// [`KvStore::try_begin_ro_transaction`]. A read-only transaction holds shared access to the
/// whole store while it is active.
#[verifier::reject_recursive_types(TableStorage)]
pub struct RoTransaction<'a, TableStorage: GeneratedStorage> {
    storage: &'a Storage<TableStorage>,
    _owner: Owner,
}

impl<'a, TableStorage: GeneratedStorage> RoTransaction<'a, TableStorage> {
    /// The storage of the store.
    pub closed spec fn current(&self) -> Storage<TableStorage> {
        *self.storage
    }

    /// Get a single value from the store by cloning the value.
    ///
    /// Returns `None` if there is no value for the specified key.
    pub fn get<D: Singleton<TableStorage::Payload>>(&self) -> (r: Option<
        <D::Class as StorageClass<TableStorage::Payload>>::Value,
    >) where <D::Class as StorageClass<TableStorage::Payload>>::Value: Clone
        requires
            self.current().fits::<D>(),
        ensures
            match self.current().singleton_value(D::KEY) {
                Some(v) => r is Some && cloned(value_of::<TableStorage::Payload, D>(v), r->0),
                None => r is None,
            },
    {
        self.storage.get_value::<D>()
    }

    /// Get a single value from the store by cloning an `Arc`.
    ///
    /// Returns `None` if there is no value for the specified key.
    pub fn get_arc<D: ArcSingleton<TableStorage::Payload>>(&self) -> (r: Option<
        Arc<TableStorage::Payload>,
    >)
        requires
            self.current().fits::<D>(),
        ensures
            match self.current().singleton_value(D::KEY) {
                Some(v) => r is Some && *r->0 == *v->Arc_0,
                None => r is None,
            },
    {
        self.storage.get_arc_value::<D>()
    }

    /// Get immutable access to a value in the store by reference.
    ///
    /// Returns `None` (and does not call `f`) if there is no value for the specified key.
    pub fn with<D: Singleton<TableStorage::Payload>, T>(
        &self,
        f: impl FnOnce(&<D::Class as StorageClass<TableStorage::Payload>>::Value) -> T,
    ) -> (r: Option<T>)
        requires
            self.current().fits::<D>(),
            self.current().singleton_value(D::KEY) matches Some(v) ==> call_requires(
                f,
                (&value_of::<TableStorage::Payload, D>(v),),
            ),
        ensures
            match self.current().singleton_value(D::KEY) {
                Some(v) => r is Some && call_ensures(
                    f,
                    (&value_of::<TableStorage::Payload, D>(v),),
                    r->0,
                ),
                None => r is None,
            },
    {
        self.storage.with_value::<D, T, _>(f)
    }

    /// Operate on tables of key/values in the store as part of the read-only transaction.
    pub fn table<D: TableDesc<Storage = TableStorage>>(&'a self) -> (r: KvTableRoTransactional<
        'a,
        TableStorage,
        D,
    >)
        ensures
            r.current() == self.current(),
    {
        KvTableRoTransactional { txn: self, table: PhantomData }
    }
}

/// Abstracts a table of key/value pairs in the store as part of a read-only transaction.
#[verifier::reject_recursive_types(TableStorage)]
pub struct KvTableRoTransactional<'a, TableStorage: GeneratedStorage, D: TableDesc<
    Storage = TableStorage,
>> {
    txn: &'a RoTransaction<'a, TableStorage>,
    table: PhantomData<D>,
}

impl<'a, TableStorage: GeneratedStorage, D: TableDesc<Storage = TableStorage>> KvTableRoTransactional<
    'a,
    TableStorage,
    D,
> {
    /// The storage of the store.
    pub closed spec fn current(&self) -> Storage<TableStorage> {
        self.txn.current()
    }

    /// Iterate all the key/value pairs in a table.
    pub fn iter(&self) -> (r: TableIterator<'_, D>)
        ensures
            row_keys(r.remaining()).no_duplicates(),
            rows_map(r.remaining()) == self.current().rows_of::<D>(),
    {
        TableIterator::new(self.txn.storage.table_rows::<D>())
    }

    /// The number of key/value pairs in the table.
    pub fn len(&self) -> (r: usize)
        ensures
            r == self.current().rows_of::<D>().len(),
    {
        self.txn.storage.table_len::<D>()
    }

    /// True if the table is empty.
    pub fn is_empty(&self) -> (r: bool)
        ensures
            r == (self.current().rows_of::<D>().len() == 0),
    {
        self.txn.storage.table_is_empty::<D>()
    }

    /// Get a row of the table from the store by cloning the value.
    ///
    /// Returns `None` if there is no value for the specified key.
    pub fn get(&self, key: &D::Key) -> (r: Option<D::Value>) where D::Value: Clone
        ensures
            match r {
                Some(v) => self.current().rows_of::<D>().contains_key(key@) && cloned(
                    self.current().rows_of::<D>()[key@],
                    v,
                ),
                None => !self.current().rows_of::<D>().contains_key(key@),
            },
    {
        self.txn.storage.table_get::<D>(key)
    }

    /// Get immutable access to a row of the table in the store by reference.
    ///
    /// Returns `None` (and does not call `f`) if there is no value for the specified key.
    pub fn with<T>(&self, f: impl FnOnce(&D::Value) -> T, key: &D::Key) -> (r: Option<T>)
        requires
            self.current().rows_of::<D>().contains_key(key@) ==> call_requires(
                f,
                (&self.current().rows_of::<D>()[key@],),
            ),
        ensures
            match r {
                Some(t) => self.current().rows_of::<D>().contains_key(key@) && call_ensures(
                    f,
                    (&self.current().rows_of::<D>()[key@],),
                    t,
                ),
                None => !self.current().rows_of::<D>().contains_key(key@),
            },
    {
        self.txn.storage.table_with::<D, T, _>(f, key)
    }
}

} // verus!
