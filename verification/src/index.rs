//! Access to a base table through an index: a table that maps a key drawn from the base table's
//! values to the key of the row it was drawn from. The index is kept consistent with the base
//! table by every write made through it.
use vstd::prelude::*;

use crate::iter::IndexIterator;
use crate::schema::{
    TableOf,
    index_key_is_function, index_key_of, lemma_index_key, Apart, GeneratedStorage, IndexDesc,
    TableDesc, TableKey, TablePosition, table_of, with_table_of,
};
use crate::storage::Storage;
use crate::{KvStore, Owner, Result};
use std::marker::PhantomData;

verus! {

/// Index rows and base rows agree: every key of the index leads to a base row from whose value
/// it is drawn, and every base row is reached from the key drawn from its value.
pub open spec fn rows_consistent<D: IndexDesc<BaseTable = B, Value = B::Key>, B: TableDesc>(
    index: Map<<D::Key as View>::V, B::Key>,
    base: Map<<B::Key as View>::V, B::Value>,
) -> bool {
    &&& forall|ik: <D::Key as View>::V| #[trigger]
        index.contains_key(ik) ==> base.contains_key(index[ik]@) && index_key_of::<D>(
            base[index[ik]@],
        ) == ik
    &&& forall|bk: <B::Key as View>::V| #[trigger]
        base.contains_key(bk) ==> index.contains_key(index_key_of::<D>(base[bk]))
            && index[index_key_of::<D>(base[bk])]@ == bk
}

/// The index `D` and its base table `B` agree.
pub open spec fn index_consistent<
    TableStorage: GeneratedStorage,
    D: IndexDesc<Storage = TableStorage, BaseTable = B, Value = B::Key>,
    B: TableDesc<Storage = TableStorage>,
>(storage: Storage<TableStorage>) -> bool {
    rows_consistent::<D, B>(storage.rows_of::<D>(), storage.rows_of::<B>())
}

/// Writing a value to a base row, and moving the row's index entry to the key drawn from the
/// new value, keeps index and base in agreement, provided no other row holds that key.
pub proof fn lemma_write_keeps_consistent<D: IndexDesc<BaseTable = B, Value = B::Key>, B: TableDesc>(
    index: Map<<D::Key as View>::V, B::Key>,
    base: Map<<B::Key as View>::V, B::Value>,
    bk: B::Key,
    value: B::Value,
    ik: <D::Key as View>::V,
)
    requires
        rows_consistent::<D, B>(index, base),
        ik == index_key_of::<D>(value),
        index.contains_key(ik) ==> index[ik]@ == bk@,
    ensures
        rows_consistent::<D, B>(
            (if base.contains_key(bk@) {
                index.remove(index_key_of::<D>(base[bk@]))
            } else {
                index
            }).insert(ik, bk),
            base.insert(bk@, value),
        ),
{
    let index1 = if base.contains_key(bk@) {
        index.remove(index_key_of::<D>(base[bk@]))
    } else {
        index
    };
    let index2 = index1.insert(ik, bk);
    let base2 = base.insert(bk@, value);
    assert forall|k: <D::Key as View>::V| #[trigger] index2.contains_key(k) implies base2.contains_key(
        index2[k]@,
    ) && index_key_of::<D>(base2[index2[k]@]) == k by {
        if k != ik {
            assert(index.contains_key(k));
            if index[k]@ == bk@ {
                assert(index_key_of::<D>(base[bk@]) == k);
            }
        }
    }
    assert forall|b: <B::Key as View>::V| #[trigger] base2.contains_key(b) implies index2.contains_key(
        index_key_of::<D>(base2[b]),
    ) && index2[index_key_of::<D>(base2[b])]@ == b by {
        if b != bk@ {
            let k = index_key_of::<D>(base[b]);
            assert(index.contains_key(k) && index[k]@ == b);
            if base.contains_key(bk@) {
                assert(index[index_key_of::<D>(base[bk@])]@ == bk@);
            }
        }
    }
}

/// Removing an index entry together with the base row it leads to keeps index and base in
/// agreement.
pub proof fn lemma_remove_keeps_consistent<
    D: IndexDesc<BaseTable = B, Value = B::Key>,
    B: TableDesc,
>(index: Map<<D::Key as View>::V, B::Key>, base: Map<<B::Key as View>::V, B::Value>, ik: <D::Key as View>::V)
    requires
        rows_consistent::<D, B>(index, base),
        index.contains_key(ik),
    ensures
        rows_consistent::<D, B>(index.remove(ik), base.remove(index[ik]@)),
{
    let bk0 = index[ik]@;
    let index2 = index.remove(ik);
    let base2 = base.remove(bk0);
    assert forall|k: <D::Key as View>::V| #[trigger] index2.contains_key(k) implies base2.contains_key(
        index2[k]@,
    ) && index_key_of::<D>(base2[index2[k]@]) == k by {
        assert(index.contains_key(k));
    }
    assert forall|b: <B::Key as View>::V| #[trigger] base2.contains_key(b) implies index2.contains_key(
        index_key_of::<D>(base2[b]),
    ) && index2[index_key_of::<D>(base2[b])]@ == b by {
        assert(base.contains_key(b));
    }
}

/// The key `ik` of index `D` is not taken by a row other than the base row `bk`.
pub open spec fn index_key_free<
    TableStorage: GeneratedStorage,
    D: IndexDesc<Storage = TableStorage, BaseTable = B, Value = B::Key>,
    B: TableDesc<Storage = TableStorage>,
>(storage: Storage<TableStorage>, ik: <D::Key as View>::V, bk: <B::Key as View>::V) -> bool {
    storage.rows_of::<D>().contains_key(ik) ==> storage.rows_of::<D>()[ik]@ == bk
}

/// `after` differs from `before` at most in the index `D` and its base table `B`.
pub open spec fn changes_only_index<
    TableStorage: GeneratedStorage,
    D: IndexDesc<Storage = TableStorage, BaseTable = B, Value = B::Key>,
    B: TableDesc<Storage = TableStorage>,
>(after: Storage<TableStorage>, before: Storage<TableStorage>) -> bool {
    &&& after.singletons() == before.singletons()
    &&& after.tables() == with_table_of::<B>(
        with_table_of::<D>(before.tables(), table_of::<D>(after.tables())),
        table_of::<B>(after.tables()),
    )
}

/// Replacing the base table leaves the index as it is, and the other way round; the two
/// replacements commute.
pub proof fn lemma_index_apart<
    TableStorage: GeneratedStorage,
    D: IndexDesc<Storage = TableStorage, BaseTable = B, Value = B::Key>,
    B: TableDesc<Storage = TableStorage>,
>(storage: TableStorage, index: TableOf<D>, base: TableOf<B>) where
    D::Position: Apart<TableStorage::List, TableOf<D>, TableOf<B>, B::Position>,

    ensures
        table_of::<D>(with_table_of::<B>(storage, base)) == table_of::<D>(storage),
        table_of::<B>(with_table_of::<D>(storage, index)) == table_of::<B>(storage),
        with_table_of::<B>(with_table_of::<D>(storage, index), base) == with_table_of::<D>(
            with_table_of::<B>(storage, base),
            index,
        ),
{
    let l = storage.list();
    let lb = <B::Position as TablePosition<TableStorage::List, TableOf<B>>>::set(l, base);
    let ld = <D::Position as TablePosition<TableStorage::List, TableOf<D>>>::set(l, index);
    storage.lemma_list_with_list(lb);
    storage.lemma_list_with_list(ld);
    <D::Position as Apart<TableStorage::List, TableOf<D>, TableOf<B>, B::Position>>::lemma_apart(
        l,
        base,
    );
    <D::Position as Apart<
        TableStorage::List,
        TableOf<D>,
        TableOf<B>,
        B::Position,
    >>::lemma_apart_back(l, index);
    <D::Position as Apart<
        TableStorage::List,
        TableOf<D>,
        TableOf<B>,
        B::Position,
    >>::lemma_commute(l, index, base);
    let ldb = <B::Position as TablePosition<TableStorage::List, TableOf<B>>>::set(ld, base);
    let lbd = <D::Position as TablePosition<TableStorage::List, TableOf<D>>>::set(lb, index);
    storage.lemma_with_list_twice(ld, ldb);
    storage.lemma_with_list_twice(lb, lbd);
}

/// A change of the index alone, or of the base table alone, changes only the two.
pub proof fn lemma_changes_only_index_start<
    TableStorage: GeneratedStorage,
    D: IndexDesc<Storage = TableStorage, BaseTable = B, Value = B::Key>,
    B: TableDesc<Storage = TableStorage>,
>(s0: Storage<TableStorage>, s1: Storage<TableStorage>) where
    D::Position: Apart<TableStorage::List, TableOf<D>, TableOf<B>, B::Position>,

    requires
        s1.changes_only::<D>(s0) || s1.changes_only::<B>(s0),
    ensures
        changes_only_index::<TableStorage, D, B>(s1, s0),
{
    let t0 = s0.tables();
    let t1 = s1.tables();
    if s1.changes_only::<D>(s0) {
        lemma_index_apart::<TableStorage, D, B>(t0, table_of::<D>(t1), table_of::<B>(t0));
        crate::schema::lemma_with_own_table::<B>(t1);
    } else {
        lemma_index_apart::<TableStorage, D, B>(t0, table_of::<D>(t0), table_of::<B>(t1));
        crate::schema::lemma_with_own_table::<D>(t0);
    }
}

/// A change of the index or of the base table after changes of the two changes only the two.
pub proof fn lemma_changes_only_index_step<
    TableStorage: GeneratedStorage,
    D: IndexDesc<Storage = TableStorage, BaseTable = B, Value = B::Key>,
    B: TableDesc<Storage = TableStorage>,
>(s0: Storage<TableStorage>, s1: Storage<TableStorage>, s2: Storage<TableStorage>) where
    D::Position: Apart<TableStorage::List, TableOf<D>, TableOf<B>, B::Position>,

    requires
        changes_only_index::<TableStorage, D, B>(s1, s0),
        s2.changes_only::<D>(s1) || s2.changes_only::<B>(s1),
    ensures
        changes_only_index::<TableStorage, D, B>(s2, s0),
{
    let t0 = s0.tables();
    let a = table_of::<D>(s1.tables());
    let b = table_of::<B>(s1.tables());
    let x = with_table_of::<D>(t0, a);
    if s2.changes_only::<D>(s1) {
        let c = table_of::<D>(s2.tables());
        lemma_index_apart::<TableStorage, D, B>(t0, a, b);
        lemma_index_apart::<TableStorage, D, B>(with_table_of::<B>(t0, b), c, b);
        lemma_index_apart::<TableStorage, D, B>(t0, c, b);
        crate::schema::lemma_with_table_twice::<D>(with_table_of::<B>(t0, b), a, c);
        lemma_index_apart::<TableStorage, D, B>(s1.tables(), c, b);
        crate::schema::lemma_table_of_with_table::<B>(x, b);
        crate::schema::lemma_table_of_with_table::<D>(s1.tables(), c);
        crate::schema::lemma_table_of_with_table::<D>(t0, c);
        lemma_index_apart::<TableStorage, D, B>(with_table_of::<D>(t0, c), c, b);
    } else {
        let c = table_of::<B>(s2.tables());
        crate::schema::lemma_with_table_twice::<B>(x, b, c);
        lemma_index_apart::<TableStorage, D, B>(x, a, c);
        crate::schema::lemma_table_of_with_table::<D>(t0, a);
        crate::schema::lemma_table_of_with_table::<B>(x, c);
        crate::schema::lemma_table_of_with_table::<B>(s1.tables(), c);
        lemma_index_apart::<TableStorage, D, B>(s1.tables(), a, c);
        lemma_index_apart::<TableStorage, D, B>(x, a, b);
    }
}

/// Access to the base table `B` through the index `D`.
#[verifier::reject_recursive_types(TableStorage)]
#[verifier::reject_recursive_types(D)]
#[verifier::reject_recursive_types(B)]
pub struct KvTableIndex<
    'a,
    TableStorage: GeneratedStorage,
    D: IndexDesc<Storage = TableStorage, BaseTable = B>,
    B: TableDesc<Storage = TableStorage>,
> {
    pub store: &'a mut KvStore<TableStorage>,
    pub owner: Owner,
    pub index: PhantomData<D>,
    pub base: PhantomData<B>,
}

impl<
    'a,
    TableStorage: GeneratedStorage,
    D: IndexDesc<Storage = TableStorage, BaseTable = B, Value = B::Key>,
    B: TableDesc<Storage = TableStorage>,
> KvTableIndex<'a, TableStorage, D, B> where
    D::Position: Apart<TableStorage::List, TableOf<D>, TableOf<B>, B::Position>,
 {
    /// The storage of the store, as it is now.
    pub open spec fn current(&self) -> Storage<TableStorage> {
        (*self.store)@
    }

    /// Once this access is done with, the store holds the storage as the access left it: every
    /// write made through it is visible after it.
    pub proof fn writes_persist(self)
        requires
            has_resolved(self),
        ensures
            (*final(self.store))@ == self.current(),
    {
    }

    /// The access may write the base table.
    pub open spec fn may_write(&self) -> bool {
        self.current().owner_of::<B>() matches Some(prev) ==> prev == self.owner
    }

    /// Initialize the base table by setting its owner (indexes don't have an owner).
    ///
    /// Returns an error (containing the current owner of the table) if the table has already
    /// been initialized. In this case, the table will be in a consistent state and can be used
    /// as normal.
    pub fn init(&mut self) -> (r: Result<()>)
        ensures
            final(self).owner == old(self).owner,
            *final(final(self).store) == *final(old(self).store),
            final(self).current().rows_of::<B>() == old(self).current().rows_of::<B>(),
            final(self).current().changes_only::<B>(old(self).current()),
            match old(self).current().owner_of::<B>() {
                Some(prev) => r == Err::<(), crate::Error>(crate::Error::AlreadyInit(prev))
                    && final(self).current() == old(self).current(),
                None => r is Ok && final(self).current().owner_of::<B>() == Some(old(self).owner),
            },
    {
        self.store.storage.table_init::<B>(self.owner)
    }

    /// Iterate all the keys in the index with the value they lead to in the base table.
    pub fn iter(&self) -> (r: IndexIterator<'_, D>)
        ensures
            crate::storage::row_keys(r.remaining()).no_duplicates(),
            crate::storage::rows_map(r.remaining()) == self.current().rows_of::<D>(),
            r.base_rows() == self.current().rows_of::<B>(),
    {
        let storage = &self.store.storage;
        IndexIterator::new(storage.table_rows::<D>(), storage.table_ref::<B>())
    }

    /// Clear the base table and the index by removing all their KVs, preserving the owner of the
    /// base table, or setting it to this access's owner where it has none. The base table must
    /// not be owned by another owner.
    pub fn clear(&mut self)
        requires
            old(self).may_write(),
        ensures
            final(self).owner == old(self).owner,
            *final(final(self).store) == *final(old(self).store),
            final(self).current().rows_of::<B>() == Map::<
                <B::Key as View>::V,
                B::Value,
            >::empty(),
            final(self).current().rows_of::<D>() == Map::<
                <D::Key as View>::V,
                B::Key,
            >::empty(),
            final(self).current().owner_of::<B>() == Some(old(self).owner),
            final(self).current().owner_of::<D>() == old(self).current().owner_of::<D>(),
            index_consistent::<TableStorage, D, B>(final(self).current()),
            changes_only_index::<TableStorage, D, B>(final(self).current(), old(self).current()),
    {
        let storage = &mut self.store.storage;
        let ghost s0 = *storage;
        storage.table_set_owner::<B>(self.owner);
        proof {
            lemma_changes_only_index_start::<TableStorage, D, B>(s0, *storage);
            lemma_index_apart::<TableStorage, D, B>(
                s0.tables(),
                table_of::<D>(s0.tables()),
                table_of::<B>(storage.tables()),
            );
        }
        let ghost s1 = *storage;
        storage.table_clear::<D>();
        proof {
            lemma_changes_only_index_step::<TableStorage, D, B>(s0, s1, *storage);
            lemma_index_apart::<TableStorage, D, B>(
                s1.tables(),
                table_of::<D>(storage.tables()),
                table_of::<B>(s1.tables()),
            );
        }
        let ghost s2 = *storage;
        storage.table_clear::<B>();
        proof {
            lemma_changes_only_index_step::<TableStorage, D, B>(s0, s2, *storage);
            lemma_index_apart::<TableStorage, D, B>(
                s2.tables(),
                table_of::<D>(s2.tables()),
                table_of::<B>(storage.tables()),
            );
        }
    }

    /// The number of key/value pairs in the base table.
    pub fn len(&self) -> (r: usize)
        ensures
            r == self.current().rows_of::<B>().len(),
    {
        self.store.storage.table_len::<B>()
    }

    /// True if the base table is empty.
    pub fn is_empty(&self) -> (r: bool)
        ensures
            r == (self.current().rows_of::<B>().len() == 0),
    {
        self.store.storage.table_is_empty::<B>()
    }

    /// Get the row of the base table that the given key of the index leads to, by cloning the
    /// value.
    ///
    /// Returns `None` if there is no such row.
    pub fn get(&self, key: &D::Key) -> (r: Option<B::Value>) where B::Value: Clone
        ensures
            ({
                let index = self.current().rows_of::<D>();
                let base = self.current().rows_of::<B>();
                match r {
                    Some(v) => index.contains_key(key@) && base.contains_key(index[key@]@)
                        && cloned(base[index[key@]@], v),
                    None => !index.contains_key(key@) || !base.contains_key(index[key@]@),
                }
            }),
    {
        let storage = &self.store.storage;
        match storage.table_ref::<D>().get_row(key) {
            Some(base_key) => storage.table_get::<B>(base_key),
            None => None,
        }
    }

    /// Get immutable access to the row of the base table that the given key of the index leads
    /// to.
    ///
    /// Returns `None` (and does not call `f`) if there is no such row.
    pub fn with<T>(&self, key: &D::Key, f: impl FnOnce(&B::Value) -> T) -> (r: Option<T>)
        requires
            ({
                let index = self.current().rows_of::<D>();
                let base = self.current().rows_of::<B>();
                index.contains_key(key@) && base.contains_key(index[key@]@) ==> call_requires(
                    f,
                    (&base[index[key@]@],),
                )
            }),
        ensures
            ({
                let index = self.current().rows_of::<D>();
                let base = self.current().rows_of::<B>();
                match r {
                    Some(t) => index.contains_key(key@) && base.contains_key(index[key@]@)
                        && call_ensures(f, (&base[index[key@]@],), t),
                    None => !index.contains_key(key@) || !base.contains_key(index[key@]@),
                }
            }),
    {
        let storage = &self.store.storage;
        match storage.table_ref::<D>().get_row(key) {
            Some(base_key) => storage.table_with::<B, T, _>(f, base_key),
            None => None,
        }
    }

    /// Insert a value into the base table, setting the base table's owner to this access's
    /// owner where it has none, and update the index: the entry for the key drawn from the
    /// row's former value goes, and the key drawn from the new value leads to the row. The base
    /// table must not be owned by another owner. Where index and base table agreed, and the key
    /// drawn from the new value led to no other row, they still agree.
    ///
    /// Returns the previous value if there is one, or `None` if there is no value for the
    /// specified key.
    pub fn insert(&mut self, key: B::Key, value: B::Value) -> (r: Option<B::Value>)
        requires
            old(self).may_write(),
            index_key_is_function::<D>(),
        ensures
            final(self).owner == old(self).owner,
            *final(final(self).store) == *final(old(self).store),
            final(self).current().rows_of::<B>() == old(self).current().rows_of::<B>().insert(
                key@,
                value,
            ),
            final(self).current().owner_of::<B>() == Some(old(self).owner),
            final(self).current().owner_of::<D>() == old(self).current().owner_of::<D>(),
            ({
                let index = old(self).current().rows_of::<D>();
                let base = old(self).current().rows_of::<B>();
                let ik = index_key_of::<D>(value);
                let kept = if base.contains_key(key@) {
                    index.remove(index_key_of::<D>(base[key@]))
                } else {
                    index
                };
                &&& final(self).current().rows_of::<D>().contains_key(ik)
                &&& final(self).current().rows_of::<D>()[ik]@ == key@
                &&& final(self).current().rows_of::<D>().remove(ik) == kept.remove(ik)
                &&& index_consistent::<TableStorage, D, B>(old(self).current())
                    && index_key_free::<TableStorage, D, B>(old(self).current(), ik, key@)
                    ==> index_consistent::<TableStorage, D, B>(final(self).current())
            }),
            changes_only_index::<TableStorage, D, B>(final(self).current(), old(self).current()),
            r == (if old(self).current().rows_of::<B>().contains_key(key@) {
                Some(old(self).current().rows_of::<B>()[key@])
            } else {
                None
            }),
    {
        let storage = &mut self.store.storage;
        let ghost s0 = *storage;
        storage.table_set_owner::<B>(self.owner);
        proof {
            lemma_changes_only_index_start::<TableStorage, D, B>(s0, *storage);
            lemma_index_apart::<TableStorage, D, B>(
                s0.tables(),
                table_of::<D>(s0.tables()),
                table_of::<B>(storage.tables()),
            );
        }
        let ghost s1 = *storage;
        let new_index_key = D::index_key(&value);
        proof {
            lemma_index_key::<D>(value, new_index_key);
        }
        let old_index_key = match storage.table_ref::<B>().get_row(&key) {
            Some(v) => {
                let k = D::index_key(v);
                proof {
                    lemma_index_key::<D>(*v, k);
                }
                Some(k)
            },
            None => None,
        };
        match old_index_key {
            Some(k) => {
                storage.table_remove::<D>(&k);
                proof {
                    lemma_changes_only_index_step::<TableStorage, D, B>(s0, s1, *storage);
                    lemma_index_apart::<TableStorage, D, B>(
                        s1.tables(),
                        table_of::<D>(storage.tables()),
                        table_of::<B>(s1.tables()),
                    );
                }
            },
            None => {},
        }
        let ghost s2 = *storage;
        let base_key = key.clone_key();
        storage.table_insert::<D>(new_index_key, base_key);
        proof {
            lemma_changes_only_index_step::<TableStorage, D, B>(s0, s2, *storage);
            lemma_index_apart::<TableStorage, D, B>(
                s2.tables(),
                table_of::<D>(storage.tables()),
                table_of::<B>(s2.tables()),
            );
        }
        let ghost s3 = *storage;
        let r = storage.table_insert::<B>(key, value);
        proof {
            lemma_changes_only_index_step::<TableStorage, D, B>(s0, s3, *storage);
            lemma_index_apart::<TableStorage, D, B>(
                s3.tables(),
                table_of::<D>(s3.tables()),
                table_of::<B>(storage.tables()),
            );
            let kept = if s0.rows_of::<B>().contains_key(key@) {
                s0.rows_of::<D>().remove(index_key_of::<D>(s0.rows_of::<B>()[key@]))
            } else {
                s0.rows_of::<D>()
            };
            assert(storage.rows_of::<D>() =~= kept.insert(new_index_key@, base_key));
            assert(storage.rows_of::<D>().remove(new_index_key@) =~= kept.remove(new_index_key@));
            assert(storage.rows_of::<B>() =~= s0.rows_of::<B>().insert(base_key@, value));
            if index_consistent::<TableStorage, D, B>(s0) && index_key_free::<TableStorage, D, B>(
                s0,
                new_index_key@,
                key@,
            ) {
                lemma_write_keeps_consistent::<D, B>(
                    s0.rows_of::<D>(),
                    s0.rows_of::<B>(),
                    base_key,
                    value,
                    new_index_key@,
                );
            }
        }
        r
    }

    /// Remove the given key from the index, together with the row of the base table it leads
    /// to. Where index and base table agreed, they still agree.
    ///
    /// Returns the value of the removed row, or `None` if the key is not in the index or leads to
    /// no row.
    pub fn remove(&mut self, key: &D::Key) -> (r: Option<B::Value>)
        ensures
            final(self).owner == old(self).owner,
            *final(final(self).store) == *final(old(self).store),
            final(self).current().owner_of::<B>() == old(self).current().owner_of::<B>(),
            final(self).current().owner_of::<D>() == old(self).current().owner_of::<D>(),
            index_consistent::<TableStorage, D, B>(old(self).current()) ==> index_consistent::<
                TableStorage,
                D,
                B,
            >(final(self).current()),
            changes_only_index::<TableStorage, D, B>(final(self).current(), old(self).current()),
            ({
                let index = old(self).current().rows_of::<D>();
                let base = old(self).current().rows_of::<B>();
                if index.contains_key(key@) {
                    &&& final(self).current().rows_of::<D>() == index.remove(key@)
                    &&& final(self).current().rows_of::<B>() == base.remove(index[key@]@)
                    &&& r == (if base.contains_key(index[key@]@) {
                        Some(base[index[key@]@])
                    } else {
                        None
                    })
                } else {
                    final(self).current() == old(self).current() && r is None
                }
            }),
    {
        let storage = &mut self.store.storage;
        let ghost s0 = *storage;
        let base_key = storage.table_remove::<D>(key);
        let r = match base_key {
            Some(base_key) => {
                proof {
                    lemma_changes_only_index_start::<TableStorage, D, B>(s0, *storage);
                    lemma_index_apart::<TableStorage, D, B>(
                        s0.tables(),
                        table_of::<D>(storage.tables()),
                        table_of::<B>(s0.tables()),
                    );
                }
                let ghost s1 = *storage;
                let r = storage.table_remove::<B>(&base_key);
                proof {
                    lemma_changes_only_index_step::<TableStorage, D, B>(s0, s1, *storage);
                    lemma_index_apart::<TableStorage, D, B>(
                        s1.tables(),
                        table_of::<D>(s1.tables()),
                        table_of::<B>(storage.tables()),
                    );
                    if index_consistent::<TableStorage, D, B>(s0) {
                        lemma_remove_keeps_consistent::<D, B>(
                            s0.rows_of::<D>(),
                            s0.rows_of::<B>(),
                            key@,
                        );
                    }
                }
                r
            },
            None => {
                proof {
                    crate::schema::lemma_with_own_table::<D>(s0.tables());
                    crate::schema::lemma_with_own_table::<B>(s0.tables());
                }
                None
            },
        };
        r
    }

    /// Get mutable access to the row of the base table that the given key of the index leads
    /// to, and update the index: the given key goes, and the key drawn from the changed value
    /// leads to the row. Where index and base table agreed, and the key drawn from the changed
    /// value led to no other row, they still agree.
    ///
    /// Returns `None` (and does not call `f`) if the key is not in the index or leads to no
    /// row.
    pub fn mutate<T>(&mut self, key: &D::Key, f: impl FnOnce(&mut B::Value) -> T) -> (r: Option<
        T,
    >)
        requires
            index_key_is_function::<D>(),
            ({
                let index = old(self).current().rows_of::<D>();
                let base = old(self).current().rows_of::<B>();
                index.contains_key(key@) && base.contains_key(index[key@]@) ==> forall|
                    m: &mut B::Value,
                | *m == base[index[key@]@] ==> #[trigger] call_requires(f, (m,))
            }),
        ensures
            final(self).owner == old(self).owner,
            *final(final(self).store) == *final(old(self).store),
            final(self).current().owner_of::<B>() == old(self).current().owner_of::<B>(),
            final(self).current().owner_of::<D>() == old(self).current().owner_of::<D>(),
            changes_only_index::<TableStorage, D, B>(final(self).current(), old(self).current()),
            ({
                let index = old(self).current().rows_of::<D>();
                let base = old(self).current().rows_of::<B>();
                match r {
                    Some(t) => {
                        &&& index.contains_key(key@)
                        &&& base.contains_key(index[key@]@)
                        &&& exists|m: &mut B::Value|
                            #![trigger call_ensures(f, (m,), t)]
                            {
                                let bk = index[key@]@;
                                let ik = index_key_of::<D>(*final(m));
                                &&& *m == base[bk]
                                &&& call_ensures(f, (m,), t)
                                &&& final(self).current().rows_of::<B>() == base.insert(
                                    bk,
                                    *final(m),
                                )
                                &&& final(self).current().rows_of::<D>().contains_key(ik)
                                &&& final(self).current().rows_of::<D>()[ik]@ == bk
                                &&& final(self).current().rows_of::<D>().remove(ik)
                                    == index.remove(key@).remove(ik)
                                &&& index_consistent::<TableStorage, D, B>(old(self).current())
                                    && index_key_free::<TableStorage, D, B>(
                                    old(self).current(),
                                    ik,
                                    bk,
                                ) ==> index_consistent::<TableStorage, D, B>(
                                    final(self).current(),
                                )
                            }
                    },
                    None => (!index.contains_key(key@) || !base.contains_key(index[key@]@))
                        && final(self).current() == old(self).current(),
                }
            }),
    {
        let storage = &mut self.store.storage;
        let ghost s0 = *storage;
        let base_key = match storage.table_ref::<D>().get_row(key) {
            Some(k) => k.clone_key(),
            None => {
                proof {
                    crate::schema::lemma_with_own_table::<D>(s0.tables());
                    crate::schema::lemma_with_own_table::<B>(s0.tables());
                }
                return None;
            },
        };
        match storage.table_ref::<B>().get_row(&base_key) {
            Some(_) => {},
            None => {
                proof {
                    crate::schema::lemma_with_own_table::<D>(s0.tables());
                    crate::schema::lemma_with_own_table::<B>(s0.tables());
                }
                return None;
            },
        }
        storage.table_remove::<D>(key);
        proof {
            lemma_changes_only_index_start::<TableStorage, D, B>(s0, *storage);
            lemma_index_apart::<TableStorage, D, B>(
                s0.tables(),
                table_of::<D>(storage.tables()),
                table_of::<B>(s0.tables()),
            );
        }
        let ghost s1 = *storage;
        let r = storage.table_mutate::<B, T, _>(&base_key, f);
        let ghost s2 = *storage;
        proof {
            lemma_changes_only_index_step::<TableStorage, D, B>(s0, s1, s2);
            lemma_index_apart::<TableStorage, D, B>(
                s1.tables(),
                table_of::<D>(s1.tables()),
                table_of::<B>(s2.tables()),
            );
        }
        let t = match r {
            Some(t) => t,
            None => vstd::pervasive::unreached(),
        };
        let new_index_key = match storage.table_ref::<B>().get_row(&base_key) {
            Some(v) => {
                let k = D::index_key(v);
                proof {
                    lemma_index_key::<D>(*v, k);
                }
                k
            },
            None => vstd::pervasive::unreached(),
        };
        let ghost m = choose|m: &mut B::Value|
            {
                &&& *m == s1.rows_of::<B>()[base_key@]
                &&& call_ensures(f, (m,), t)
                &&& s2.rows_of::<B>() == s1.rows_of::<B>().insert(base_key@, *final(m))
            };
        storage.table_insert::<D>(new_index_key, base_key);
        proof {
            lemma_changes_only_index_step::<TableStorage, D, B>(s0, s2, *storage);
            lemma_index_apart::<TableStorage, D, B>(
                s2.tables(),
                table_of::<D>(storage.tables()),
                table_of::<B>(s2.tables()),
            );
            assert(index_key_of::<D>(*final(m)) == new_index_key@);
            assert(storage.rows_of::<D>() =~= s0.rows_of::<D>().remove(key@).insert(
                new_index_key@,
                base_key,
            ));
            assert(storage.rows_of::<D>().remove(new_index_key@) =~= s0.rows_of::<D>().remove(
                key@,
            ).remove(new_index_key@));
            if index_consistent::<TableStorage, D, B>(s0) && index_key_free::<TableStorage, D, B>(
                s0,
                new_index_key@,
                base_key@,
            ) {
                assert(index_key_of::<D>(s0.rows_of::<B>()[base_key@]) == key@);
                lemma_write_keeps_consistent::<D, B>(
                    s0.rows_of::<D>(),
                    s0.rows_of::<B>(),
                    base_key,
                    *final(m),
                    new_index_key@,
                );
                assert(storage.rows_of::<D>() =~= s0.rows_of::<D>().remove(
                    index_key_of::<D>(s0.rows_of::<B>()[base_key@]),
                ).insert(new_index_key@, base_key));
            }
        }
        Some(t)
    }
}

} // verus!
