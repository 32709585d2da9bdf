//! Properties of the store that relate its operations to each other: what a read gives back of
//! a write, what tombstones and removals leave, and what a write leaves untouched.
use vstd::prelude::*;

use crate::index::{index_consistent, rows_consistent};
use crate::schema::{
    TableOf,
    table_of, Apart, Fresh, GeneratedStorage, IndexDesc, Singleton, StorageClass, TableDesc,
    TablePosition,
};
use crate::singleton::{holds, stored, taken, value_of};
use crate::storage::{SinValue, Storage};
use crate::Owner;

verus! {

/// A read of a singleton gives back what the last write stored: once `value` is inserted for
/// singleton `D` by `owner`, the singleton has a value, owned by `owner`, that reads by reference
/// as `value` does and that removal gives back as `value` itself.
pub proof fn singleton_read_after_insert<
    TableStorage: GeneratedStorage,
    D: Singleton<TableStorage::Payload>,
>(
    before: Storage<TableStorage>,
    after: Storage<TableStorage>,
    owner: Owner,
    value: <D::Class as StorageClass<TableStorage::Payload>>::ArgValue,
)
    requires
        after.singletons() == before.singletons().insert(
            D::KEY,
            (owner, stored::<TableStorage::Payload, D>(value)),
        ),
    ensures
        after.fits::<D>(),
        after.singleton_owner(D::KEY) == Some(owner),
        after.singleton_value(D::KEY) matches Some(v) && value_of::<TableStorage::Payload, D>(v)
            == <D::Class as StorageClass<TableStorage::Payload>>::value_of_arg(value),
        taken::<TableStorage::Payload, D>(after.singleton_value(D::KEY)) == Some(value),
{
    <D::Class as StorageClass<TableStorage::Payload>>::lemma_stored(value);
}

/// Clearing a singleton leaves a tombstone: the singleton has no value, but keeps an owner, and
/// the next insert or clear gives back nothing.
pub proof fn singleton_read_after_clear<
    TableStorage: GeneratedStorage,
    D: Singleton<TableStorage::Payload>,
>(before: Storage<TableStorage>, after: Storage<TableStorage>, owner: Owner)
    requires
        after.singletons() == before.singletons().insert(D::KEY, (owner, SinValue::Empty)),
    ensures
        after.fits::<D>(),
        after.singleton_value(D::KEY) is None,
        after.singleton_owner(D::KEY) == Some(owner),
        taken::<TableStorage::Payload, D>(after.singleton_value(D::KEY)) is None,
{
}

/// Removing a singleton removes its value and its owner.
pub proof fn singleton_read_after_remove<
    TableStorage: GeneratedStorage,
    D: Singleton<TableStorage::Payload>,
>(before: Storage<TableStorage>, after: Storage<TableStorage>)
    requires
        after.singletons() == before.singletons().remove(D::KEY),
    ensures
        after.fits::<D>(),
        after.singleton_value(D::KEY) is None,
        after.singleton_owner(D::KEY) is None,
{
}

/// A write to one singleton leaves every other singleton as it is.
pub proof fn singleton_writes_are_separate<TableStorage: GeneratedStorage>(
    before: Storage<TableStorage>,
    after: Storage<TableStorage>,
    key: u64,
    other: u64,
    entry: (Owner, SinValue<TableStorage::Payload>),
)
    requires
        key != other,
        after.singletons() == before.singletons().insert(key, entry) || after.singletons()
            == before.singletons().remove(key),
    ensures
        after.singleton_value(other) == before.singleton_value(other),
        after.singleton_owner(other) == before.singleton_owner(other),
{
}

/// A fresh store holds no data: no singleton has a value or an owner, and every table is empty
/// and without an owner.
pub proof fn fresh_store_is_empty<
    TableStorage: GeneratedStorage,
    D: TableDesc<Storage = TableStorage>,
>(storage: Storage<TableStorage>, key: u64)
    requires
        storage.is_fresh(),
    ensures
        storage.singleton_value(key) is None,
        storage.singleton_owner(key) is None,
        storage.rows_of::<D>() == Map::<<D::Key as View>::V, D::Value>::empty(),
        storage.owner_of::<D>() is None,
{
    <D::Position as TablePosition<TableStorage::List, TableOf<D>>>::lemma_fresh(
        storage.tables().list(),
    );
}

/// A read of a table row gives back what the last write put there; the table then has one row
/// more exactly when the key was new, and every other row is as it was.
pub proof fn table_read_after_insert<
    TableStorage: GeneratedStorage,
    D: TableDesc<Storage = TableStorage>,
>(before: Storage<TableStorage>, after: Storage<TableStorage>, key: D::Key, value: D::Value)
    requires
        after.rows_of::<D>() == before.rows_of::<D>().insert(key@, value),
    ensures
        after.rows_of::<D>().contains_key(key@),
        after.rows_of::<D>()[key@] == value,
        forall|k: <D::Key as View>::V|
            k != key@ ==> (#[trigger] after.rows_of::<D>().contains_key(k)
                == before.rows_of::<D>().contains_key(k) && (before.rows_of::<D>().contains_key(k)
                ==> after.rows_of::<D>()[k] == before.rows_of::<D>()[k])),
        after.rows_of::<D>().len() == before.rows_of::<D>().len() + (if before.rows_of::<
            D,
        >().contains_key(key@) {
            0int
        } else {
            1int
        }),
{
    table_of::<D>(before.tables()).lemma_rows_finite();
}

/// A removed row is gone; the table then has one row less exactly when the key was there, and
/// every other row is as it was.
pub proof fn table_read_after_remove<
    TableStorage: GeneratedStorage,
    D: TableDesc<Storage = TableStorage>,
>(before: Storage<TableStorage>, after: Storage<TableStorage>, key: D::Key)
    requires
        after.rows_of::<D>() == before.rows_of::<D>().remove(key@),
    ensures
        !after.rows_of::<D>().contains_key(key@),
        forall|k: <D::Key as View>::V|
            k != key@ ==> (#[trigger] after.rows_of::<D>().contains_key(k)
                == before.rows_of::<D>().contains_key(k) && (before.rows_of::<D>().contains_key(k)
                ==> after.rows_of::<D>()[k] == before.rows_of::<D>()[k])),
        after.rows_of::<D>().len() == before.rows_of::<D>().len() - (if before.rows_of::<
            D,
        >().contains_key(key@) {
            1int
        } else {
            0int
        }),
{
    table_of::<D>(before.tables()).lemma_rows_finite();
}

/// A write to one table leaves the singletons and every other table as they are.
pub proof fn table_writes_are_separate<
    TableStorage: GeneratedStorage,
    D: TableDesc<Storage = TableStorage>,
    E: TableDesc<Storage = TableStorage>,
>(before: Storage<TableStorage>, after: Storage<TableStorage>) where
    E::Position: Apart<TableStorage::List, TableOf<E>, TableOf<D>, D::Position>,

    requires
        after.changes_only::<D>(before),
    ensures
        after.singletons() == before.singletons(),
        after.rows_of::<E>() == before.rows_of::<E>(),
        after.owner_of::<E>() == before.owner_of::<E>(),
{
    let l = before.tables().list();
    let t = table_of::<D>(after.tables());
    let l2 = <D::Position as TablePosition<TableStorage::List, TableOf<D>>>::set(l, t);
    before.tables().lemma_list_with_list(l2);
    <E::Position as Apart<TableStorage::List, TableOf<E>, TableOf<D>, D::Position>>::lemma_apart(l, t);
}

/// Through a consistent index, the key drawn from the value of a base row leads to that row.
pub proof fn index_leads_to_row<
    TableStorage: GeneratedStorage,
    D: IndexDesc<Storage = TableStorage, BaseTable = B, Value = B::Key>,
    B: TableDesc<Storage = TableStorage>,
>(storage: Storage<TableStorage>, key: B::Key)
    requires
        index_consistent::<TableStorage, D, B>(storage),
        storage.rows_of::<B>().contains_key(key@),
    ensures
        ({
            let ik = crate::schema::index_key_of::<D>(storage.rows_of::<B>()[key@]);
            &&& storage.rows_of::<D>().contains_key(ik)
            &&& storage.rows_of::<D>()[ik]@ == key@
        }),
{
}

/// An empty index agrees with an empty base table.
pub proof fn empty_index_is_consistent<
    D: IndexDesc<BaseTable = B, Value = B::Key>,
    B: TableDesc,
>()
    ensures
        rows_consistent::<D, B>(
            Map::<<D::Key as View>::V, B::Key>::empty(),
            Map::<<B::Key as View>::V, B::Value>::empty(),
        ),
{
}

} // verus!
