//! Traits describing the schema of a store: singleton key/values, tables, keys of table rows and
//! the representation classes of singleton values.
use vstd::prelude::*;

use crate::storage::{SinValue, Table};
use std::marker::PhantomData;
use std::sync::Arc;

verus! {

/// A key of a table row. Rows are told apart by the view of their key.
pub trait TableKey: View + Sized {
    /// Compares two keys.
    fn key_eq(&self, other: &Self) -> (b: bool)
        ensures
            b == (self@ == other@),
    ;

    /// Makes a copy of a key that views the same.
    fn clone_key(&self) -> (r: Self)
        ensures
            r@ == self@,
    ;
}

impl TableKey for u8 {
    fn key_eq(&self, other: &Self) -> (b: bool) {
        *self == *other
    }

    fn clone_key(&self) -> (r: Self) {
        *self
    }
}

impl TableKey for u16 {
    fn key_eq(&self, other: &Self) -> (b: bool) {
        *self == *other
    }

    fn clone_key(&self) -> (r: Self) {
        *self
    }
}

impl TableKey for u32 {
    fn key_eq(&self, other: &Self) -> (b: bool) {
        *self == *other
    }

    fn clone_key(&self) -> (r: Self) {
        *self
    }
}

impl TableKey for u64 {
    fn key_eq(&self, other: &Self) -> (b: bool) {
        *self == *other
    }

    fn clone_key(&self) -> (r: Self) {
        *self
    }
}

impl TableKey for usize {
    fn key_eq(&self, other: &Self) -> (b: bool) {
        *self == *other
    }

    fn clone_key(&self) -> (r: Self) {
        *self
    }
}

impl TableKey for i32 {
    fn key_eq(&self, other: &Self) -> (b: bool) {
        *self == *other
    }

    fn clone_key(&self) -> (r: Self) {
        *self
    }
}

impl TableKey for i64 {
    fn key_eq(&self, other: &Self) -> (b: bool) {
        *self == *other
    }

    fn clone_key(&self) -> (r: Self) {
        *self
    }
}

impl<'k> TableKey for &'k str {
    fn key_eq(&self, other: &Self) -> (b: bool) {
        let a = self.as_bytes();
        let c = other.as_bytes();
        proof {
            vstd::utf8::encode_utf8_decode_utf8(self@);
            vstd::utf8::encode_utf8_decode_utf8(other@);
        }
        if a.len() != c.len() {
            return false;
        }
        let mut i: usize = 0;
        while i < a.len()
            invariant
                a@.len() == c@.len(),
                i <= a@.len(),
                self@ == other@ ==> a@ == c@,
                forall|j: int| 0 <= j < i ==> a@[j] == c@[j],
            decreases a@.len() - i,
        {
            if a[i] != c[i] {
                return false;
            }
            i = i + 1;
        }
        assert(a@ =~= c@);
        true
    }

    fn clone_key(&self) -> (r: Self) {
        *self
    }
}

impl TableKey for String {
    fn key_eq(&self, other: &Self) -> (b: bool) {
        *self == *other
    }

    fn clone_key(&self) -> (r: Self) {
        self.clone()
    }
}

/// How the value of a singleton is represented in the store.
///
/// `P` is the payload type of the store: the type of values stored boxed, shared or by static
/// reference.
pub trait StorageClass<P: 'static> {
    /// The type of the value, as read by reference.
    type Value;
    /// The type used to initialize and take back the value.
    type ArgValue;

    /// The stored form of an argument value.
    spec fn stored(value: Self::ArgValue) -> SinValue<P>;

    /// Whether a stored value has the form of this class.
    spec fn holds(value: SinValue<P>) -> bool;

    /// The argument value that a stored value gives back.
    spec fn arg_of(value: SinValue<P>) -> Self::ArgValue;

    /// The value that a stored value gives by reference.
    spec fn value_of(value: SinValue<P>) -> Self::Value;

    /// The value that an argument value gives by reference once stored.
    spec fn value_of_arg(value: Self::ArgValue) -> Self::Value;

    /// Every argument value is stored in the form of this class and is given back unchanged.
    proof fn lemma_stored(value: Self::ArgValue)
        ensures
            !(Self::stored(value) is Empty),
            Self::holds(Self::stored(value)),
            Self::arg_of(Self::stored(value)) == value,
            Self::value_of(Self::stored(value)) == Self::value_of_arg(value),
    ;

    fn to_value(value: Self::ArgValue) -> (r: SinValue<P>)
        ensures
            r == Self::stored(value),
    ;

    fn from_value(value: SinValue<P>) -> (r: Self::ArgValue)
        requires
            Self::holds(value),
        ensures
            r == Self::arg_of(value),
    ;

    fn from_value_ref(value: &SinValue<P>) -> (r: &Self::Value)
        requires
            Self::holds(*value),
        ensures
            *r == Self::value_of(*value),
    ;
}

/// A representation class whose values can be taken out of the store, changed and put back.
pub trait MutStorageClass<P: 'static>: StorageClass<P> {
    /// The stored form of a value.
    spec fn stored_value(value: Self::Value) -> SinValue<P>;

    /// Takes the value out of its stored form.
    fn take_value(value: SinValue<P>) -> (r: Self::Value)
        requires
            Self::holds(value),
        ensures
            r == Self::value_of(value),
    ;

    /// Puts a value into its stored form.
    fn put_value(value: Self::Value) -> (r: SinValue<P>)
        ensures
            r == Self::stored_value(value),
            Self::holds(r),
            Self::value_of(r) == value,
    ;
}

/// A singleton key/value.
///
/// `P` is the payload type of the store the singleton lives in. `KEY` tells the singleton apart
/// from the other singletons of the store.
pub trait Singleton<P: 'static> {
    /// How the value is represented in the store.
    type Class: StorageClass<P>;

    /// The key of the singleton in the store. Each singleton of a store has a key of its own:
    /// two singletons with one key would read each other's values.
    const KEY: u64;

    fn from_value(value: SinValue<P>) -> (r: <Self::Class as StorageClass<P>>::ArgValue)
        requires
            Self::Class::holds(value),
        ensures
            r == Self::Class::arg_of(value),
    {
        Self::Class::from_value(value)
    }

    fn from_value_ref(value: &SinValue<P>) -> (r: &<Self::Class as StorageClass<P>>::Value)
        requires
            Self::Class::holds(*value),
        ensures
            *r == Self::Class::value_of(*value),
    {
        Self::Class::from_value_ref(value)
    }

    fn to_value(value: <Self::Class as StorageClass<P>>::ArgValue) -> (r: SinValue<P>)
        ensures
            r == Self::Class::stored(value),
    {
        Self::Class::to_value(value)
    }
}

/// A singleton key/value which is stored as an `Arc`.
pub trait ArcSingleton<P: 'static>: Singleton<P, Class = ArcClass> {
    fn from_value_arc(value: &SinValue<P>) -> (r: Arc<P>)
        requires
            *value is Arc,
        ensures
            *r == *value->Arc_0,
    {
        match value {
            SinValue::Arc(a) => crate::storage::share(a),
            _ => vstd::pervasive::unreached(),
        }
    }
}

/// Marks a singleton value as mutable (i.e., the value in the store is unique).
pub trait MutSingleton<P: 'static>: Singleton<P, Class: MutStorageClass<P>> {
}

/// The table of rows that `D` describes.
pub type TableOf<D> = Table<<D as TableDesc>::Key, <D as TableDesc>::Value>;

/// Describes tabular key/values in the store.
pub trait TableDesc: Sized + 'static {
    /// The type of the key.
    type Key: TableKey;
    /// The type of the value.
    type Value;
    /// The storage for the table.
    type Storage: GeneratedStorage;
    /// Where the table sits in the storage's list of tables.
    type Position: TablePosition<<Self::Storage as GeneratedStorage>::List, TableOf<Self>>;

    /// The name of the table.
    const NAME: &'static str;

}

/// Table `D` of a storage.
pub fn get_table<D: TableDesc>(storage: &D::Storage) -> (r: &TableOf<D>)
    ensures
        *r == table_of::<D>(*storage),
{
    D::Position::get_ref(storage.list_ref())
}

/// Mutable access to table `D` of a storage.
pub fn get_table_mut<D: TableDesc>(storage: &mut D::Storage) -> (r: &mut TableOf<D>)
    ensures
        *r == table_of::<D>(*old(storage)),
        *final(storage) == with_table_of::<D>(*old(storage), *final(r)),
{
    D::Position::get_mut(storage.list_mut())
}

/// The table `D` held by a storage.
pub open spec fn table_of<D: TableDesc>(storage: D::Storage) -> TableOf<D> {
    <D::Position as TablePosition<<D::Storage as GeneratedStorage>::List, TableOf<D>>>::get(storage.list())
}

/// A storage whose table `D` is replaced by `table`, all else being as in `storage`.
pub open spec fn with_table_of<D: TableDesc>(storage: D::Storage, table: TableOf<D>) -> D::Storage {
    storage.with_list(
        <D::Position as TablePosition<<D::Storage as GeneratedStorage>::List, TableOf<D>>>::set(
            storage.list(),
            table,
        ),
    )
}

/// The table put into a storage is the table it then holds.
pub proof fn lemma_table_of_with_table<D: TableDesc>(storage: D::Storage, table: TableOf<D>)
    ensures
        table_of::<D>(with_table_of::<D>(storage, table)) == table,
{
    let list = <D::Position as TablePosition<<D::Storage as GeneratedStorage>::List, TableOf<D>>>::set(
        storage.list(),
        table,
    );
    storage.lemma_list_with_list(list);
    <D::Position as TablePosition<
        <D::Storage as GeneratedStorage>::List,
        TableOf<D>,
    >>::lemma_get_set(storage.list(), table);
}

/// Putting back the table a storage holds leaves it as it is.
pub proof fn lemma_with_own_table<D: TableDesc>(storage: D::Storage)
    ensures
        with_table_of::<D>(storage, table_of::<D>(storage)) == storage,
{
    <D::Position as TablePosition<
        <D::Storage as GeneratedStorage>::List,
        TableOf<D>,
    >>::lemma_set_get(storage.list());
    storage.lemma_with_own_list();
}

/// Putting two tables into a storage one after the other leaves the second.
pub proof fn lemma_with_table_twice<D: TableDesc>(
    storage: D::Storage,
    first: TableOf<D>,
    second: TableOf<D>,
)
    ensures
        with_table_of::<D>(with_table_of::<D>(storage, first), second) == with_table_of::<D>(
            storage,
            second,
        ),
{
    let l1 = <D::Position as TablePosition<<D::Storage as GeneratedStorage>::List, TableOf<D>>>::set(
        storage.list(),
        first,
    );
    storage.lemma_list_with_list(l1);
    storage.lemma_with_list_twice(
        l1,
        <D::Position as TablePosition<<D::Storage as GeneratedStorage>::List, TableOf<D>>>::set(l1, second),
    );
    <D::Position as TablePosition<
        <D::Storage as GeneratedStorage>::List,
        TableOf<D>,
    >>::lemma_set_set(storage.list(), first, second);
}

/// What can be made fresh: an empty table without an owner, or a list of such tables.
pub trait Fresh: Sized {
    /// Whether the value is as it is made fresh.
    spec fn is_fresh(self) -> bool;

    fn fresh() -> (r: Self)
        ensures
            r.is_fresh(),
    ;
}

impl Fresh for () {
    open spec fn is_fresh(self) -> bool {
        true
    }

    fn fresh() -> (r: ()) {
    }
}

impl<T: Fresh, Rest: Fresh> Fresh for (T, Rest) {
    open spec fn is_fresh(self) -> bool {
        self.0.is_fresh() && self.1.is_fresh()
    }

    fn fresh() -> (r: (T, Rest)) {
        (T::fresh(), Rest::fresh())
    }
}

/// Where a table of type `T` sits in a list of tables `L` of the form
/// `(Table<A>, (TableOf<B>, ... ()))`.
pub trait TablePosition<L: Fresh, T: Fresh> {
    /// The table at this position.
    spec fn get(list: L) -> T;

    /// The list with the table at this position replaced.
    spec fn set(list: L, table: T) -> L;

    proof fn lemma_get_set(list: L, table: T)
        ensures
            Self::get(Self::set(list, table)) == table,
    ;

    proof fn lemma_set_get(list: L)
        ensures
            Self::set(list, Self::get(list)) == list,
    ;

    proof fn lemma_set_set(list: L, first: T, second: T)
        ensures
            Self::set(Self::set(list, first), second) == Self::set(list, second),
    ;

    /// The table at this position of a fresh list is fresh.
    proof fn lemma_fresh(list: L)
        requires
            list.is_fresh(),
        ensures
            Self::get(list).is_fresh(),
    ;

    fn get_ref(list: &L) -> (r: &T)
        ensures
            *r == Self::get(*list),
    ;

    fn get_mut(list: &mut L) -> (r: &mut T)
        ensures
            *r == Self::get(*old(list)),
            *final(list) == Self::set(*old(list), *final(r)),
    ;
}

/// The first table of a list.
pub struct Here;

/// A table further down a list: at position `P` of the rest of the list.
pub struct There<P> {
    position: PhantomData<P>,
}

impl<T: Fresh, Rest: Fresh> TablePosition<(T, Rest), T> for Here {
    open spec fn get(list: (T, Rest)) -> T {
        list.0
    }

    open spec fn set(list: (T, Rest), table: T) -> (T, Rest) {
        (table, list.1)
    }

    proof fn lemma_get_set(list: (T, Rest), table: T) {
    }

    proof fn lemma_set_get(list: (T, Rest)) {
    }

    proof fn lemma_set_set(list: (T, Rest), first: T, second: T) {
    }

    proof fn lemma_fresh(list: (T, Rest)) {
    }

    fn get_ref(list: &(T, Rest)) -> (r: &T) {
        &list.0
    }

    fn get_mut(list: &mut (T, Rest)) -> (r: &mut T) {
        &mut list.0
    }
}

impl<H: Fresh, Rest: Fresh, T: Fresh, P: TablePosition<Rest, T>> TablePosition<(H, Rest), T> for There<P> {
    open spec fn get(list: (H, Rest)) -> T {
        P::get(list.1)
    }

    open spec fn set(list: (H, Rest), table: T) -> (H, Rest) {
        (list.0, P::set(list.1, table))
    }

    proof fn lemma_get_set(list: (H, Rest), table: T) {
        P::lemma_get_set(list.1, table);
    }

    proof fn lemma_set_get(list: (H, Rest)) {
        P::lemma_set_get(list.1);
    }

    proof fn lemma_set_set(list: (H, Rest), first: T, second: T) {
        P::lemma_set_set(list.1, first, second);
    }

    proof fn lemma_fresh(list: (H, Rest)) {
        P::lemma_fresh(list.1);
    }

    fn get_ref(list: &(H, Rest)) -> (r: &T) {
        P::get_ref(&list.1)
    }

    fn get_mut(list: &mut (H, Rest)) -> (r: &mut T) {
        P::get_mut(&mut list.1)
    }
}

/// Two different positions of a list: replacing the table at position `Q` leaves the table at
/// this position as it is.
pub trait Apart<L: Fresh, T: Fresh, U: Fresh, Q: TablePosition<L, U>>: TablePosition<L, T> {
    proof fn lemma_apart(list: L, table: U)
        ensures
            Self::get(Q::set(list, table)) == Self::get(list),
    ;

    proof fn lemma_apart_back(list: L, table: T)
        ensures
            Q::get(Self::set(list, table)) == Q::get(list),
    ;

    proof fn lemma_commute(list: L, mine: T, other: U)
        ensures
            Q::set(Self::set(list, mine), other) == Self::set(Q::set(list, other), mine),
    ;
}

impl<T: Fresh, U: Fresh, Rest: Fresh, Q: TablePosition<Rest, U>> Apart<(T, Rest), T, U, There<Q>> for Here {
    proof fn lemma_apart(list: (T, Rest), table: U) {
    }

    proof fn lemma_apart_back(list: (T, Rest), table: T) {
    }

    proof fn lemma_commute(list: (T, Rest), mine: T, other: U) {
    }
}

impl<T: Fresh, U: Fresh, Rest: Fresh, P: TablePosition<Rest, T>> Apart<(U, Rest), T, U, Here> for There<P> {
    proof fn lemma_apart(list: (U, Rest), table: U) {
        P::lemma_set_get(list.1);
    }

    proof fn lemma_apart_back(list: (U, Rest), table: T) {
    }

    proof fn lemma_commute(list: (U, Rest), mine: T, other: U) {
    }
}

impl<H: Fresh, T: Fresh, U: Fresh, Rest: Fresh, P: Apart<Rest, T, U, Q>, Q: TablePosition<Rest, U>> Apart<
    (H, Rest),
    T,
    U,
    There<Q>,
> for There<P> {
    proof fn lemma_apart(list: (H, Rest), table: U) {
        P::lemma_apart(list.1, table);
    }

    proof fn lemma_apart_back(list: (H, Rest), table: T) {
        P::lemma_apart_back(list.1, table);
    }

    proof fn lemma_commute(list: (H, Rest), mine: T, other: U) {
        P::lemma_commute(list.1, mine, other);
    }
}

/// Describes an index: a table that maps a key drawn from the values of a base table to the key
/// of the base row it was drawn from.
pub trait IndexDesc: TableDesc {
    /// The table that the index refers to.
    type BaseTable: TableDesc<Storage = Self::Storage>;

    /// The key of the index drawn from a value of the base table.
    fn index_key(value: &<Self::BaseTable as TableDesc>::Value) -> Self::Key;
}

/// The view of the key of index `D` drawn from a value of its base table: the view of a key that
/// `index_key` may give for it.
pub open spec fn index_key_of<D: IndexDesc>(value: <D::BaseTable as TableDesc>::Value) -> <D::Key as View>::V {
    (choose|k: D::Key| call_ensures(D::index_key, (&value,), k))@
}

/// `index_key` draws keys of one view from equal values: the key of the index is a function of
/// the value.
pub open spec fn index_key_is_function<D: IndexDesc>() -> bool {
    forall|value: <D::BaseTable as TableDesc>::Value, k1: D::Key, k2: D::Key|
        #![trigger call_ensures(D::index_key, (&value,), k1), call_ensures(D::index_key, (&value,), k2)]
        call_ensures(D::index_key, (&value,), k1) && call_ensures(D::index_key, (&value,), k2)
            ==> k1@ == k2@
}

/// A key given by `index_key` has the view `index_key_of` names.
pub proof fn lemma_index_key<D: IndexDesc>(value: <D::BaseTable as TableDesc>::Value, k: D::Key)
    requires
        index_key_is_function::<D>(),
        call_ensures(D::index_key, (&value,), k),
    ensures
        k@ == index_key_of::<D>(value),
{
    let c = choose|c: D::Key| call_ensures(D::index_key, (&value,), c);
    assert(call_ensures(D::index_key, (&value,), c));
}

/// Storage generated for the tables of a store.
pub trait GeneratedStorage: Default {
    /// The type of the values of the store's singletons that are stored boxed, shared or by
    /// static reference.
    type Payload: 'static;
    /// The list of tables: `(Table<A>, (TableOf<B>, ... ()))`.
    type List: Fresh;

    /// The list of tables held.
    spec fn list(self) -> Self::List;

    /// The storage with its list of tables replaced.
    spec fn with_list(self, list: Self::List) -> Self;

    proof fn lemma_list_with_list(self, list: Self::List)
        ensures
            self.with_list(list).list() == list,
    ;

    proof fn lemma_with_own_list(self)
        ensures
            self.with_list(self.list()) == self,
    ;

    proof fn lemma_with_list_twice(self, first: Self::List, second: Self::List)
        ensures
            self.with_list(first).with_list(second) == self.with_list(second),
    ;

    /// A storage whose tables are all empty and without an owner.
    fn new_fresh() -> (r: Self)
        ensures
            r.list().is_fresh(),
    ;

    fn list_ref(&self) -> (r: &Self::List)
        ensures
            *r == self.list(),
    ;

    fn list_mut(&mut self) -> (r: &mut Self::List)
        ensures
            *r == old(self).list(),
            *final(self) == old(self).with_list(*final(r)),
    ;
}

/// The storage of a store's tables: a list of tables `L` of the form
/// `(Table<A>, (TableOf<B>, ... ()))`, where `P` is the payload type of the store's singletons.
pub struct Tables<P, L> {
    list: L,
    payload: PhantomData<P>,
}

impl<P: 'static, L: Fresh> Default for Tables<P, L> {
    fn default() -> (r: Self)
        ensures
            r.list().is_fresh(),
    {
        Tables { list: L::fresh(), payload: PhantomData }
    }
}

impl<P: 'static, L: Fresh> GeneratedStorage for Tables<P, L> {
    type Payload = P;

    type List = L;

    closed spec fn list(self) -> L {
        self.list
    }

    closed spec fn with_list(self, list: L) -> Self {
        Tables { list, payload: self.payload }
    }

    proof fn lemma_list_with_list(self, list: L) {
    }

    proof fn lemma_with_own_list(self) {
    }

    proof fn lemma_with_list_twice(self, first: L, second: L) {
    }

    fn new_fresh() -> (r: Self) {
        Tables { list: L::fresh(), payload: PhantomData }
    }

    fn list_ref(&self) -> (r: &L) {
        &self.list
    }

    fn list_mut(&mut self) -> (r: &mut L) {
        &mut self.list
    }
}

/// A single `u64` stored inline.
pub struct U64Class;

/// A value stored in a box.
pub struct BoxClass;

/// A value stored as a shared reference (`Arc`).
pub struct ArcClass;

/// A value stored as a static reference.
pub struct RefClass;

impl<P: 'static> StorageClass<P> for U64Class {
    type Value = u64;

    type ArgValue = u64;

    open spec fn stored(value: u64) -> SinValue<P> {
        SinValue::U64(value)
    }

    open spec fn holds(value: SinValue<P>) -> bool {
        value is U64
    }

    open spec fn arg_of(value: SinValue<P>) -> u64 {
        value->U64_0
    }

    open spec fn value_of(value: SinValue<P>) -> u64 {
        value->U64_0
    }

    open spec fn value_of_arg(value: u64) -> u64 {
        value
    }

    proof fn lemma_stored(value: u64) {
    }

    fn to_value(value: u64) -> (r: SinValue<P>) {
        SinValue::U64(value)
    }

    fn from_value(value: SinValue<P>) -> (r: u64) {
        match value {
            SinValue::U64(v) => v,
            _ => vstd::pervasive::unreached(),
        }
    }

    fn from_value_ref(value: &SinValue<P>) -> (r: &u64) {
        match value {
            SinValue::U64(v) => v,
            _ => vstd::pervasive::unreached(),
        }
    }
}

impl<P: 'static> MutStorageClass<P> for U64Class {
    open spec fn stored_value(value: u64) -> SinValue<P> {
        SinValue::U64(value)
    }

    fn take_value(value: SinValue<P>) -> (r: u64) {
        match value {
            SinValue::U64(v) => v,
            _ => vstd::pervasive::unreached(),
        }
    }

    fn put_value(value: u64) -> (r: SinValue<P>) {
        SinValue::U64(value)
    }
}

impl<P: 'static> StorageClass<P> for BoxClass {
    type Value = P;

    type ArgValue = P;

    open spec fn stored(value: P) -> SinValue<P> {
        SinValue::Box(Box::new(value))
    }

    open spec fn holds(value: SinValue<P>) -> bool {
        value is Box
    }

    open spec fn arg_of(value: SinValue<P>) -> P {
        *value->Box_0
    }

    open spec fn value_of(value: SinValue<P>) -> P {
        *value->Box_0
    }

    open spec fn value_of_arg(value: P) -> P {
        value
    }

    proof fn lemma_stored(value: P) {
    }

    fn to_value(value: P) -> (r: SinValue<P>) {
        SinValue::Box(Box::new(value))
    }

    fn from_value(value: SinValue<P>) -> (r: P) {
        match value {
            SinValue::Box(v) => *v,
            _ => vstd::pervasive::unreached(),
        }
    }

    fn from_value_ref(value: &SinValue<P>) -> (r: &P) {
        match value {
            SinValue::Box(v) => &**v,
            _ => vstd::pervasive::unreached(),
        }
    }
}

impl<P: 'static> MutStorageClass<P> for BoxClass {
    open spec fn stored_value(value: P) -> SinValue<P> {
        SinValue::Box(Box::new(value))
    }

    fn take_value(value: SinValue<P>) -> (r: P) {
        match value {
            SinValue::Box(v) => *v,
            _ => vstd::pervasive::unreached(),
        }
    }

    fn put_value(value: P) -> (r: SinValue<P>) {
        SinValue::Box(Box::new(value))
    }
}

impl<P: 'static> StorageClass<P> for ArcClass {
    type Value = P;

    type ArgValue = Arc<P>;

    open spec fn stored(value: Arc<P>) -> SinValue<P> {
        SinValue::Arc(value)
    }

    open spec fn holds(value: SinValue<P>) -> bool {
        value is Arc
    }

    open spec fn arg_of(value: SinValue<P>) -> Arc<P> {
        value->Arc_0
    }

    open spec fn value_of(value: SinValue<P>) -> P {
        *value->Arc_0
    }

    open spec fn value_of_arg(value: Arc<P>) -> P {
        *value
    }

    proof fn lemma_stored(value: Arc<P>) {
    }

    fn to_value(value: Arc<P>) -> (r: SinValue<P>) {
        SinValue::Arc(value)
    }

    fn from_value(value: SinValue<P>) -> (r: Arc<P>) {
        match value {
            SinValue::Arc(v) => v,
            _ => vstd::pervasive::unreached(),
        }
    }

    fn from_value_ref(value: &SinValue<P>) -> (r: &P) {
        match value {
            SinValue::Arc(v) => &**v,
            _ => vstd::pervasive::unreached(),
        }
    }
}

impl<P: 'static> StorageClass<P> for RefClass {
    type Value = P;

    type ArgValue = &'static P;

    open spec fn stored(value: &'static P) -> SinValue<P> {
        SinValue::Ref(value)
    }

    open spec fn holds(value: SinValue<P>) -> bool {
        value is Ref
    }

    open spec fn arg_of(value: SinValue<P>) -> &'static P {
        value->Ref_0
    }

    open spec fn value_of(value: SinValue<P>) -> P {
        *value->Ref_0
    }

    open spec fn value_of_arg(value: &'static P) -> P {
        *value
    }

    proof fn lemma_stored(value: &'static P) {
    }

    fn to_value(value: &'static P) -> (r: SinValue<P>) {
        SinValue::Ref(value)
    }

    fn from_value(value: SinValue<P>) -> (r: &'static P) {
        match value {
            SinValue::Ref(v) => v,
            _ => vstd::pervasive::unreached(),
        }
    }

    fn from_value_ref(value: &SinValue<P>) -> (r: &P) {
        match value {
            SinValue::Ref(v) => *v,
            _ => vstd::pervasive::unreached(),
        }
    }
}

} // verus!
