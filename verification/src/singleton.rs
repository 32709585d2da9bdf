//! Helpers for working with singleton key/values, and the operations of a storage on them.
use vstd::prelude::*;

use crate::schema::{
    ArcSingleton, GeneratedStorage, MutSingleton, MutStorageClass, Singleton, StorageClass,
};
use crate::storage::{SinValue, Storage};
use crate::Owner;
use std::sync::Arc;

verus! {

broadcast use vstd::std_specs::hash::group_hash_axioms;

/// Helper trait to handle `SinValue::Empty`: a stored tombstone counts as no value.
pub trait OptSingletonValue: Sized {
    type Value;

    /// The value held, if there is one that is not a tombstone.
    spec fn present(self) -> Option<Self::Value>;

    fn map_singleton_value<T, F: FnOnce(Self::Value) -> T>(self, f: F) -> (r: Option<T>)
        requires
            self.present() matches Some(v) ==> call_requires(f, (v,)),
        ensures
            match self.present() {
                Some(v) => r is Some && call_ensures(f, (v,), r->0),
                None => r is None,
            },
    ;
}

impl<'a, P: 'static> OptSingletonValue for Option<&'a (Owner, SinValue<P>)> {
    type Value = &'a SinValue<P>;

    open spec fn present(self) -> Option<&'a SinValue<P>> {
        match self {
            Some(entry) => if entry.1 is Empty {
                None
            } else {
                Some(&entry.1)
            },
            None => None,
        }
    }

    fn map_singleton_value<T, F: FnOnce(&'a SinValue<P>) -> T>(self, f: F) -> (r: Option<T>) {
        match self {
            Some(entry) => match &entry.1 {
                SinValue::Empty => None,
                v => Some(f(v)),
            },
            None => None,
        }
    }
}

impl<P: 'static> OptSingletonValue for Option<(Owner, SinValue<P>)> {
    type Value = SinValue<P>;

    open spec fn present(self) -> Option<SinValue<P>> {
        match self {
            Some(entry) => if entry.1 is Empty {
                None
            } else {
                Some(entry.1)
            },
            None => None,
        }
    }

    fn map_singleton_value<T, F: FnOnce(SinValue<P>) -> T>(self, f: F) -> (r: Option<T>) {
        match self {
            Some((_, v)) => match v {
                SinValue::Empty => None,
                v => Some(f(v)),
            },
            None => None,
        }
    }
}

/// Checks that the singleton with the given key is not owned by another owner.
pub fn assert_owner<TableStorage: GeneratedStorage>(
    owner: Owner,
    key: u64,
    storage: &Storage<TableStorage>,
)
    requires
        storage.singleton_owner(key) matches Some(prev) ==> prev == owner,
{
    match storage.get_singleton_owner(key) {
        Some(prev) => {
            assert(prev == owner);
        },
        None => {},
    }
}

/// The value that a stored singleton value gives by reference, for singleton `D`.
pub open spec fn value_of<P: 'static, D: Singleton<P>>(
    value: SinValue<P>,
) -> <D::Class as StorageClass<P>>::Value {
    <D::Class as StorageClass<P>>::value_of(value)
}

/// The argument value that a stored singleton value gives back, for singleton `D`.
pub open spec fn arg_of<P: 'static, D: Singleton<P>>(
    value: SinValue<P>,
) -> <D::Class as StorageClass<P>>::ArgValue {
    <D::Class as StorageClass<P>>::arg_of(value)
}

/// The stored form of an argument value of singleton `D`.
pub open spec fn stored<P: 'static, D: Singleton<P>>(
    value: <D::Class as StorageClass<P>>::ArgValue,
) -> SinValue<P> {
    <D::Class as StorageClass<P>>::stored(value)
}

/// Whether a stored value has the form of singleton `D`.
pub open spec fn holds<P: 'static, D: Singleton<P>>(value: SinValue<P>) -> bool {
    <D::Class as StorageClass<P>>::holds(value)
}

/// What taking back the value of singleton `D` gives: `None` where there is no value.
pub open spec fn taken<P: 'static, D: Singleton<P>>(value: Option<SinValue<P>>) -> Option<
    <D::Class as StorageClass<P>>::ArgValue,
> {
    match value {
        Some(v) => Some(arg_of::<P, D>(v)),
        None => None,
    }
}

} // verus!
