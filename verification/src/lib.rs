//! An in-memory key/value store: typed singleton values and tables of rows, each with an owner,
//! accessed directly or through transactions.
use vstd::prelude::*;

pub mod hasher;
pub mod index;
pub mod iter;
pub mod properties;
pub mod raw;
pub mod schema;
pub mod singleton;
pub mod storage;
pub mod transactions;

use crate::schema::GeneratedStorage;
use crate::storage::Storage;

verus! {

/// The owner of a key/value or of a table.
pub type Owner = &'static str;

/// Errors of the store.
#[derive(Debug, Clone)]
pub enum Error {
    /// The table has already been initialized; holds its owner.
    AlreadyInit(Owner),
    NotPresent,
}

pub type Result<T> = std::result::Result<T, Error>;

/// A key/value store.
pub struct KvStore<TableStorage: GeneratedStorage> {
    storage: Storage<TableStorage>,
}

impl<TableStorage: GeneratedStorage> View for KvStore<TableStorage> {
    type V = Storage<TableStorage>;

    /// The storage of the store.
    closed spec fn view(&self) -> Storage<TableStorage> {
        self.storage
    }
}

impl<TableStorage: GeneratedStorage> KvStore<TableStorage> {
    /// Create a new, empty store.
    pub fn new() -> (r: Self)
        ensures
            r@.is_fresh(),
    {
        KvStore { storage: Storage::new() }
    }

    /// Create a store holding the given storage.
    pub fn new_with_storage(storage: Storage<TableStorage>) -> (r: Self)
        ensures
            r@ == storage,
    {
        KvStore { storage }
    }
}

} // verus!
