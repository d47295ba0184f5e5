use crate::errors::Error;
use crate::index::Indexer;
use crate::record::Record;
use crate::store::Store;
use crate::sync::{exclusive, new_lock, read_lock, shared, write_lock};
use std::sync::{Arc, RwLock};
use vstd::prelude::*;

verus! {

/// A table whose inserts also run its indexer, which files each new record
/// in the table's secondary indexes. The records and the indexes sit
/// behind locks of their own; clones of a table share both.
///
/// Other handles may insert between any two calls, so what a call finds in
/// the store is not known in advance: the contracts here state what holds
/// whatever the store holds, and `Store`'s own contracts state exactly what
/// each locked step does to it.
#[verifier::reject_recursive_types(T)]
#[verifier::reject_recursive_types(Indexes)]
pub struct Table<T, Indexes> {
    pub data: Arc<RwLock<Store<T>>>,
    pub indexes: Arc<RwLock<Indexes>>,
}

impl<T, Indexes> Clone for Table<T, Indexes> {
    /// Another handle on the same records and indexes.
    fn clone(&self) -> (r: Self)
        ensures
            r == *self,
    {
        Table { data: Arc::clone(&self.data), indexes: Arc::clone(&self.indexes) }
    }
}

/// `read`, applied to some value, may give `a`.
pub open spec fn read_gave_some<X, A, F: FnOnce(&X) -> A>(read: F, a: A) -> bool {
    exists|x: &X| #[trigger] read.ensures((x,), a)
}

impl<T, Indexes: Indexer<Item = T>> Table<T, Indexes> {
    /// A table with no records, whose indexes start as their default.
    pub fn new() -> (t: Self) {
        Table {
            data: Arc::new(new_lock(Store::new())),
            indexes: Arc::new(new_lock(Indexes::default())),
        }
    }

    /// The record with id `id`. Fails with `RecordNotFound(id)` where the
    /// table holds none (always for id 0, which is never issued), and with
    /// `LockPoisoned` where the lock is poisoned.
    pub fn find(&self, id: usize) -> (r: Result<Record<T>, Error>)
        ensures
            match r {
                Ok(rec) => rec.id == id && id >= 1,
                Err(e) => e == Error::RecordNotFound(id) || e is LockPoisoned,
            },
            id == 0 ==> r is Err,
    {
        let guard = read_lock(&*self.data)?;
        let store = shared(&guard);
        store.find(id)
    }

    /// Stores `value` under the next id, then, with the records' lock
    /// released, runs the indexer on the new record, and returns the
    /// record. Fails with `LockPoisoned` where a lock is poisoned, with
    /// `IdsExhausted` once every id has been issued, and with whatever the
    /// indexer reports; in that last case the record stays stored.
    pub fn insert(&mut self, value: T) -> (r: Result<Record<T>, Error>)
        ensures
            *final(self) == *old(self),
            r matches Ok(rec) ==> rec.id >= 1 && rec.data == value,
    {
        let record = {
            let mut guard = write_lock(&*self.data)?;
            let store = exclusive(&mut guard);
            store.insert(value)?
        };
        let mut guard = write_lock(&*self.indexes)?;
        let indexes = exclusive(&mut guard);
        indexes.index(&record)?;
        Ok(record)
    }

    /// Applies `read` to the indexes under a shared lock and returns what
    /// it gives; fails with `LockPoisoned` where that lock is poisoned.
    pub fn with_indexes<F, A>(&self, read: F) -> (r: Result<A, Error>)
        where
            F: FnOnce(&Indexes) -> A,
        requires
            forall|ix: &Indexes| #[trigger] read.requires((ix,)),
        ensures
            match r {
                Ok(a) => read_gave_some(read, a),
                Err(e) => e is LockPoisoned,
            },
    {
        let guard = read_lock(&*self.indexes)?;
        let indexes = shared(&guard);
        let a = read(indexes);
        assert(read_gave_some(read, a));
        Ok(a)
    }
}

/// A table with no indexes: the same `insert` and `find` as `Table`,
/// without an indexer to run.
#[verifier::reject_recursive_types(T)]
pub struct PlainTable<T> {
    pub data: Arc<RwLock<Store<T>>>,
}

impl<T> Clone for PlainTable<T> {
    /// Another handle on the same records.
    fn clone(&self) -> (r: Self)
        ensures
            r == *self,
    {
        PlainTable { data: Arc::clone(&self.data) }
    }
}

impl<T> PlainTable<T> {
    /// A table with no records.
    pub fn new() -> (t: Self) {
        PlainTable { data: Arc::new(new_lock(Store::new())) }
    }

    /// The record with id `id`. Fails with `RecordNotFound(id)` where the
    /// table holds none (always for id 0, which is never issued), and with
    /// `LockPoisoned` where the lock is poisoned.
    pub fn find(&self, id: usize) -> (r: Result<Record<T>, Error>)
        ensures
            match r {
                Ok(rec) => rec.id == id && id >= 1,
                Err(e) => e == Error::RecordNotFound(id) || e is LockPoisoned,
            },
            id == 0 ==> r is Err,
    {
        let guard = read_lock(&*self.data)?;
        let store = shared(&guard);
        store.find(id)
    }

    /// Stores `value` under the next id and returns the new record. Fails
    /// with `LockPoisoned` where the lock is poisoned, and with
    /// `IdsExhausted` once every id has been issued.
    pub fn insert(&mut self, value: T) -> (r: Result<Record<T>, Error>)
        ensures
            *final(self) == *old(self),
            match r {
                Ok(rec) => rec.id >= 1 && rec.data == value,
                Err(e) => e is LockPoisoned || e == Error::IdsExhausted,
            },
    {
        let mut guard = write_lock(&*self.data)?;
        let store = exclusive(&mut guard);
        store.insert(value)
    }
}

} // verus!
