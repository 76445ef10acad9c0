use vstd::prelude::*;
use vstd::rwlock::{RwLock, RwLockPredicate};

use std::sync::Arc;

use crate::store::{Lookup, PutError, PutOutcome};
use crate::table::Table;

verus! {

/// What an entry's value lock demands of the value: any text will do.
pub struct AnyText;

impl RwLockPredicate<String> for AnyText {
    open spec fn inv(self, v: String) -> bool {
        true
    }
}

/// An entry: one value behind its own reader-writer lock.
pub type ValueLock = RwLock<String, AnyText>;

/// What the map lock demands of the key set: one entry per non-empty key.
pub struct OneEntryPerKey;

impl RwLockPredicate<Table<Arc<ValueLock>>> for OneEntryPerKey {
    open spec fn inv(self, t: Table<Arc<ValueLock>>) -> bool {
        t.wf()
    }
}

/// The key set: a table of shared entry handles behind the map lock.
pub type MapLock = RwLock<Table<Arc<ValueLock>>, OneEntryPerKey>;

/// A key-value store that many workers use at once.
///
/// The map lock guards which keys exist; each entry's value has a lock of
/// its own. No operation holds the map lock while it waits for a value lock,
/// so work on one key never waits for work on another beyond the brief
/// lookup of a handle.
pub struct Store {
    map: MapLock,
}

impl Store {
    /// An empty store.
    pub fn new() -> (s: Self)
    {
        Store { map: RwLock::new(Table::new(), Ghost(OneEntryPerKey)) }
    }

    /// Looks up the entry handle for `key` under the map lock in read mode,
    /// and releases the map lock before returning it.
    fn entry(&self, key: &String) -> (r: Option<Arc<ValueLock>>)
    {
        let handle = self.map.acquire_read();
        let found = match handle.borrow().get(key) {
            Some(cell) => Some(share(cell)),
            None => None,
        };
        handle.release_read();
        found
    }

    /// Reads the value under `key`.
    ///
    /// With no key given, no lookup is made. Otherwise the key's entry is
    /// looked up under the map lock, and its value is copied out under the
    /// entry's own lock after the map lock is released.
    pub fn get(&self, key: &str) -> (r: Lookup<String>)
        ensures
            r is NoKeySpecified <==> key@.len() == 0,
    {
        if key.is_empty() {
            return Lookup::NoKeySpecified;
        }
        let k = key.to_owned();
        match self.entry(&k) {
            None => Lookup::NotFound,
            Some(cell) => {
                let handle = cell.acquire_read();
                let v = handle.borrow().clone();
                handle.release_read();
                Lookup::Found(v)
            },
        }
    }

    /// Writes `value` under `key`.
    ///
    /// An existing entry is overwritten under its own lock (`Updated`). A
    /// new key is inserted under the map lock in write mode, unless a racing
    /// write created it first, in which case that entry is kept (`Created`).
    pub fn put(&self, key: &str, value: &str) -> (r: Result<PutOutcome, PutError>)
        ensures
            key@.len() == 0 <==> r == Err::<PutOutcome, PutError>(PutError::BadRequest),
            key@.len() > 0 ==> r is Ok,
    {
        if key.is_empty() {
            return Err(PutError::BadRequest);
        }
        let k = key.to_owned();
        match self.entry(&k) {
            Some(cell) => {
                let (_previous, handle) = cell.acquire_write();
                handle.release_write(value.to_owned());
                Ok(PutOutcome::Updated)
            },
            None => {
                let fresh: ValueLock = RwLock::new(value.to_owned(), Ghost(AnyText));
                let (mut table, handle) = self.map.acquire_write();
                table.insert_if_absent(k, Arc::new(fresh));
                handle.release_write(table);
                Ok(PutOutcome::Created)
            },
        }
    }
}

/// Relies on `Arc::clone`: the new handle refers to the same entry.
#[verifier::external_body]
fn share(cell: &Arc<ValueLock>) -> (r: Arc<ValueLock>)
    ensures
        r == *cell,
{
    Arc::clone(cell)
}

} // verus!
