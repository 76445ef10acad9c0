use vstd::prelude::*;

use crate::table::Table;

verus! {

/// What a read of one key yields.
#[derive(Debug, PartialEq, Eq)]
pub enum Lookup<T> {
    /// The key is present and holds this value.
    Found(T),
    /// The key has never been written.
    NotFound,
    /// No key was given, so no lookup was made.
    NoKeySpecified,
}

impl View for Lookup<String> {
    type V = Lookup<Seq<char>>;

    open spec fn view(&self) -> Lookup<Seq<char>> {
        match self {
            Lookup::Found(v) => Lookup::Found(v@),
            Lookup::NotFound => Lookup::NotFound,
            Lookup::NoKeySpecified => Lookup::NoKeySpecified,
        }
    }
}

/// How a successful write changed the store.
#[derive(Clone, Copy, Debug, PartialEq, Eq, Structural)]
pub enum PutOutcome {
    /// The key was absent and now has an entry.
    Created,
    /// The key was present and its value was overwritten.
    Updated,
}

/// Why a write was refused.
#[derive(Clone, Copy, Debug, PartialEq, Eq, Structural)]
pub enum PutError {
    /// No destination key was given.
    BadRequest,
}

/// The result of reading `k` from a store whose contents are `m`.
pub open spec fn get_spec(m: Map<Seq<char>, Seq<char>>, k: Seq<char>) -> Lookup<Seq<char>> {
    if k.len() == 0 {
        Lookup::NoKeySpecified
    } else if m.contains_key(k) {
        Lookup::Found(m[k])
    } else {
        Lookup::NotFound
    }
}

/// The contents after writing `v` under `k` into contents `m`.
pub open spec fn put_spec(m: Map<Seq<char>, Seq<char>>, k: Seq<char>, v: Seq<char>) -> Map<
    Seq<char>,
    Seq<char>,
> {
    if k.len() == 0 {
        m
    } else {
        m.insert(k, v)
    }
}

/// What writing under `k` into contents `m` reports.
pub open spec fn put_outcome_spec(m: Map<Seq<char>, Seq<char>>, k: Seq<char>) -> Result<
    PutOutcome,
    PutError,
> {
    if k.len() == 0 {
        Err(PutError::BadRequest)
    } else if m.contains_key(k) {
        Ok(PutOutcome::Updated)
    } else {
        Ok(PutOutcome::Created)
    }
}

/// The contents after the structural step of creating `k` with value `v`:
/// an insertion that leaves an entry already present untouched.
pub open spec fn create_spec(m: Map<Seq<char>, Seq<char>>, k: Seq<char>, v: Seq<char>) -> Map<
    Seq<char>,
    Seq<char>,
> {
    if m.contains_key(k) {
        m
    } else {
        m.insert(k, v)
    }
}

/// A key-value store owned by one caller: the exact behaviour of reads and
/// writes when nobody else changes the store meanwhile.
pub struct Database {
    table: Table<String>,
}

impl View for Database {
    type V = Map<Seq<char>, Seq<char>>;

    closed spec fn view(&self) -> Map<Seq<char>, Seq<char>> {
        self.table@.map_values(|v: String| v@)
    }
}

impl Database {
    pub closed spec fn wf(&self) -> bool {
        self.table.wf()
    }

    /// An empty store.
    pub fn new() -> (d: Self)
        ensures
            d.wf(),
            d@ == Map::<Seq<char>, Seq<char>>::empty(),
    {
        let d = Database { table: Table::new() };
        assert(d@ =~= Map::<Seq<char>, Seq<char>>::empty());
        d
    }

    /// The number of keys present.
    pub fn len(&self) -> (n: usize)
        requires
            self.wf(),
        ensures
            n == self@.dom().len(),
    {
        assert(self@.dom() =~= self.table@.dom());
        self.table.len()
    }

    /// Reads the value under `key`.
    pub fn get(&self, key: &str) -> (r: Lookup<String>)
        requires
            self.wf(),
        ensures
            r@ == get_spec(self@, key@),
    {
        if key.is_empty() {
            return Lookup::NoKeySpecified;
        }
        let k = key.to_owned();
        match self.table.get(&k) {
            Some(v) => Lookup::Found(v.clone()),
            None => Lookup::NotFound,
        }
    }

    /// Writes `value` under `key`, creating the entry if the key is new.
    pub fn put(&mut self, key: &str, value: &str) -> (r: Result<PutOutcome, PutError>)
        requires
            old(self).wf(),
        ensures
            final(self).wf(),
            r == put_outcome_spec(old(self)@, key@),
            final(self)@ == put_spec(old(self)@, key@, value@),
    {
        if key.is_empty() {
            return Err(PutError::BadRequest);
        }
        let k = key.to_owned();
        let v = value.to_owned();
        if self.table.get(&k).is_some() {
            self.table.replace(&k, v);
            assert(self@ =~= old(self)@.insert(key@, value@));
            Ok(PutOutcome::Updated)
        } else {
            self.create(k, v);
            Ok(PutOutcome::Created)
        }
    }

    /// Inserts `value` under `key` unless the key is already present.
    /// Returns whether this call made the entry.
    pub fn create(&mut self, key: String, value: String) -> (inserted: bool)
        requires
            old(self).wf(),
            key@.len() > 0,
        ensures
            final(self).wf(),
            inserted == !old(self)@.contains_key(key@),
            final(self)@ == create_spec(old(self)@, key@, value@),
    {
        let ghost k = key@;
        let ghost v = value@;
        let inserted = self.table.insert_if_absent(key, value);
        assert(self@ =~= create_spec(old(self)@, k, v));
        inserted
    }
}

/// A key that has never been written reads as not found.
pub proof fn law_unwritten_key_not_found(m: Map<Seq<char>, Seq<char>>, k: Seq<char>)
    requires
        k.len() > 0,
        !m.contains_key(k),
    ensures
        get_spec(m, k) == Lookup::<Seq<char>>::NotFound,
{
}

/// A read that follows a write of the same key returns the written value.
pub proof fn law_read_after_write(m: Map<Seq<char>, Seq<char>>, k: Seq<char>, v: Seq<char>)
    requires
        k.len() > 0,
    ensures
        get_spec(put_spec(m, k, v), k) == Lookup::Found(v),
{
}

/// Of two writes to one key made one after the other, a later read sees the
/// second.
pub proof fn law_last_write_wins(
    m: Map<Seq<char>, Seq<char>>,
    k: Seq<char>,
    v1: Seq<char>,
    v2: Seq<char>,
)
    requires
        k.len() > 0,
    ensures
        get_spec(put_spec(put_spec(m, k, v1), k, v2), k) == Lookup::Found(v2),
{
}

/// One write to a key as `Store::put` performs it: an overwrite when the
/// optimistic lookup found the key, otherwise the structural creation step.
pub open spec fn write_step(
    m: Map<Seq<char>, Seq<char>>,
    k: Seq<char>,
    v: Seq<char>,
    found: bool,
) -> Map<Seq<char>, Seq<char>> {
    if found && m.contains_key(k) {
        m.insert(k, v)
    } else {
        create_spec(m, k, v)
    }
}

/// Two racing writes of `v1` and `v2` to an absent key, in either order and
/// whichever path each takes, leave exactly one entry for the key, holding
/// one of the two values.
pub proof fn law_creation_race(
    m: Map<Seq<char>, Seq<char>>,
    k: Seq<char>,
    v1: Seq<char>,
    v2: Seq<char>,
    first_is_v1: bool,
    found_first: bool,
    found_second: bool,
)
    requires
        k.len() > 0,
        !m.contains_key(k),
    ensures
        ({
            let (a, b) = if first_is_v1 { (v1, v2) } else { (v2, v1) };
            let after = write_step(write_step(m, k, a, found_first), k, b, found_second);
            &&& after.dom() == m.dom().insert(k)
            &&& get_spec(after, k) == Lookup::Found(v1) || get_spec(after, k) == Lookup::Found(v2)
        }),
{
    let (a, b) = if first_is_v1 { (v1, v2) } else { (v2, v1) };
    let after = write_step(write_step(m, k, a, found_first), k, b, found_second);
    assert(after.dom() =~= m.dom().insert(k));
}

/// A write to one key does not change what a read of another key returns,
/// whichever of the two comes first.
pub proof fn law_isolation(m: Map<Seq<char>, Seq<char>>, k1: Seq<char>, v1: Seq<char>, k2: Seq<char>)
    requires
        k1 != k2,
    ensures
        get_spec(put_spec(m, k1, v1), k2) == get_spec(m, k2),
{
}

} // verus!
