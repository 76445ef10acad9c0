use vstd::prelude::*;

verus! {

/// A mapping from non-empty text keys to entries, holding one entry per key.
///
/// Keys are kept in order of first insertion; the core never removes one.
pub struct Table<V> {
    entries: Vec<(String, V)>,
    model: Ghost<Map<Seq<char>, V>>,
}

impl<V> View for Table<V> {
    type V = Map<Seq<char>, V>;

    closed spec fn view(&self) -> Map<Seq<char>, V> {
        self.model@
    }
}

impl<V> Table<V> {
    /// The entries' keys are distinct and non-empty, and the model holds
    /// exactly the entries.
    pub closed spec fn wf(&self) -> bool {
        &&& forall|i: int, j: int|
            0 <= i < self.entries@.len() && 0 <= j < self.entries@.len() && i != j
                ==> self.entries@[i].0@ != self.entries@[j].0@
        &&& forall|i: int|
            #![trigger self.entries@[i]]
            0 <= i < self.entries@.len() ==> {
                &&& self.entries@[i].0@.len() > 0
                &&& self.model@.contains_key(self.entries@[i].0@)
                &&& self.model@[self.entries@[i].0@] == self.entries@[i].1
            }
        &&& forall|k: Seq<char>|
            #[trigger] self.model@.contains_key(k) ==> exists|i: int|
                0 <= i < self.entries@.len() && #[trigger] self.entries@[i].0@ == k
    }

    /// An empty table.
    pub fn new() -> (t: Self)
        ensures
            t.wf(),
            t@ == Map::<Seq<char>, V>::empty(),
    {
        Table { entries: Vec::new(), model: Ghost(Map::empty()) }
    }

    /// The number of keys present.
    pub fn len(&self) -> (n: usize)
        requires
            self.wf(),
        ensures
            n == self@.dom().len(),
    {
        proof { self.lemma_len(); }
        self.entries.len()
    }

    proof fn lemma_len(&self)
        requires
            self.wf(),
        ensures
            self.entries@.len() == self@.dom().len(),
    {
        let keys = self.entries@.map_values(|e: (String, V)| e.0@);
        assert forall|i: int, j: int| 0 <= i < keys.len() && 0 <= j < keys.len() && i != j implies keys[i] != keys[j] by {
            assert(self.entries@[i].0@ != self.entries@[j].0@);
        }
        keys.unique_seq_to_set();
        assert(keys.to_set() =~= self@.dom()) by {
            assert forall|k: Seq<char>| self@.dom().contains(k) implies keys.to_set().contains(k) by {
                let i = choose|i: int| 0 <= i < self.entries@.len() && #[trigger] self.entries@[i].0@ == k;
                assert(keys[i] == k);
            }
            assert forall|k: Seq<char>| keys.to_set().contains(k) implies self@.dom().contains(k) by {
                let i = choose|i: int| 0 <= i < keys.len() && keys[i] == k;
                assert(self.entries@[i].0@ == k);
            }
        }
    }

    /// The position of `key`'s entry, if it is present.
    fn position(&self, key: &String) -> (r: Option<usize>)
        requires
            self.wf(),
        ensures
            r.is_none() <==> !self@.contains_key(key@),
            r matches Some(i) ==> i < self.entries@.len() && self.entries@[i as int].0@ == key@,
    {
        let mut i: usize = 0;
        while i < self.entries.len()
            invariant
                self.wf(),
                i <= self.entries@.len(),
                forall|j: int| 0 <= j < i ==> self.entries@[j].0@ != key@,
            decreases self.entries@.len() - i,
        {
            if self.entries[i].0 == *key {
                return Some(i);
            }
            i = i + 1;
        }
        proof {
            if self@.contains_key(key@) {
                let j = choose|j: int| 0 <= j < self.entries@.len() && #[trigger] self.entries@[j].0@ == key@;
                assert(self.entries@[j].0@ == key@);
            }
        }
        None
    }

    /// The entry stored under `key`, if any.
    pub fn get(&self, key: &String) -> (r: Option<&V>)
        requires
            self.wf(),
        ensures
            r.is_some() == self@.contains_key(key@),
            r matches Some(v) ==> *v == self@[key@],
    {
        match self.position(key) {
            Some(i) => Some(&self.entries[i].1),
            None => None,
        }
    }

    /// Inserts `value` under `key` unless the key is already present, in
    /// which case the table is left as it was. Returns whether it inserted.
    pub fn insert_if_absent(&mut self, key: String, value: V) -> (inserted: bool)
        requires
            old(self).wf(),
            key@.len() > 0,
        ensures
            final(self).wf(),
            inserted == !old(self)@.contains_key(key@),
            final(self)@ == if inserted {
                old(self)@.insert(key@, value)
            } else {
                old(self)@
            },
    {
        match self.position(&key) {
            Some(_) => false,
            None => {
                let ghost k = key@;
                let ghost old_entries = self.entries@;
                self.entries.push((key, value));
                self.model = Ghost(self.model@.insert(k, value));
                proof {
                    let n = old_entries.len() as int;
                    assert forall|i: int| 0 <= i < n implies self.entries@[i].0@ != k by {
                        assert(self.entries@[i] == old_entries[i]);
                        assert(old(self).model@.contains_key(old_entries[i].0@));
                    }
                    assert forall|q: Seq<char>| #[trigger] self.model@.contains_key(q) implies exists|i: int|
                        0 <= i < self.entries@.len() && #[trigger] self.entries@[i].0@ == q by {
                        if q == k {
                            assert(self.entries@[n].0@ == q);
                        } else {
                            let i = choose|i: int| 0 <= i < old_entries.len() && #[trigger] old_entries[i].0@ == q;
                            assert(self.entries@[i].0@ == q);
                        }
                    }
                }
                true
            }
        }
    }

    /// Replaces the entry under `key`, which must be present.
    pub fn replace(&mut self, key: &String, value: V)
        requires
            old(self).wf(),
            old(self)@.contains_key(key@),
        ensures
            final(self).wf(),
            final(self)@ == old(self)@.insert(key@, value),
    {
        let i = self.position(key).unwrap();
        let ghost k = key@;
        let ghost old_entries = self.entries@;
        let k2 = key.clone();
        self.entries.set(i, (k2, value));
        self.model = Ghost(self.model@.insert(k, value));
        proof {
            assert forall|j: int| 0 <= j < self.entries@.len() && j != i implies self.entries@[j] == old_entries[j] by {}
            assert forall|q: Seq<char>| #[trigger] self.model@.contains_key(q) implies exists|j: int|
                0 <= j < self.entries@.len() && #[trigger] self.entries@[j].0@ == q by {
                let j = choose|j: int| 0 <= j < old_entries.len() && #[trigger] old_entries[j].0@ == q;
                assert(self.entries@[j].0@ == q);
            }
        }
    }
}

} // verus!
