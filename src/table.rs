use vstd::prelude::*;

verus! {

/// The abstract identity of a watch: hash name and field name.
pub type KeyView = (Seq<char>, Seq<char>);

/// One row of a [`Table`].
pub struct Entry<V> {
    pub hash: String,
    pub field: String,
    pub value: V,
}

impl<V> Entry<V> {
    pub open spec fn key(&self) -> KeyView {
        (self.hash@, self.field@)
    }
}

/// A small association table keyed by (hash, field) pairs.
///
/// Rows are kept in insertion order; each key occurs in at most one row.
pub struct Table<V> {
    entries: Vec<Entry<V>>,
    contents: Ghost<Map<KeyView, V>>,
}

impl<V> Table<V> {
    /// What the table maps each key to.
    pub closed spec fn map(&self) -> Map<KeyView, V> {
        self.contents@
    }

    /// The rows, in insertion order.
    pub closed spec fn rows(&self) -> Seq<Entry<V>> {
        self.entries@
    }

    pub closed spec fn wf(&self) -> bool {
        &&& forall|i: int, j: int|
            0 <= i < j < self.entries@.len() ==> #[trigger] self.entries@[i].key()
                != #[trigger] self.entries@[j].key()
        &&& forall|i: int|
            0 <= i < self.entries@.len() ==> {
                &&& self.contents@.contains_key(#[trigger] self.entries@[i].key())
                &&& self.contents@[self.entries@[i].key()] == self.entries@[i].value
            }
        &&& forall|k: KeyView| #[trigger]
            self.contents@.contains_key(k) ==> exists|i: int|
                0 <= i < self.entries@.len() && self.entries@[i].key() == k
    }

    pub fn new() -> (t: Self)
        ensures
            t.wf(),
            t.map() == Map::<KeyView, V>::empty(),
            t.rows().len() == 0,
    {
        Table { entries: Vec::new(), contents: Ghost(Map::empty()) }
    }

    pub fn len(&self) -> (n: usize)
        ensures
            n == self.rows().len(),
    {
        self.entries.len()
    }

    pub proof fn lemma_rows_are_keys(&self)
        requires
            self.wf(),
        ensures
            forall|i: int|
                0 <= i < self.rows().len() ==> self.map().contains_key(
                    #[trigger] self.rows()[i].key(),
                ) && self.map()[self.rows()[i].key()] == self.rows()[i].value,
            forall|k: KeyView| #[trigger]
                self.map().contains_key(k) ==> exists|i: int|
                    0 <= i < self.rows().len() && self.rows()[i].key() == k,
            forall|i: int, j: int|
                0 <= i < j < self.rows().len() ==> #[trigger] self.rows()[i].key()
                    != #[trigger] self.rows()[j].key(),
    {
        assert forall|k: KeyView| #[trigger] self.map().contains_key(k) implies exists|i: int|
            0 <= i < self.rows().len() && self.rows()[i].key() == k by {
            let i = choose|i: int| 0 <= i < self.entries@.len() && self.entries@[i].key() == k;
            assert(self.rows()[i].key() == k);
        }
    }

    /// The position of the row for (hash, field), if there is one.
    pub fn find(&self, hash: &String, field: &String) -> (r: Option<usize>)
        requires
            self.wf(),
        ensures
            match r {
                Some(i) => {
                    &&& i < self.rows().len()
                    &&& self.rows()[i as int].key() == (hash@, field@)
                    &&& self.map().contains_key((hash@, field@))
                    &&& self.map()[(hash@, field@)] == self.rows()[i as int].value
                },
                None => !self.map().contains_key((hash@, field@)),
            },
    {
        let n: usize = self.entries.len();
        let mut i: usize = 0;
        while i < n
            invariant
                self.wf(),
                n == self.entries@.len(),
                i <= n,
                forall|j: int| 0 <= j < i ==> #[trigger] self.entries@[j].key() != (hash@, field@),
            decreases n - i,
        {
            let e = &self.entries[i];
            if e.hash == *hash && e.field == *field {
                assert(self.entries@[i as int].key() == (hash@, field@));
                return Some(i);
            }
            i = i + 1;
        }
        None
    }

    /// The value stored for (hash, field), if any.
    pub fn get(&self, hash: &String, field: &String) -> (r: Option<&V>)
        requires
            self.wf(),
        ensures
            match r {
                Some(v) => self.map().contains_key((hash@, field@)) && *v == self.map()[(
                    hash@,
                    field@,
                )],
                None => !self.map().contains_key((hash@, field@)),
            },
    {
        match self.find(hash, field) {
            Some(i) => Some(&self.entries[i].value),
            None => None,
        }
    }

    /// The key of the row at position `i`.
    pub fn key_at(&self, i: usize) -> (r: (String, String))
        requires
            i < self.rows().len(),
        ensures
            (r.0@, r.1@) == self.rows()[i as int].key(),
    {
        let e = &self.entries[i];
        (e.hash.clone(), e.field.clone())
    }

    /// Sets the value for (hash, field), replacing the one stored before.
    ///
    /// A new key is appended as the last row; an existing key keeps its row.
    pub fn insert(&mut self, hash: String, field: String, value: V)
        requires
            old(self).wf(),
        ensures
            final(self).wf(),
            final(self).map() == old(self).map().insert((hash@, field@), value),
            old(self).map().contains_key((hash@, field@)) ==> final(self).rows().len()
                == old(self).rows().len(),
            !old(self).map().contains_key((hash@, field@)) ==> final(self).rows().len()
                == old(self).rows().len() + 1,
            forall|i: int|
                0 <= i < old(self).rows().len() ==> #[trigger] final(self).rows()[i].key()
                    == old(self).rows()[i].key(),
    {
        let ghost k: KeyView = (hash@, field@);
        let ghost old_rows = self.entries@;
        let ghost new_map = self.contents@.insert(k, value);
        match self.find(&hash, &field) {
            Some(i) => {
                self.entries.set(i, Entry { hash, field, value });
                self.contents = Ghost(new_map);
                assert forall|k2: KeyView| #[trigger] new_map.contains_key(k2) implies exists|j: int|
                    0 <= j < self.entries@.len() && self.entries@[j].key() == k2 by {
                    if k2 != k {
                        let j = choose|j: int| 0 <= j < old_rows.len() && old_rows[j].key() == k2;
                        assert(self.entries@[j].key() == k2);
                    } else {
                        assert(self.entries@[i as int].key() == k2);
                    }
                }
            },
            None => {
                proof {
                    assert forall|j: int| 0 <= j < old_rows.len() implies #[trigger] old_rows[j].key()
                        != k by {
                        if old_rows[j].key() == k {
                            assert(self.contents@.contains_key(old_rows[j].key()));
                        }
                    }
                }
                self.entries.push(Entry { hash, field, value });
                self.contents = Ghost(new_map);
                assert forall|k2: KeyView| #[trigger] new_map.contains_key(k2) implies exists|j: int|
                    0 <= j < self.entries@.len() && self.entries@[j].key() == k2 by {
                    if k2 != k {
                        let j = choose|j: int| 0 <= j < old_rows.len() && old_rows[j].key() == k2;
                        assert(self.entries@[j].key() == k2);
                    } else {
                        assert(self.entries@[old_rows.len() as int].key() == k2);
                    }
                }
            },
        }
    }
}

} // verus!
