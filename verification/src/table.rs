//! A small table of values by name, kept in the order in which the names came.
use crate::text::same;
use vstd::prelude::*;

verus! {

/// Values by name. Each name occurs once.
#[derive(Clone, Debug)]
pub struct Table<V> {
    rows: Vec<(String, V)>,
}

impl<V> View for Table<V> {
    type V = Map<Seq<char>, V>;

    closed spec fn view(&self) -> Map<Seq<char>, V> {
        Map::new(
            |name: Seq<char>| self.keys().contains(name),
            |name: Seq<char>| self.rows@[self.keys().index_of(name)].1,
        )
    }
}

impl<V> Table<V> {
    /// The names, in the order in which they came.
    pub closed spec fn keys(&self) -> Seq<Seq<char>> {
        self.rows@.map_values(|row: (String, V)| row.0@)
    }

    /// No name occurs twice.
    pub closed spec fn wf(&self) -> bool {
        self.keys().no_duplicates()
    }

    /// The names of the table are exactly its keys, each one once.
    pub proof fn lemma_keys(&self)
        requires
            self.wf(),
        ensures
            self.keys().no_duplicates(),
            forall|name: Seq<char>| self.keys().contains(name) <==> self@.contains_key(name),
    {
    }

    proof fn lemma_row(&self, i: int)
        requires
            self.wf(),
            0 <= i < self.rows@.len(),
        ensures
            self@.contains_key(self.rows@[i].0@),
            self@[self.rows@[i].0@] == self.rows@[i].1,
    {
        let name = self.rows@[i].0@;
        assert(self.keys()[i] == name);
        assert(self.keys().contains(name));
        let j = self.keys().index_of(name);
        assert(self.keys()[j] == name);
        assert(i == j);
    }

    pub fn new() -> (table: Table<V>)
        ensures
            table.wf(),
            table@ == Map::<Seq<char>, V>::empty(),
            table.keys() == Seq::<Seq<char>>::empty(),
    {
        let table = Table { rows: Vec::new() };
        assert(table.keys() =~= Seq::<Seq<char>>::empty());
        assert(table@ =~= Map::<Seq<char>, V>::empty());
        table
    }

    pub fn len(&self) -> (n: usize)
        ensures
            n == self.keys().len(),
    {
        self.rows.len()
    }

    /// The name at position `i`.
    pub fn key_at(&self, i: usize) -> (name: &String)
        requires
            i < self.keys().len(),
        ensures
            name@ == self.keys()[i as int],
    {
        &self.rows[i].0
    }

    /// The value at position `i`.
    pub fn value_at(&self, i: usize) -> (value: &V)
        requires
            self.wf(),
            i < self.keys().len(),
        ensures
            self@.contains_key(self.keys()[i as int]),
            *value == self@[self.keys()[i as int]],
    {
        proof {
            self.lemma_row(i as int);
        }
        &self.rows[i].1
    }

    fn position(&self, name: &str) -> (at: Option<usize>)
        ensures
            match at {
                Some(i) => i < self.rows@.len() && self.rows@[i as int].0@ == name@,
                None => !self.keys().contains(name@),
            },
    {
        let mut i: usize = 0;
        while i < self.rows.len()
            invariant
                i <= self.rows@.len(),
                forall|j: int| 0 <= j < i ==> self.rows@[j].0@ != name@,
            decreases self.rows@.len() - i,
        {
            if same(self.rows[i].0.as_str(), name) {
                return Some(i);
            }
            i = i + 1;
        }
        assert(!self.keys().contains(name@));
        None
    }

    pub fn get(&self, name: &str) -> (value: Option<&V>)
        requires
            self.wf(),
        ensures
            match value {
                Some(v) => self@.contains_key(name@) && *v == self@[name@],
                None => !self@.contains_key(name@),
            },
    {
        match self.position(name) {
            Some(i) => {
                proof {
                    self.lemma_row(i as int);
                }
                Some(&self.rows[i].1)
            },
            None => None,
        }
    }

    /// The value under `name`, to be changed in its place.
    pub fn get_mut(&mut self, name: &str) -> (value: Option<&mut V>)
        requires
            old(self).wf(),
        ensures
            final(self).wf(),
            final(self).keys() == old(self).keys(),
            match value {
                Some(v) => {
                    &&& old(self)@.contains_key(name@)
                    &&& *v == old(self)@[name@]
                    &&& final(self)@ == old(self)@.insert(name@, *final(v))
                },
                None => !old(self)@.contains_key(name@) && *final(self) == *old(self),
            },
    {
        match self.position(name) {
            Some(i) => {
                let ghost before = *self;
                proof {
                    before.lemma_row(i as int);
                }
                let row = &mut self.rows[i];
                let value = &mut row.1;
                proof {
                    before.lemma_replaced(i as int, *final(value));
                }
                Some(value)
            },
            None => None,
        }
    }

    /// The table with another value in one of its rows.
    proof fn lemma_replaced(&self, i: int, value: V)
        requires
            self.wf(),
            0 <= i < self.rows@.len(),
        ensures
            forall|after: Table<V>| #[trigger]
                after.rows@ == self.rows@.update(i, (self.rows@[i].0, value)) ==> {
                    &&& after.wf()
                    &&& after.keys() == self.keys()
                    &&& after@ == self@.insert(self.rows@[i].0@, value)
                },
    {
        let key = self.rows@[i].0@;
        assert forall|after: Table<V>| #[trigger]
            after.rows@ == self.rows@.update(i, (self.rows@[i].0, value)) implies {
            &&& after.wf()
            &&& after.keys() == self.keys()
            &&& after@ == self@.insert(key, value)
        } by {
            self.lemma_row(i);
            assert(after.keys() =~= self.keys());
            after.lemma_row(i);
            assert forall|k: Seq<char>| #[trigger] after@.contains_key(k) && k != key implies after@[k]
                == self@[k] by {
                let j = self.keys().index_of(k);
                assert(self.keys()[j] == k);
                self.lemma_row(j);
                after.lemma_row(j);
            }
            assert(after@ =~= self@.insert(key, value));
        }
    }

    /// Puts `value` under `name`, in place of what stood there.
    pub fn insert(&mut self, name: String, value: V)
        requires
            old(self).wf(),
        ensures
            final(self).wf(),
            final(self)@ == old(self)@.insert(name@, value),
            final(self).keys() == (if old(self)@.contains_key(name@) {
                old(self).keys()
            } else {
                old(self).keys().push(name@)
            }),
    {
        let ghost before = *self;
        let ghost key = name@;
        let at = self.position(name.as_str());
        match at {
            Some(i) => {
                self.rows.set(i, (name, value));
                proof {
                    before.lemma_row(i as int);
                    assert(self.keys() =~= before.keys());
                    assert(self@ =~= before@.insert(key, value)) by {
                        assert forall|k: Seq<char>| #[trigger] self@.contains_key(k) && k != key implies self@[k]
                            == before@[k] by {
                            let j = before.keys().index_of(k);
                            assert(before.keys()[j] == k);
                            assert(j != i);
                            self.lemma_row(j);
                            before.lemma_row(j);
                        }
                        self.lemma_row(i as int);
                    }
                }
            },
            None => {
                self.rows.push((name, value));
                proof {
                    assert(self.keys() =~= before.keys().push(key));
                    assert(self.wf());
                    let last = before.rows@.len() as int;
                    self.lemma_row(last);
                    assert(self@ =~= before@.insert(key, value)) by {
                        assert forall|k: Seq<char>| before@.contains_key(k) implies
                            #[trigger] self@.contains_key(k) && self@[k] == before@[k] by {
                            let j = before.keys().index_of(k);
                            assert(before.keys()[j] == k);
                            self.lemma_row(j);
                            before.lemma_row(j);
                        }
                        assert forall|k: Seq<char>| #[trigger] self@.contains_key(k) implies k == key
                            || before@.contains_key(k) by {
                            let j = self.keys().index_of(k);
                            assert(self.keys()[j] == k);
                            if j < last {
                                assert(before.keys()[j] == k);
                                assert(before.keys().contains(k));
                            }
                        }
                    }
                }
            },
        }
    }
}

impl Table<String> {
    /// A table with the same names and texts.
    pub fn copy(&self) -> (table: Table<String>)
        requires
            self.wf(),
        ensures
            table.wf(),
            table@ == self@,
            table.keys() == self.keys(),
    {
        let mut rows: Vec<(String, String)> = Vec::new();
        let mut i: usize = 0;
        while i < self.rows.len()
            invariant
                i <= self.rows@.len(),
                rows@ == self.rows@.take(i as int),
            decreases self.rows@.len() - i,
        {
            rows.push((self.rows[i].0.clone(), self.rows[i].1.clone()));
            i = i + 1;
            assert(rows@ =~= self.rows@.take(i as int));
        }
        assert(rows@ =~= self.rows@);
        let table = Table { rows };
        assert(table.keys() =~= self.keys());
        assert(table@ =~= self@);
        table
    }
}

} // verus!
