use vstd::prelude::*;

verus! {

#[derive(Debug)]
/// A map from text keys to values that keeps its entries in the order in
/// which their keys were first inserted; no key occurs twice.
pub struct StrMap<V> {
    entries: Vec<(String, V)>,
}

/// The keys of a list of entries, in order.
pub open spec fn keys_of<V>(entries: Seq<(String, V)>) -> Seq<Seq<char>> {
    entries.map_values(|e: (String, V)| e.0@)
}

/// Index of the entry whose key is `k` (meaningful only when there is one).
pub open spec fn key_index<V>(entries: Seq<(String, V)>, k: Seq<char>) -> int {
    choose|i: int| 0 <= i < entries.len() && entries[i].0@ == k
}

/// The map that a list of entries stands for.
pub open spec fn map_of<V>(e: Seq<(String, V)>) -> Map<Seq<char>, V> {
    Map::new(|k: Seq<char>| keys_of(e).contains(k), |k: Seq<char>| e[key_index(e, k)].1)
}

/// Replacing the value of one entry, its key kept, replaces that key's value
/// in the map and keeps the keys.
pub proof fn lemma_update_value<V>(e: Seq<(String, V)>, i: int)
    requires
        keys_of(e).no_duplicates(),
        0 <= i < e.len(),
    ensures
        forall|v: V|
            #![trigger e.update(i, (e[i].0, v))]
            keys_of(e.update(i, (e[i].0, v))) == keys_of(e) && map_of(e.update(i, (e[i].0, v)))
                == map_of(e).insert(e[i].0@, v),
{
    assert forall|v: V|
        #![trigger e.update(i, (e[i].0, v))]
        keys_of(e.update(i, (e[i].0, v))) == keys_of(e) && map_of(e.update(i, (e[i].0, v)))
            == map_of(e).insert(e[i].0@, v) by {
        let e2 = e.update(i, (e[i].0, v));
        assert(keys_of(e2) =~= keys_of(e));
        let k0 = e[i].0@;
        assert forall|k: Seq<char>| #[trigger] map_of(e2).contains_key(k) implies map_of(e2)[k]
            == map_of(e).insert(k0, v)[k] by {
            let j = key_index(e2, k);
            let j1 = key_index(e, k);
            assert(keys_of(e)[j] == k);
            assert(keys_of(e)[j1] == k);
            if j != i {
                assert(keys_of(e)[i] == k0);
            }
        }
        assert(map_of(e2).dom() =~= map_of(e).insert(k0, v).dom());
        assert(map_of(e2) =~= map_of(e).insert(k0, v));
    }
}

/// Appending an entry with a new key adds that key to the map.
pub proof fn lemma_push<V>(e: Seq<(String, V)>, key: String, v: V)
    requires
        keys_of(e).no_duplicates(),
        !keys_of(e).contains(key@),
    ensures
        keys_of(e.push((key, v))) == keys_of(e).push(key@),
        keys_of(e.push((key, v))).no_duplicates(),
        map_of(e.push((key, v))) == map_of(e).insert(key@, v),
{
    let e2 = e.push((key, v));
    assert(keys_of(e2) =~= keys_of(e).push(key@));
    let n = e.len() as int;
    assert forall|a: int, b: int|
        0 <= a < keys_of(e2).len() && 0 <= b < keys_of(e2).len() && a != b implies keys_of(e2)[a]
        != keys_of(e2)[b] by {
        if a == n {
            assert(keys_of(e)[b] == keys_of(e2)[b]);
        } else if b == n {
            assert(keys_of(e)[a] == keys_of(e2)[a]);
        }
    }
    assert forall|k: Seq<char>| #[trigger] map_of(e2).contains_key(k) implies map_of(e2)[k]
        == map_of(e).insert(key@, v)[k] by {
        let j = key_index(e2, k);
        assert(keys_of(e2)[j] == k);
        if k != key@ {
            let j1 = key_index(e, k);
            assert(keys_of(e2)[j1] == keys_of(e)[j1]);
            assert(keys_of(e)[j1] == k);
            if j == n {
                assert(false);
            }
        } else {
            if j != n {
                assert(keys_of(e)[j] == k);
            }
        }
    }
    assert forall|k: Seq<char>| #[trigger] map_of(e).insert(key@, v).contains_key(k) implies map_of(
        e2,
    ).contains_key(k) by {
        if k != key@ {
            let j1 = choose|j: int| 0 <= j < keys_of(e).len() && keys_of(e)[j] == k;
            assert(keys_of(e2)[j1] == k);
        } else {
            assert(keys_of(e2)[n] == k);
        }
    }
    assert(map_of(e2).dom() =~= map_of(e).insert(key@, v).dom());
    assert(map_of(e2) =~= map_of(e).insert(key@, v));
}

/// Removing the entry at `i` removes its key from the map.
pub proof fn lemma_remove<V>(e: Seq<(String, V)>, i: int)
    requires
        keys_of(e).no_duplicates(),
        0 <= i < e.len(),
    ensures
        keys_of(e.remove(i)) == keys_of(e).remove(i),
        keys_of(e.remove(i)).no_duplicates(),
        map_of(e.remove(i)) == map_of(e).remove(e[i].0@),
{
    let e2 = e.remove(i);
    let k0 = e[i].0@;
    assert(keys_of(e2) =~= keys_of(e).remove(i));
    assert(keys_of(e)[i] == k0);
    assert forall|a: int, b: int|
        0 <= a < keys_of(e2).len() && 0 <= b < keys_of(e2).len() && a != b implies keys_of(e2)[a]
        != keys_of(e2)[b] by {
        let a1 = if a < i { a } else { a + 1 };
        let b1 = if b < i { b } else { b + 1 };
        assert(keys_of(e2)[a] == keys_of(e)[a1]);
        assert(keys_of(e2)[b] == keys_of(e)[b1]);
    }
    assert forall|k: Seq<char>| #[trigger] map_of(e2).contains_key(k) implies map_of(e2)[k]
        == map_of(e).remove(k0)[k] && map_of(e).remove(k0).contains_key(k) by {
        let j = key_index(e2, k);
        assert(keys_of(e2)[j] == k);
        let j1 = if j < i { j } else { j + 1 };
        assert(keys_of(e)[j1] == k);
        assert(e2[j] == e[j1]);
        let jj = key_index(e, k);
        assert(keys_of(e)[jj] == k);
        if k == k0 {
            assert(keys_of(e)[i] == k0);
        }
    }
    assert forall|k: Seq<char>| #[trigger] map_of(e).remove(k0).contains_key(k) implies map_of(
        e2,
    ).contains_key(k) by {
        let j1 = choose|j: int| 0 <= j < keys_of(e).len() && keys_of(e)[j] == k;
        assert(j1 != i);
        let j = if j1 < i { j1 } else { j1 - 1 };
        assert(keys_of(e2)[j] == k);
    }
    assert(map_of(e2).dom() =~= map_of(e).remove(k0).dom());
    assert(map_of(e2) =~= map_of(e).remove(k0));
}

impl<V> View for StrMap<V> {
    type V = Map<Seq<char>, V>;

    open spec fn view(&self) -> Map<Seq<char>, V> {
        map_of(self.entries())
    }
}

impl<V> StrMap<V> {
    /// The entries, in insertion order.
    pub closed spec fn entries(&self) -> Seq<(String, V)> {
        self.entries@
    }

    /// The keys, in insertion order.
    pub open spec fn keys(&self) -> Seq<Seq<char>> {
        keys_of(self.entries())
    }

    /// No key occurs twice.
    pub open spec fn wf(&self) -> bool {
        self.keys().no_duplicates()
    }

    /// An empty map.
    pub fn new() -> (m: Self)
        ensures
            m.wf(),
            m.entries() == Seq::<(String, V)>::empty(),
            m@ == Map::<Seq<char>, V>::empty(),
    {
        let m = StrMap { entries: Vec::new() };
        assert(m@ =~= Map::<Seq<char>, V>::empty());
        m
    }

    /// The number of entries.
    pub fn len(&self) -> (n: usize)
        ensures
            n == self.entries().len(),
    {
        self.entries.len()
    }

    /// In a map without repeated keys, the entry at `i` is the one for its key.
    pub proof fn lemma_index(&self, i: int)
        requires
            self.wf(),
            0 <= i < self.entries().len(),
        ensures
            key_index(self.entries(), self.entries()[i].0@) == i,
            self@.contains_key(self.entries()[i].0@),
            self@[self.entries()[i].0@] == self.entries()[i].1,
    {
        let e = self.entries();
        let k = e[i].0@;
        assert(keys_of(e)[i] == k);
        let j = key_index(e, k);
        assert(0 <= j < e.len() && e[j].0@ == k);
        assert(keys_of(e)[j] == k);
    }

    /// Whether the map has a key, through the entries.
    pub proof fn lemma_contains(&self, k: Seq<char>)
        requires
            self.wf(),
        ensures
            self@.contains_key(k) <==> exists|i: int|
                0 <= i < self.entries().len() && #[trigger] self.entries()[i].0@ == k,
    {
        let e = self.entries();
        if self@.contains_key(k) {
            let j = choose|j: int| 0 <= j < keys_of(e).len() && keys_of(e)[j] == k;
            assert(e[j].0@ == k);
        }
        if exists|i: int| 0 <= i < e.len() && #[trigger] e[i].0@ == k {
            let i = choose|i: int| 0 <= i < e.len() && #[trigger] e[i].0@ == k;
            assert(keys_of(e)[i] == k);
        }
    }

    /// Position of the entry with key `key`.
    pub fn find(&self, key: &str) -> (r: Option<usize>)
        requires
            self.wf(),
        ensures
            match r {
                Some(i) => i < self.entries().len() && self.entries()[i as int].0@ == key@
                    && key_index(self.entries(), key@) == i,
                None => !self@.contains_key(key@),
            },
    {
        let k = key.to_owned();
        let mut i: usize = 0;
        while i < self.entries.len()
            invariant
                i <= self.entries@.len(),
                self.wf(),
                k@ == key@,
                forall|j: int| 0 <= j < i ==> #[trigger] self.entries@[j].0@ != key@,
            decreases self.entries@.len() - i,
        {
            if self.entries[i].0 == k {
                proof {
                    self.lemma_index(i as int);
                }
                return Some(i);
            }
            i = i + 1;
        }
        proof {
            self.lemma_contains(key@);
        }
        None
    }

    /// The value for `key`, if there is one.
    pub fn get(&self, key: &str) -> (r: Option<&V>)
        requires
            self.wf(),
        ensures
            match r {
                Some(v) => self@.contains_key(key@) && *v == self@[key@],
                None => !self@.contains_key(key@),
            },
    {
        match self.find(key) {
            Some(i) => {
                proof {
                    self.lemma_index(i as int);
                }
                Some(&self.entries[i].1)
            },
            None => None,
        }
    }

    /// A mutable reference to the value for `key`, if there is one; the keys
    /// and their order stay as they were.
    pub fn get_mut(&mut self, key: &str) -> (r: Option<&mut V>)
        requires
            old(self).wf(),
        ensures
            final(self).wf(),
            final(self).keys() == old(self).keys(),
            match r {
                Some(v) => old(self)@.contains_key(key@) && *v == old(self)@[key@]
                    && final(self)@ == old(self)@.insert(key@, *final(v)),
                None => !old(self)@.contains_key(key@) && final(self)@ == old(self)@
                    && final(self).entries() == old(self).entries(),
            },
    {
        match self.find(key) {
            Some(i) => {
                proof {
                    self.lemma_index(i as int);
                }
                proof {
                    lemma_update_value(self.entries@, i as int);
                }
                Some(&mut self.entries[i].1)
            },
            None => None,
        }
    }
    /// Sets the value for `key`, keeping the position of an existing key and
    /// appending a new one; returns the value it replaced.
    pub fn insert(&mut self, key: String, value: V) -> (r: Option<V>)
        requires
            old(self).wf(),
        ensures
            final(self).wf(),
            final(self)@ == old(self)@.insert(key@, value),
            old(self)@.contains_key(key@) ==> r == Some(old(self)@[key@]) && final(self).keys()
                == old(self).keys(),
            !old(self)@.contains_key(key@) ==> r is None && final(self).keys() == old(
                self,
            ).keys().push(key@),
    {
        match self.find(key.as_str()) {
            Some(i) => {
                proof {
                    self.lemma_index(i as int);
                    lemma_update_value(self.entries@, i as int);
                }
                let mut v = value;
                std::mem::swap(&mut self.entries[i].1, &mut v);
                Some(v)
            },
            None => {
                proof {
                    self.lemma_contains(key@);
                    if keys_of(self.entries@).contains(key@) {
                        let j = choose|j: int|
                            0 <= j < keys_of(self.entries@).len() && keys_of(self.entries@)[j]
                                == key@;
                        assert(self.entries@[j].0@ == key@);
                    }
                    lemma_push(self.entries@, key, value);
                }
                self.entries.push((key, value));
                None
            },
        }
    }

    /// Removes the entry for `key`, keeping the order of the others, and
    /// returns its value.
    pub fn remove(&mut self, key: &str) -> (r: Option<V>)
        requires
            old(self).wf(),
        ensures
            final(self).wf(),
            final(self)@ == old(self)@.remove(key@),
            old(self)@.contains_key(key@) ==> r == Some(old(self)@[key@]),
            !old(self)@.contains_key(key@) ==> r is None && final(self).entries() == old(
                self,
            ).entries(),
    {
        match self.find(key) {
            Some(i) => {
                proof {
                    self.lemma_index(i as int);
                    lemma_remove(self.entries@, i as int);
                }
                let (_, v) = self.entries.remove(i);
                Some(v)
            },
            None => {
                assert(old(self)@.remove(key@) =~= old(self)@);
                None
            },
        }
    }

    /// The entries, in insertion order.
    pub fn as_slice(&self) -> (r: &[(String, V)])
        ensures
            r@ == self.entries(),
    {
        self.entries.as_slice()
    }

    /// A mutable reference to the value of the entry at position `index`.
    pub fn value_at_mut(&mut self, index: usize) -> (r: Option<&mut V>)
        requires
            old(self).wf(),
        ensures
            final(self).wf(),
            final(self).keys() == old(self).keys(),
            index < old(self).entries().len() ==> (r matches Some(v) && *v == old(
                self,
            ).entries()[index as int].1 && final(self)@ == old(self)@.insert(
                old(self).entries()[index as int].0@,
                *final(v),
            )),
            index >= old(self).entries().len() ==> r is None && final(self).entries() == old(
                self,
            ).entries(),
    {
        if index < self.entries.len() {
            proof {
                lemma_update_value(self.entries@, index as int);
            }
            Some(&mut self.entries[index].1)
        } else {
            None
        }
    }
}

} // verus!
