//! A map keyed by strings that keeps its entries in the order of insertion.

use vstd::prelude::*;
use crate::text::str_eq;

verus! {

/// A finite map from strings to values of type `V`.
///
/// Its view is the mathematical map from the keys' characters to the values;
/// [`StringMap::keys`] gives the keys in the order in which they were first
/// inserted.
pub struct StringMap<V> {
    keys: Vec<String>,
    values: Vec<V>,
}

/// The characters of each string of `v`.
pub open spec fn views_of(v: Seq<String>) -> Seq<Seq<char>> {
    Seq::new(v.len(), |i: int| v[i]@)
}

impl<V> StringMap<V> {
    /// Well-formedness: one value for each key, and no key twice.
    pub closed spec fn wf(self) -> bool {
        &&& self.keys.len() == self.values.len()
        &&& views_of(self.keys@).no_duplicates()
    }

    /// The keys, in the order of insertion. No key occurs twice.
    pub closed spec fn keys(self) -> Seq<Seq<char>> {
        views_of(self.keys@)
    }

    /// The values, each at the position of its key in [`StringMap::keys`].
    pub closed spec fn values(self) -> Seq<V> {
        self.values@
    }

    /// The position of `key` among the keys, when it is one of them.
    pub open spec fn index_of(self, key: Seq<char>) -> int {
        choose|i: int| 0 <= i < self.keys().len() && self.keys()[i] == key
    }

    /// The map itself.
    pub open spec fn view(self) -> Map<Seq<char>, V> {
        Map::new(
            |k: Seq<char>| self.keys().contains(k),
            |k: Seq<char>| self.values()[self.index_of(k)],
        )
    }

    /// Lemma: a key is found at its own position.
    pub proof fn lemma_index(self, i: int)
        requires
            self.wf(),
            0 <= i < self.keys().len(),
        ensures
            self.index_of(self.keys()[i]) == i,
            self.keys().contains(self.keys()[i]),
            self@.contains_key(self.keys()[i]),
            self@[self.keys()[i]] == self.values()[i],
    {
        assert(self.keys().contains(self.keys()[i]));
    }

    /// What holds of the keys and values of every map.
    pub proof fn lemma_shape(self)
        requires
            self.wf(),
        ensures
            self.keys().len() == self.values().len(),
            self.keys().no_duplicates(),
            forall|i: int|
                0 <= i < self.keys().len() ==> self@.contains_key(#[trigger] self.keys()[i])
                    && self@[self.keys()[i]] == self.values()[i],
            forall|k: Seq<char>| self@.contains_key(k) <==> self.keys().contains(k),
            forall|k: Seq<char>|
                self@.contains_key(k) ==> 0 <= #[trigger] self.index_of(k) < self.keys().len()
                    && self.keys()[self.index_of(k)] == k,
    {
        assert forall|i: int| 0 <= i < self.keys().len() implies self@.contains_key(
            #[trigger] self.keys()[i],
        ) && self@[self.keys()[i]] == self.values()[i] by {
            self.lemma_index(i);
        }
    }

    /// An empty map.
    pub fn new() -> (m: Self)
        ensures
            m.wf(),
            m@ == Map::<Seq<char>, V>::empty(),
            m.keys() == Seq::<Seq<char>>::empty(),
    {
        let m = StringMap { keys: Vec::new(), values: Vec::new() };
        assert(m.keys() =~= Seq::<Seq<char>>::empty());
        assert(m@ =~= Map::<Seq<char>, V>::empty());
        m
    }

    /// The number of entries.
    pub fn len(&self) -> (n: usize)
        requires
            self.wf(),
        ensures
            n == self.keys().len(),
            n == self.values().len(),
    {
        self.keys.len()
    }

    /// The position of `key`, if the map holds it.
    pub fn find(&self, key: &str) -> (r: Option<usize>)
        requires
            self.wf(),
        ensures
            match r {
                Some(i) => i < self.keys().len() && self.keys()[i as int] == key@,
                None => !self@.contains_key(key@),
            },
    {
        let mut i: usize = 0;
        while i < self.keys.len()
            invariant
                i <= self.keys.len(),
                forall|j: int| 0 <= j < i ==> self.keys()[j] != key@,
            decreases self.keys.len() - i,
        {
            if str_eq(self.keys[i].as_str(), key) {
                return Some(i);
            }
            i += 1;
        }
        None
    }

    /// Whether the map holds `key`.
    pub fn contains_key(&self, key: &str) -> (r: bool)
        requires
            self.wf(),
        ensures
            r == self@.contains_key(key@),
    {
        proof {
            self.lemma_shape();
        }
        self.find(key).is_some()
    }

    /// The key at position `i`.
    pub fn key_at(&self, i: usize) -> (k: &str)
        requires
            self.wf(),
            i < self.keys().len(),
        ensures
            k@ == self.keys()[i as int],
    {
        self.keys[i].as_str()
    }

    /// The value at position `i`.
    pub fn value_at(&self, i: usize) -> (v: &V)
        requires
            self.wf(),
            i < self.values().len(),
        ensures
            *v == self.values()[i as int],
    {
        &self.values[i]
    }

    /// The value stored under `key`.
    pub fn get(&self, key: &str) -> (r: Option<&V>)
        requires
            self.wf(),
        ensures
            match r {
                Some(v) => self@.contains_key(key@) && *v == self@[key@],
                None => !self@.contains_key(key@),
            },
    {
        proof {
            self.lemma_shape();
        }
        match self.find(key) {
            Some(i) => Some(&self.values[i]),
            None => None,
        }
    }

    /// Puts `value` at position `i` and returns the value that was there.
    pub fn replace_at(&mut self, i: usize, value: V) -> (r: V)
        requires
            old(self).wf(),
            i < old(self).keys().len(),
        ensures
            final(self).wf(),
            final(self).keys() == old(self).keys(),
            final(self).values() == old(self).values().update(i as int, value),
            final(self)@ == old(self)@.insert(old(self).keys()[i as int], value),
            r == old(self).values()[i as int],
    {
        let ghost before = *self;
        let mut value = value;
        std::mem::swap(&mut self.values[i], &mut value);
        proof {
            before.lemma_shape();
            before.lemma_index(i as int);
            assert(self.keys() == before.keys());
            assert(self.values() =~= before.values().update(i as int, self.values()[i as int]));
            assert forall|k: Seq<char>| #[trigger] self@.contains_key(k) implies self@[k]
                == before@.insert(before.keys()[i as int], self.values()[i as int])[k] by {
                let j = self.index_of(k);
                assert(j == before.index_of(k));
                before.lemma_index(j);
            }
            assert(self@ =~= before@.insert(before.keys()[i as int], self.values()[i as int]));
        }
        value
    }

    /// The value at position `i`, to be changed in place.
    pub fn value_at_mut(&mut self, i: usize) -> (v: &mut V)
        requires
            old(self).wf(),
            i < old(self).keys().len(),
        ensures
            *v == old(self).values()[i as int],
            final(self).keys() == old(self).keys(),
            final(self).values() == old(self).values().update(i as int, *final(v)),
            final(self).wf(),
    {
        &mut self.values[i]
    }

    /// Lemma: changing the value at one position changes the map at that key.
    pub proof fn lemma_updated(self, after: Self, i: int)
        requires
            self.wf(),
            0 <= i < self.keys().len(),
            after.keys() == self.keys(),
            after.values() == self.values().update(i, after.values()[i]),
        ensures
            after.wf(),
            after@ == self@.insert(self.keys()[i], after.values()[i]),
    {
        self.lemma_shape();
        assert(after.wf());
        after.lemma_shape();
        self.lemma_index(i);
        assert forall|k: Seq<char>| #[trigger] after@.contains_key(k) implies after@[k]
            == self@.insert(self.keys()[i], after.values()[i])[k] by {
            let j = after.index_of(k);
            assert(j == self.index_of(k));
            self.lemma_index(j);
        }
        assert(after@ =~= self@.insert(self.keys()[i], after.values()[i]));
    }

    /// Stores `value` under `key` and returns the value that was there.
    pub fn insert(&mut self, key: String, value: V) -> (r: Option<V>)
        requires
            old(self).wf(),
        ensures
            final(self).wf(),
            final(self)@ == old(self)@.insert(key@, value),
            r == if old(self)@.contains_key(key@) {
                Some(old(self)@[key@])
            } else {
                None::<V>
            },
            old(self)@.contains_key(key@) ==> final(self).keys() == old(self).keys(),
            !old(self)@.contains_key(key@) ==> final(self).keys() == old(self).keys().push(key@),
    {
        let ghost before = *self;
        proof {
            before.lemma_shape();
        }
        match self.find(key.as_str()) {
            Some(i) => {
                let mut value = value;
                std::mem::swap(&mut self.values[i], &mut value);
                proof {
                    before.lemma_index(i as int);
                    assert(self.keys() == before.keys());
                    assert(self.values() =~= before.values().update(i as int, self.values()[i as int]));
                    assert forall|k: Seq<char>| #[trigger] self@.contains_key(k) implies self@[k]
                        == before@.insert(key@, self.values()[i as int])[k] by {
                        let j = self.index_of(k);
                        assert(j == before.index_of(k));
                        before.lemma_index(j);
                    }
                    assert(self@ =~= before@.insert(key@, self.values()[i as int]));
                }
                Some(value)
            },
            None => {
                self.keys.push(key);
                self.values.push(value);
                proof {
                    let n = before.keys().len() as int;
                    assert(self.keys() =~= before.keys().push(key@));
                    assert(self.values() =~= before.values().push(value));
                    assert(!before.keys().contains(key@));
                    assert(self.keys().no_duplicates());
                    assert forall|k: Seq<char>| #[trigger]
                        before@.insert(key@, value).contains_key(k) implies self@.contains_key(k)
                        && self@[k] == before@.insert(key@, value)[k] by {
                        if k == key@ {
                            assert(self.keys()[n] == k);
                            self.lemma_index(n);
                        } else {
                            let j = before.index_of(k);
                            assert(self.keys()[j] == k);
                            self.lemma_index(j);
                        }
                    }
                    assert forall|k: Seq<char>| #[trigger]
                        self@.contains_key(k) implies before@.insert(key@, value).contains_key(
                        k,
                    ) by {
                        let j = self.index_of(k);
                        if j < n {
                            assert(before.keys()[j] == k);
                        }
                    }
                    assert(self@ =~= before@.insert(key@, value));
                }
                None
            },
        }
    }

    /// Takes `key` out of the map and returns its value. The other entries
    /// keep their order.
    pub fn remove(&mut self, key: &str) -> (r: Option<V>)
        requires
            old(self).wf(),
        ensures
            final(self).wf(),
            final(self)@ == old(self)@.remove(key@),
            r == if old(self)@.contains_key(key@) {
                Some(old(self)@[key@])
            } else {
                None::<V>
            },
            old(self)@.contains_key(key@) ==> final(self).keys() == old(self).keys().remove(
                old(self).index_of(key@),
            ) && final(self).values() == old(self).values().remove(old(self).index_of(key@)),
            !old(self)@.contains_key(key@) ==> *final(self) == *old(self),
    {
        let ghost before = *self;
        proof {
            before.lemma_shape();
        }
        match self.find(key) {
            Some(i) => {
                self.keys.remove(i);
                let value = self.values.remove(i);
                proof {
                    before.lemma_index(i as int);
                    assert(self.keys() =~= before.keys().remove(i as int));
                    assert(self.values() =~= before.values().remove(i as int));
                    assert(self.keys().no_duplicates()) by {
                        assert forall|a: int, b: int|
                            0 <= a < self.keys().len() && 0 <= b < self.keys().len() && a
                                != b implies self.keys()[a] != self.keys()[b] by {
                            let a2 = if a < i { a } else { a + 1 };
                            let b2 = if b < i { b } else { b + 1 };
                            assert(self.keys()[a] == before.keys()[a2]);
                            assert(self.keys()[b] == before.keys()[b2]);
                        }
                    }
                    assert forall|k: Seq<char>| #[trigger]
                        before@.remove(key@).contains_key(k) implies self@.contains_key(k)
                        && self@[k] == before@[k] by {
                        let j = before.index_of(k);
                        let j2 = if j < i { j } else { j - 1 };
                        assert(self.keys()[j2] == k);
                        self.lemma_index(j2);
                        before.lemma_index(j);
                    }
                    assert forall|k: Seq<char>| #[trigger]
                        self@.contains_key(k) implies before@.remove(key@).contains_key(k) by {
                        let j = self.index_of(k);
                        let j2 = if j < i { j } else { j + 1 };
                        assert(before.keys()[j2] == k);
                        before.lemma_index(j2);
                    }
                    assert(self@ =~= before@.remove(key@));
                }
                Some(value)
            },
            None => {
                proof {
                    assert(self@ =~= before@.remove(key@));
                }
                None
            },
        }
    }
}

impl StringMap<usize> {
    /// A copy of this map.
    pub fn duplicate(&self) -> (r: Self)
        requires
            self.wf(),
        ensures
            r.wf(),
            r@ == self@,
            r.keys() == self.keys(),
    {
        let mut r: StringMap<usize> = StringMap::new();
        let n = self.len();
        let mut i: usize = 0;
        proof {
            self.lemma_shape();
            assert(self.keys().take(0) =~= Seq::<Seq<char>>::empty());
        }
        while i < n
            invariant
                i <= n,
                n == self.keys().len(),
                self.wf(),
                r.wf(),
                r.keys() == self.keys().take(i as int),
                forall|j: int| 0 <= j < i ==> r.values()[j] == self.values()[j],
                r.values().len() == i,
            decreases n - i,
        {
            proof {
                self.lemma_shape();
                r.lemma_shape();
                assert(!r@.contains_key(self.keys()[i as int])) by {
                    if r.keys().contains(self.keys()[i as int]) {
                        let j = choose|j: int|
                            0 <= j < r.keys().len() && r.keys()[j] == self.keys()[i as int];
                        assert(self.keys()[j] == self.keys()[i as int]);
                    }
                }
            }
            let ghost before = r;
            r.insert(self.key_at(i).to_owned(), *self.value_at(i));
            proof {
                assert(r.keys() =~= self.keys().take(i + 1));
                r.lemma_shape();
                r.lemma_index(i as int);
                assert forall|j: int| 0 <= j < i + 1 implies r.values()[j] == self.values()[j] by {
                    r.lemma_index(j);
                    if j < i {
                        before.lemma_index(j);
                    }
                }
            }
            i += 1;
        }
        proof {
            assert(self.keys().take(n as int) =~= self.keys());
            r.lemma_shape();
            self.lemma_shape();
            assert(r.values() =~= self.values());
            assert(r@ =~= self@);
        }
        r
    }
}

/// A finite set of strings.
pub struct StringSet {
    members: StringMap<()>,
}

impl StringSet {
    /// Well-formedness of the set.
    pub closed spec fn wf(self) -> bool {
        self.members.wf()
    }

    /// The set itself.
    pub closed spec fn view(self) -> Set<Seq<char>> {
        self.members@.dom()
    }

    /// The empty set.
    pub fn new() -> (s: Self)
        ensures
            s.wf(),
            s@ == Set::<Seq<char>>::empty(),
    {
        let s = StringSet { members: StringMap::new() };
        assert(s@ =~= Set::<Seq<char>>::empty());
        s
    }

    /// Whether `item` is in the set.
    pub fn contains(&self, item: &str) -> (r: bool)
        requires
            self.wf(),
        ensures
            r == self@.contains(item@),
    {
        self.members.contains_key(item)
    }

    /// Puts `item` into the set.
    pub fn insert(&mut self, item: String)
        requires
            old(self).wf(),
        ensures
            final(self).wf(),
            final(self)@ == old(self)@.insert(item@),
    {
        self.members.insert(item, ());
        assert(self@ =~= old(self)@.insert(item@));
    }

    /// Takes `item` out of the set.
    pub fn remove(&mut self, item: &str)
        requires
            old(self).wf(),
        ensures
            final(self).wf(),
            final(self)@ == old(self)@.remove(item@),
    {
        self.members.remove(item);
        assert(self@ =~= old(self)@.remove(item@));
    }
}

} // verus!
