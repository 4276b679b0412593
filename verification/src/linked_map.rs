//! A map that remembers the order in which its keys were first inserted
//! (the loaders keep manifests in it, in the order they were read).

use vstd::prelude::*;

verus! {

/// A key of a `LinkedHashMap`: keys are told apart by what they denote.
pub trait MapKey: Sized {
    /// What the key denotes; two keys are the same key when these agree.
    type Denoted;

    /// What this key denotes.
    spec fn denoted(&self) -> Self::Denoted;

    /// Whether two keys are the same key.
    fn same_key(&self, other: &Self) -> (r: bool)
        ensures
            r == (self.denoted() == other.denoted());

    /// A copy of this key.
    fn copy_key(&self) -> (r: Self)
        ensures
            r.denoted() == self.denoted();
}

impl MapKey for String {
    type Denoted = Seq<char>;

    open spec fn denoted(&self) -> Seq<char> {
        self@
    }

    fn same_key(&self, other: &Self) -> (r: bool) {
        *self == *other
    }

    fn copy_key(&self) -> (r: Self) {
        self.clone()
    }
}

impl MapKey for u64 {
    type Denoted = u64;

    open spec fn denoted(&self) -> u64 {
        *self
    }

    fn same_key(&self, other: &Self) -> (r: bool) {
        *self == *other
    }

    fn copy_key(&self) -> (r: Self) {
        *self
    }
}

/// The first position in `keys` of a key denoting `k`, or -1.
pub open spec fn key_index<K: MapKey>(keys: Seq<K>, k: K::Denoted) -> int
    decreases keys.len(),
{
    if keys.len() == 0 {
        -1
    } else if keys[0].denoted() == k {
        0
    } else {
        let r = key_index(keys.drop_first(), k);
        if r < 0 {
            -1
        } else {
            r + 1
        }
    }
}

/// `key_index` is the least position of the key, or -1 when it is absent.
pub proof fn lemma_key_index<K: MapKey>(keys: Seq<K>, k: K::Denoted)
    ensures
        -1 <= key_index(keys, k) < keys.len(),
        key_index(keys, k) >= 0 ==> keys[key_index(keys, k)].denoted() == k,
        forall|j: int| 0 <= j < keys.len() && (key_index(keys, k) < 0 || j < key_index(keys, k)) ==> #[trigger] keys[j].denoted() != k,
    decreases keys.len(),
{
    if keys.len() > 0 {
        let t = keys.drop_first();
        lemma_key_index(t, k);
        let i = key_index(keys, k);
        let r = key_index(t, k);
        if keys[0].denoted() != k {
            assert(i == if r < 0 { -1 } else { r + 1 });
        }
        assert forall|j: int| 0 <= j < keys.len() && (i < 0 || j < i) implies #[trigger] keys[j].denoted() != k by {
            if j > 0 {
                assert(keys[j] == t[j - 1]);
                assert(r < 0 || j - 1 < r);
                assert(t[j - 1].denoted() != k);
            }
        }
    }
}

proof fn lemma_key_index_at<K: MapKey>(keys: Seq<K>, k: K::Denoted, i: int)
    requires
        0 <= i <= keys.len(),
        forall|j: int| 0 <= j < i ==> #[trigger] keys[j].denoted() != k,
        i < keys.len() ==> keys[i].denoted() == k,
    ensures
        key_index(keys, k) == (if i < keys.len() { i } else { -1 }),
{
    lemma_key_index(keys, k);
    let m = key_index(keys, k);
    if m >= 0 && m < i {
        assert(keys[m].denoted() != k);
    }
    if i < keys.len() && (m < 0 || i < m) {
        assert(keys[i].denoted() != k);
    }
}

/// A map from keys to values that lists its entries in the order in which
/// their keys were first inserted.
pub struct LinkedHashMap<K, V> {
    order: Vec<K>,
    values: Vec<V>,
}

impl<K: MapKey, V> LinkedHashMap<K, V> {
    /// The keys, in the order they were first inserted.
    pub closed spec fn keys(&self) -> Seq<K> {
        self.order@
    }

    /// The values, at the positions of their keys.
    pub closed spec fn vals(&self) -> Seq<V> {
        self.values@
    }

    /// One value per key, and no key twice.
    pub open spec fn wf(&self) -> bool {
        &&& self.keys().len() == self.vals().len()
        &&& forall|i: int, j: int|
            #![trigger self.keys()[i], self.keys()[j]]
            0 <= i < j < self.keys().len() ==> self.keys()[i].denoted() != self.keys()[j].denoted()
    }

    /// An empty map.
    pub fn new() -> (m: Self)
        ensures
            m.wf(),
            m.keys().len() == 0,
    {
        LinkedHashMap { order: Vec::new(), values: Vec::new() }
    }

    fn find(&self, key: &K) -> (r: Option<usize>)
        ensures
            r matches Some(i) ==> key_index(self.keys(), key.denoted()) == i,
            r is None ==> key_index(self.keys(), key.denoted()) == -1,
    {
        let mut i: usize = 0;
        while i < self.order.len()
            invariant
                i <= self.order@.len(),
                forall|j: int| 0 <= j < i ==> #[trigger] self.order@[j].denoted() != key.denoted(),
            decreases self.order.len() - i,
        {
            if self.order[i].same_key(key) {
                proof {
                    lemma_key_index_at(self.order@, key.denoted(), i as int);
                }
                return Some(i);
            }
            i = i + 1;
        }
        proof {
            lemma_key_index_at(self.order@, key.denoted(), self.order@.len() as int);
        }
        None
    }

    /// The keys after `key` is set: a new key goes after all others, a known
    /// one keeps its place.
    pub open spec fn keys_after_insert(&self, key: K) -> Seq<K> {
        if key_index(self.keys(), key.denoted()) >= 0 {
            self.keys()
        } else {
            self.keys().push(key)
        }
    }

    /// The values after `key` is set to `value`.
    pub open spec fn vals_after_insert(&self, key: K, value: V) -> Seq<V> {
        let i = key_index(self.keys(), key.denoted());
        if i >= 0 {
            self.vals().update(i, value)
        } else {
            self.vals().push(value)
        }
    }

    /// What a read of the key denoted `k` gives.
    pub open spec fn lookup(&self, k: K::Denoted) -> Option<V> {
        let i = key_index(self.keys(), k);
        if i >= 0 {
            Some(self.vals()[i])
        } else {
            None
        }
    }

    /// Sets the value of `key`. A new key goes after all others; a known key
    /// keeps its place and its first key, and its old value is returned.
    pub fn insert(&mut self, key: K, value: V) -> (r: Option<V>)
        requires
            old(self).wf(),
        ensures
            final(self).wf(),
            final(self).keys() == old(self).keys_after_insert(key),
            final(self).vals() == old(self).vals_after_insert(key, value),
            r == old(self).lookup(key.denoted()),
    {
        let ghost ks = self.order@;
        proof {
            lemma_key_index(ks, key.denoted());
        }
        match self.find(&key) {
            Some(i) => {
                let mut v = value;
                self.values.set_and_swap(i, &mut v);
                Some(v)
            },
            None => {
                self.order.push(key);
                self.values.push(value);
                assert forall|i: int, j: int|
                    #![trigger self.order@[i], self.order@[j]]
                    0 <= i < j < self.order@.len() implies self.order@[i].denoted() != self.order@[j].denoted() by {
                    assert(self.order@[i] == ks[i]);
                    if j < ks.len() {
                        assert(self.order@[j] == ks[j]);
                    }
                }
                None
            },
        }
    }

    /// The value of `key`, if it has one.
    pub fn get(&self, key: &K) -> (r: Option<&V>)
        requires
            self.wf(),
        ensures
            match r {
                Some(v) => self.lookup(key.denoted()) == Some(*v),
                None => self.lookup(key.denoted()) is None,
            },
    {
        proof {
            lemma_key_index(self.order@, key.denoted());
        }
        match self.find(key) {
            Some(i) => Some(&self.values[i]),
            None => None,
        }
    }

    /// Whether `key` has a value.
    pub fn contains_key(&self, key: &K) -> (r: bool)
        ensures
            r == self.lookup(key.denoted()) is Some,
    {
        self.find(key).is_some()
    }

    /// The number of entries.
    pub fn len(&self) -> (r: usize)
        ensures
            r == self.keys().len(),
    {
        self.order.len()
    }

    /// Whether there are no entries.
    pub fn is_empty(&self) -> (r: bool)
        ensures
            r == (self.keys().len() == 0),
    {
        self.order.len() == 0
    }

    /// The entry at position `i`, in insertion order.
    pub fn entry_at(&self, i: usize) -> (r: (&K, &V))
        requires
            self.wf(),
            i < self.keys().len(),
        ensures
            r.0 == &self.keys()[i as int],
            r.1 == &self.vals()[i as int],
    {
        (&self.order[i], &self.values[i])
    }

    /// The entries, in insertion order.
    pub fn into_entries(self) -> (r: Vec<(K, V)>)
        requires
            self.wf(),
        ensures
            r@.len() == self.keys().len(),
            forall|i: int| 0 <= i < r@.len() ==> #[trigger] r@[i] == (self.keys()[i], self.vals()[i]),
    {
        let ghost ks = self.order@;
        let ghost vs = self.values@;
        let mut order = self.order;
        let mut values = self.values;
        let mut r: Vec<(K, V)> = Vec::new();
        while order.len() > 0
            invariant
                ks.len() == vs.len(),
                order@.len() == values@.len(),
                r@.len() + order@.len() == ks.len(),
                forall|i: int| 0 <= i < order@.len() ==> #[trigger] order@[i] == ks[ks.len() - order@.len() + i],
                forall|i: int| 0 <= i < values@.len() ==> #[trigger] values@[i] == vs[vs.len() - values@.len() + i],
                forall|i: int| 0 <= i < r@.len() ==> #[trigger] r@[i] == (ks[i], vs[i]),
            decreases order@.len(),
        {
            let k = order.remove(0);
            let v = values.remove(0);
            r.push((k, v));
        }
        r
    }
}

impl<K: MapKey, V> Default for LinkedHashMap<K, V> {
    fn default() -> (m: Self)
        ensures
            m.wf(),
            m.keys().len() == 0,
    {
        LinkedHashMap { order: Vec::new(), values: Vec::new() }
    }
}

} // verus!
