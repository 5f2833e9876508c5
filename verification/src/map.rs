//! A map from strings to values, kept as a list of entries with distinct keys.
use vstd::prelude::*;

use crate::text::{str_eq, chars_of};

verus! {

/// A map keyed by strings. Entries keep the order in which their keys were
/// first inserted; no key occurs twice.
pub struct StrMap<V> {
    keys: Vec<String>,
    values: Vec<V>,
}

impl<V> StrMap<V> {
    /// No key occurs twice among the entries.
    /// No key occurs twice in `e`.
    pub closed spec fn distinct(e: Seq<String>) -> bool {
        forall|i: int, j: int| 0 <= i < j < e.len() ==> e[i]@ != e[j]@
    }

    #[verifier::type_invariant]
    closed spec fn keys_distinct(self) -> bool {
        &&& Self::distinct(self.keys@)
        &&& self.keys@.len() <= self.values@.len()
    }

    /// The key of the entry at position `i`.
    pub closed spec fn key_at(&self, i: int) -> Seq<char> {
        self.keys@[i]@
    }

    /// The value of the entry at position `i`.
    pub closed spec fn value_at(&self, i: int) -> V {
        self.values@[i]
    }

    /// The number of entries.
    pub closed spec fn spec_len(&self) -> nat {
        self.keys@.len()
    }

    /// The keys, in entry order.
    pub open spec fn keys(&self) -> Seq<Seq<char>> {
        Seq::new(self.spec_len(), |i: int| self.key_at(i))
    }

    /// Whether some entry has key `k`.
    pub open spec fn has(&self, k: Seq<char>) -> bool {
        exists|i: int| 0 <= i < self.spec_len() && self.key_at(i) == k
    }

    /// The position of the entry with key `k`.
    pub open spec fn index_of_key(&self, k: Seq<char>) -> int {
        choose|i: int| 0 <= i < self.spec_len() && self.key_at(i) == k
    }

    /// The map that the entries stand for.
    pub open spec fn as_map(&self) -> Map<Seq<char>, V> {
        Map::new(|k: Seq<char>| self.has(k), |k: Seq<char>| self.value_at(self.index_of_key(k)))
    }

    /// Keys at different positions differ.
    proof fn lemma_keys_distinct(&self)
        requires
            Self::distinct(self.keys@) && self.keys@.len() <= self.values@.len(),
        ensures
            forall|i: int, j: int|
                0 <= i < self.spec_len() && 0 <= j < self.spec_len() && i != j ==> self.key_at(i)
                    != self.key_at(j),
    {
        assert forall|i: int, j: int|
            0 <= i < self.spec_len() && 0 <= j < self.spec_len() && i != j implies self.key_at(i)
            != self.key_at(j) by {
            if i > j {
                assert(self.keys@[j]@ != self.keys@[i]@);
            }
        }
    }

    /// The entry at position `i` is the one that `as_map` reads for its key.
    proof fn lemma_index_of_key(&self, i: int)
        requires
            Self::distinct(self.keys@) && self.keys@.len() <= self.values@.len(),
            0 <= i < self.spec_len(),
        ensures
            self.has(self.key_at(i)),
            self.index_of_key(self.key_at(i)) == i,
            self.as_map()[self.key_at(i)] == self.value_at(i),
    {
        self.lemma_keys_distinct();
        let k = self.key_at(i);
        assert(self.has(k));
        let j = self.index_of_key(k);
        assert(self.key_at(j) == k);
    }

    /// An empty map.
    pub fn new() -> (r: Self)
        ensures
            r.spec_len() == 0,
            r.as_map() == Map::<Seq<char>, V>::empty(),
    {
        let r = StrMap { keys: Vec::new(), values: Vec::new() };
        assert(r.as_map() =~= Map::<Seq<char>, V>::empty());
        r
    }

    /// The number of entries; also states how the entries make up the map.
    pub fn len(&self) -> (r: usize)
        ensures
            r == self.spec_len(),
            forall|i: int, j: int|
                0 <= i < self.spec_len() && 0 <= j < self.spec_len() && i != j ==> self.key_at(i)
                    != self.key_at(j),
            forall|i: int|
                0 <= i < self.spec_len() ==> #[trigger] self.as_map()[self.key_at(i)]
                    == self.value_at(i) && self.as_map().dom().contains(self.key_at(i)),
    {
        proof {
            use_type_invariant(self);
            self.lemma_keys_distinct();
            assert forall|i: int| 0 <= i < self.spec_len() implies #[trigger] self.as_map()[self.key_at(
                i,
            )] == self.value_at(i) && self.as_map().dom().contains(self.key_at(i)) by {
                self.lemma_index_of_key(i);
            }
        }
        self.keys.len()
    }

    /// Whether there are no entries.
    pub fn is_empty(&self) -> (r: bool)
        ensures
            r == (self.spec_len() == 0),
            r == (self.as_map() == Map::<Seq<char>, V>::empty()),
    {
        if self.keys.len() == 0 {
            assert(self.as_map() =~= Map::<Seq<char>, V>::empty());
            true
        } else {
            proof {
                use_type_invariant(self);
                self.lemma_index_of_key(0);
                assert(self.as_map().dom().contains(self.key_at(0)));
            }
            false
        }
    }

    /// The position of the entry with key `k`, if any.
    pub fn position(&self, k: &str) -> (r: Option<usize>)
        ensures
            r is None <==> !self.has(k@),
            r matches Some(i) ==> i < self.spec_len() && self.key_at(i as int) == k@,
    {
        let mut i: usize = 0;
        while i < self.keys.len()
            invariant
                i <= self.spec_len(),
                forall|j: int| 0 <= j < i ==> self.key_at(j) != k@,
            decreases self.keys.len() - i,
        {
            if str_eq(self.keys[i].as_str(), k) {
                assert(self.key_at(i as int) == k@);
                return Some(i);
            }
            i = i + 1;
        }
        None
    }

    /// The key of the entry at position `i`.
    pub fn key(&self, i: usize) -> (r: &String)
        requires
            i < self.spec_len(),
        ensures
            r@ == self.key_at(i as int),
    {
        &self.keys[i]
    }

    /// The value of the entry at position `i`.
    pub fn value(&self, i: usize) -> (r: &V)
        requires
            i < self.spec_len(),
        ensures
            *r == self.value_at(i as int),
    {
        proof {
            use_type_invariant(self);
        }
        &self.values[i]
    }

    /// Whether some entry has key `k`.
    pub fn contains_key(&self, k: &str) -> (r: bool)
        ensures
            r == self.as_map().dom().contains(k@),
    {
        self.position(k).is_some()
    }

    /// The value stored under `k`, if any.
    pub fn get(&self, k: &str) -> (r: Option<&V>)
        ensures
            r is None <==> !self.as_map().dom().contains(k@),
            r matches Some(v) ==> *v == self.as_map()[k@],
    {
        match self.position(k) {
            Some(i) => {
                proof {
                    use_type_invariant(self);
                    self.lemma_index_of_key(i as int);
                }
                Some(&self.values[i])
            },
            None => None,
        }
    }

    /// `self` is `before` with the value under `k` (which `before` holds)
    /// changed to `v`.
    pub closed spec fn updated_at(self, before: Self, k: Seq<char>, v: V) -> bool {
        &&& Self::distinct(before.keys@)
        &&& before.keys@.len() <= before.values@.len()
        &&& before.has(k)
        &&& self.keys@ == before.keys@
        &&& self.values@ == before.values@.update(before.index_of_key(k), v)
    }

    /// What `updated_at` means for the map and its keys.
    pub broadcast proof fn lemma_updated_at(self, before: Self, k: Seq<char>, v: V)
        requires
            #[trigger] self.updated_at(before, k, v),
        ensures
            self.as_map() == before.as_map().insert(k, v),
            self.keys() == before.keys(),
    {
        before.lemma_keys_distinct();
        let i = before.index_of_key(k);
        assert(self.keys() =~= before.keys());
        assert forall|kk: Seq<char>| #![auto] self.has(kk) == before.has(kk) by {
            if before.has(kk) {
                let j = before.index_of_key(kk);
                assert(self.key_at(j) == kk);
            }
            if self.has(kk) {
                let j = self.index_of_key(kk);
                assert(before.key_at(j) == kk);
            }
        }
        assert forall|kk: Seq<char>| #![auto] self.as_map().dom().contains(kk) implies self.as_map()[kk]
            == before.as_map().insert(k, v)[kk] by {
            before.lemma_index_of_key(i);
            let j = self.index_of_key(kk);
            assert(self.key_at(j) == kk);
            assert forall|a: int, b: int|
                0 <= a < self.spec_len() && 0 <= b < self.spec_len() && a != b implies self.key_at(a)
                != self.key_at(b) by {
                assert(before.key_at(a) != before.key_at(b));
            }
            if kk != k {
                before.lemma_index_of_key(j);
            }
        }
        assert(self.as_map() =~= before.as_map().insert(k, v));
    }

    /// The value stored under `k`, for changing in place.
    pub fn get_mut(&mut self, k: &str) -> (r: Option<&mut V>)
        ensures
            r is None <==> !old(self).as_map().dom().contains(k@),
            r is None ==> *final(self) == *old(self),
            r matches Some(v) ==> *v == old(self).as_map()[k@] && final(self).updated_at(
                *old(self),
                k@,
                *final(v),
            ),
            r matches Some(v) ==> (final(self).updated_at(*old(self), k@, *final(v))
                ==> final(self).as_map() == old(self).as_map().insert(k@, *final(v))
                && final(self).keys() == old(self).keys()),
    {
        broadcast use StrMap::lemma_updated_at;

        proof {
            use_type_invariant(&*self);
            self.lemma_keys_distinct();
        }
        match self.position(k) {
            Some(i) => {
                proof {
                    self.lemma_index_of_key(i as int);
                }
                Some(&mut self.values[i])
            },
            None => None,
        }
    }

    /// Stores `v` under `k`, replacing what was stored there.
    pub fn insert(&mut self, k: String, v: V)
        ensures
            final(self).as_map() == old(self).as_map().insert(k@, v),
            old(self).has(k@) ==> final(self).keys() == old(self).keys(),
            !old(self).has(k@) ==> final(self).keys() == old(self).keys().push(k@),
    {
        proof {
            use_type_invariant(&*self);
            self.lemma_keys_distinct();
        }
        let ghost old_self = *self;
        let ghost old_map = self.as_map();
        let ghost kv = k@;
        let pos = self.position(k.as_str());
        match pos {
            Some(i) => {
                let slot = &mut self.values[i];
                *slot = v;
                proof {
                    self.lemma_keys_distinct();
                    assert(self.keys() =~= old_self.keys());
                    assert forall|kk: Seq<char>| #![auto] self.has(kk) == old_self.has(kk) by {
                        if old_self.has(kk) {
                            let j = old_self.index_of_key(kk);
                            assert(self.key_at(j) == kk);
                        }
                        if self.has(kk) {
                            let j = self.index_of_key(kk);
                            assert(old_self.key_at(j) == kk);
                        }
                    }
                    assert forall|kk: Seq<char>| #![auto] self.as_map().dom().contains(kk) implies self.as_map()[kk]
                        == old_map.insert(kv, v)[kk] by {
                        let j = self.index_of_key(kk);
                        self.lemma_index_of_key(j);
                        if kk != kv {
                            old_self.lemma_index_of_key(j);
                        }
                    }
                    assert(self.as_map() =~= old_map.insert(kv, v));
                }
            },
            None => {
                let mut keys = Vec::new();
                std::mem::swap(&mut keys, &mut self.keys);
                let mut values = Vec::new();
                std::mem::swap(&mut values, &mut self.values);
                let n_keys = keys.len();
                keys.push(k);
                if values.len() > n_keys {
                    values.set(n_keys, v);
                } else {
                    values.push(v);
                }
                proof {
                    assert forall|a: int, b: int| 0 <= a < b < keys@.len() implies keys@[a]@
                        != keys@[b]@ by {
                        if b < old_self.spec_len() {
                            assert(old_self.key_at(a) != old_self.key_at(b));
                        } else {
                            assert(old_self.key_at(a) != kv);
                        }
                    }
                }
                self.values = values;
                self.keys = keys;
                proof {
                    self.lemma_keys_distinct();
                    let n = old_self.spec_len() as int;
                    assert(self.keys() =~= old_self.keys().push(kv));
                    assert forall|kk: Seq<char>| #![auto] self.as_map().dom().contains(kk)
                        == old_map.insert(kv, v).dom().contains(kk) by {
                        if old_self.has(kk) {
                            let j = old_self.index_of_key(kk);
                            assert(self.key_at(j) == kk);
                        }
                        if self.has(kk) {
                            let j = self.index_of_key(kk);
                            if j < n {
                                assert(old_self.key_at(j) == kk);
                            }
                        }
                        if kk == kv {
                            assert(self.key_at(n) == kv);
                        }
                    }
                    assert forall|kk: Seq<char>| #![auto] self.as_map().dom().contains(kk) implies self.as_map()[kk]
                        == old_map.insert(kv, v)[kk] by {
                        let j = self.index_of_key(kk);
                        self.lemma_index_of_key(j);
                        assert(self.key_at(j) == kk);
                        if kk != kv {
                            assert(j < n);
                            assert(self.keys@[j] == old_self.keys@[j]);
                            assert(self.values@[j] == old_self.values@[j]);
                            old_self.lemma_index_of_key(j);
                        } else {
                            self.lemma_index_of_key(n);
                        }
                    }
                    assert(self.as_map() =~= old_map.insert(kv, v));
                }
            },
        }
    }
}

impl StrMap<String> {
    /// A copy of the map, with the same entries in the same order.
    pub fn copy(&self) -> (r: Self)
        ensures
            r.as_map() == self.as_map(),
            r.keys() == self.keys(),
    {
        proof {
            use_type_invariant(self);
        }
        let keys = self.keys.clone();
        let values = self.values.clone();
        assert(keys@ =~= self.keys@);
        assert(values@ =~= self.values@);
        let r = StrMap { keys, values };
        assert(r.keys() =~= self.keys());
        assert forall|k: Seq<char>| #![auto] r.has(k) == self.has(k) by {
            if r.has(k) {
                let j = r.index_of_key(k);
                assert(self.key_at(j) == k);
            }
            if self.has(k) {
                let j = self.index_of_key(k);
                assert(r.key_at(j) == k);
            }
        }
        assert forall|k: Seq<char>| #![auto] r.has(k) implies r.as_map()[k] == self.as_map()[k] by {
            let j = r.index_of_key(k);
            r.lemma_index_of_key(j);
            self.lemma_index_of_key(j);
        }
        assert(r.as_map() =~= self.as_map());
        r
    }
}

} // verus!
