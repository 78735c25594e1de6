//! An insertion-ordered map keyed by strings.
//!
//! The map is a pair of parallel vectors. Its contracts speak of the map from
//! key text to value that it represents, and of the order in which keys were
//! first inserted.

use vstd::prelude::*;
use crate::text::str_eq;
use crate::text::views;

verus! {

#[derive(Debug, Clone, PartialEq)]
pub struct StrMap<V> {
    pub keys: Vec<String>,
    pub values: Vec<V>,
}

impl<V> StrMap<V> {
    /// Keys and values pair up, and no key occurs twice.
    pub open spec fn wf(&self) -> bool {
        &&& self.keys@.len() == self.values@.len()
        &&& forall|i: int, j: int|
            0 <= i < j < self.keys@.len() ==> self.keys@[i]@ != self.keys@[j]@
    }

    /// The keys in insertion order.
    pub open spec fn key_seq(&self) -> Seq<Seq<char>> {
        views(self.keys@)
    }

    /// Whether `key` is present.
    pub open spec fn has(&self, key: Seq<char>) -> bool {
        exists|i: int| 0 <= i < self.keys@.len() && #[trigger] self.keys@[i]@ == key
    }

    /// The position of `key` among the keys.
    pub open spec fn position(&self, key: Seq<char>) -> int {
        choose|i: int| 0 <= i < self.keys@.len() && #[trigger] self.keys@[i]@ == key
    }

    /// The value stored under `key`.
    pub open spec fn value_of(&self, key: Seq<char>) -> V {
        self.values@[self.position(key)]
    }

    /// The value stored under `key`, if any.
    pub open spec fn lookup(&self, key: Seq<char>) -> Option<V> {
        if self.has(key) {
            Some(self.value_of(key))
        } else {
            None
        }
    }

    /// The map from key text to value.
    pub open spec fn view(&self) -> Map<Seq<char>, V> {
        Map::new(|k: Seq<char>| self.has(k), |k: Seq<char>| self.value_of(k))
    }

    /// In a well-formed map a key sits at one position only.
    pub proof fn lemma_position(&self, i: int)
        requires
            self.wf(),
            0 <= i < self.keys@.len(),
        ensures
            self.has(self.keys@[i]@),
            self.position(self.keys@[i]@) == i,
            self.value_of(self.keys@[i]@) == self.values@[i],
    {
        let k = self.keys@[i]@;
        let p = self.position(k);
        if p < i {
            assert(self.keys@[p]@ != self.keys@[i]@);
        } else if i < p {
            assert(self.keys@[i]@ != self.keys@[p]@);
        }
    }

    /// An empty map.
    pub fn new() -> (r: Self)
        ensures
            r.wf(),
            r@ == Map::<Seq<char>, V>::empty(),
            r.keys@.len() == 0,
    {
        let r = StrMap { keys: Vec::new(), values: Vec::new() };
        assert(r@ =~= Map::<Seq<char>, V>::empty());
        r
    }

    /// The number of entries.
    pub fn len(&self) -> (r: usize)
        requires
            self.wf(),
        ensures
            r == self.keys@.len(),
    {
        self.keys.len()
    }

    /// The position of `key`, if it is present.
    pub fn find(&self, key: &str) -> (r: Option<usize>)
        requires
            self.wf(),
        ensures
            match r {
                Some(i) => self.has(key@) && i == self.position(key@) && i < self.keys@.len()
                    && self.keys@[i as int]@ == key@,
                None => !self.has(key@),
            },
    {
        let mut i: usize = 0;
        while i < self.keys.len()
            invariant
                self.wf(),
                i <= self.keys@.len(),
                forall|k: int| 0 <= k < i ==> self.keys@[k]@ != key@,
            decreases self.keys@.len() - i,
        {
            if str_eq(self.keys[i].as_str(), key) {
                proof {
                    self.lemma_position(i as int);
                }
                return Some(i);
            }
            i += 1;
        }
        None
    }

    /// Whether `key` is present.
    pub fn contains_key(&self, key: &str) -> (r: bool)
        requires
            self.wf(),
        ensures
            r == self.has(key@),
            r == self@.dom().contains(key@),
    {
        self.find(key).is_some()
    }

    /// The value stored under `key`, if any.
    pub fn get(&self, key: &str) -> (r: Option<&V>)
        requires
            self.wf(),
        ensures
            match r {
                Some(v) => self.lookup(key@) == Some(*v),
                None => self.lookup(key@) is None,
            },
    {
        match self.find(key) {
            Some(i) => Some(&self.values[i]),
            None => None,
        }
    }

    /// Stores `value` under `key`. A key that is already present keeps its
    /// place in the order and gets the new value; a new key goes last.
    pub fn insert(&mut self, key: String, value: V)
        requires
            old(self).wf(),
        ensures
            final(self).wf(),
            final(self)@ == old(self)@.insert(key@, value),
            old(self).has(key@) ==> final(self).key_seq() == old(self).key_seq(),
            !old(self).has(key@) ==> final(self).key_seq() == old(self).key_seq().push(key@),
    {
        let ghost before = *self;
        match self.find(key.as_str()) {
            Some(i) => {
                self.values.set(i, value);
                proof {
                    assert forall|k: Seq<char>| self.has(k) == before.has(k) by {
                        if self.has(k) {
                            let w = choose|w: int|
                                0 <= w < self.keys@.len() && #[trigger] self.keys@[w]@ == k;
                            assert(before.keys@[w]@ == k);
                        }
                        if before.has(k) {
                            let w = choose|w: int|
                                0 <= w < before.keys@.len() && #[trigger] before.keys@[w]@ == k;
                            assert(self.keys@[w]@ == k);
                        }
                    }
                    assert forall|k: Seq<char>| self.has(k) implies self.value_of(k)
                        == before@.insert(key@, value)[k] by {
                        let w = self.position(k);
                        self.lemma_position(w);
                        before.lemma_position(w);
                    }
                    assert(self@ =~= before@.insert(key@, value));
                }
            },
            None => {
                self.keys.push(key);
                self.values.push(value);
                proof {
                    let n = before.keys@.len() as int;
                    assert forall|k: Seq<char>| self.has(k) == (before.has(k) || k == key@) by {
                        if self.has(k) {
                            let w = choose|w: int|
                                0 <= w < self.keys@.len() && #[trigger] self.keys@[w]@ == k;
                            if w < n {
                                assert(before.keys@[w]@ == k);
                            }
                        }
                        if before.has(k) {
                            let w = choose|w: int|
                                0 <= w < before.keys@.len() && #[trigger] before.keys@[w]@ == k;
                            assert(self.keys@[w]@ == k);
                        }
                        if k == key@ {
                            assert(self.keys@[n]@ == k);
                        }
                    }
                    assert forall|k: Seq<char>| self.has(k) implies self.value_of(k)
                        == before@.insert(key@, value)[k] by {
                        let w = self.position(k);
                        self.lemma_position(w);
                        if w < n {
                            before.lemma_position(w);
                        }
                    }
                    assert(self@ =~= before@.insert(key@, value));
                    assert(self.key_seq() =~= before.key_seq().push(key@));
                }
            },
        }
    }

    /// Stores `value` under the new key `key`, at position `i` in the order.
    pub fn insert_at(&mut self, i: usize, key: String, value: V)
        requires
            old(self).wf(),
            i <= old(self).keys@.len(),
            !old(self).has(key@),
        ensures
            final(self).wf(),
            final(self)@ == old(self)@.insert(key@, value),
            final(self).key_seq() == old(self).key_seq().insert(i as int, key@),
    {
        let ghost before = *self;
        self.keys.insert(i, key);
        self.values.insert(i, value);
        proof {
            assert forall|a: int, b: int| 0 <= a < b < self.keys@.len() implies self.keys@[a]@
                != self.keys@[b]@ by {
                let a0 = if a < i { a } else { a - 1 };
                let b0 = if b < i { b } else { b - 1 };
                if a == i {
                    assert(before.keys@[b0]@ == self.keys@[b]@);
                } else if b == i {
                    assert(before.keys@[a0]@ == self.keys@[a]@);
                } else {
                    assert(before.keys@[a0]@ == self.keys@[a]@);
                    assert(before.keys@[b0]@ == self.keys@[b]@);
                }
            }
            assert forall|k: Seq<char>| self.has(k) == (before.has(k) || k == key@) by {
                if self.has(k) {
                    let w = choose|w: int|
                        0 <= w < self.keys@.len() && #[trigger] self.keys@[w]@ == k;
                    if w < i {
                        assert(before.keys@[w]@ == k);
                    } else if w > i {
                        assert(before.keys@[w - 1]@ == k);
                    }
                }
                if before.has(k) {
                    let w = choose|w: int|
                        0 <= w < before.keys@.len() && #[trigger] before.keys@[w]@ == k;
                    if w < i {
                        assert(self.keys@[w]@ == k);
                    } else {
                        assert(self.keys@[w + 1]@ == k);
                    }
                }
                if k == key@ {
                    assert(self.keys@[i as int]@ == k);
                }
            }
            assert forall|k: Seq<char>| self.has(k) implies self.value_of(k)
                == before@.insert(key@, value)[k] by {
                let w = self.position(k);
                self.lemma_position(w);
                if w < i {
                    before.lemma_position(w);
                } else if w > i {
                    before.lemma_position(w - 1);
                }
            }
            assert(self@ =~= before@.insert(key@, value));
            assert(self.key_seq() =~= before.key_seq().insert(i as int, key@));
        }
    }

    /// Replaces the value at position `i`.
    pub fn set_value(&mut self, i: usize, value: V)
        requires
            old(self).wf(),
            i < old(self).keys@.len(),
        ensures
            final(self).wf(),
            final(self)@ == old(self)@.insert(old(self).keys@[i as int]@, value),
            final(self).keys == old(self).keys,
    {
        let ghost before = *self;
        let ghost key = self.keys@[i as int]@;
        self.values.set(i, value);
        proof {
            assert forall|k: Seq<char>| self.has(k) == before.has(k) by {
                if self.has(k) {
                    let w = choose|w: int|
                        0 <= w < self.keys@.len() && #[trigger] self.keys@[w]@ == k;
                    assert(before.keys@[w]@ == k);
                }
                if before.has(k) {
                    let w = choose|w: int|
                        0 <= w < before.keys@.len() && #[trigger] before.keys@[w]@ == k;
                    assert(self.keys@[w]@ == k);
                }
            }
            assert(before.has(key));
            assert forall|k: Seq<char>| self.has(k) implies self.value_of(k) == before@.insert(
                key,
                value,
            )[k] by {
                let w = self.position(k);
                self.lemma_position(w);
                before.lemma_position(w);
            }
            assert(self@ =~= before@.insert(key, value));
        }
    }

    /// Removes `key` and its value, if present. The other keys keep their
    /// order.
    pub fn remove(&mut self, key: &str)
        requires
            old(self).wf(),
        ensures
            final(self).wf(),
            final(self)@ == old(self)@.remove(key@),
            !old(self).has(key@) ==> *final(self) == *old(self),
            old(self).has(key@) ==> final(self).key_seq() == old(self).key_seq().remove(
                old(self).position(key@),
            ),
            old(self).has(key@) ==> final(self).keys@ == old(self).keys@.remove(
                old(self).position(key@),
            ) && final(self).values@ == old(self).values@.remove(old(self).position(key@)),
    {
        let ghost before = *self;
        match self.find(key) {
            Some(i) => {
                self.keys.remove(i);
                self.values.remove(i);
                proof {
                    assert forall|k: Seq<char>| self.has(k) == (before.has(k) && k != key@) by {
                        if self.has(k) {
                            let w = choose|w: int|
                                0 <= w < self.keys@.len() && #[trigger] self.keys@[w]@ == k;
                            if w < i {
                                assert(before.keys@[w]@ == k);
                            } else {
                                assert(before.keys@[w + 1]@ == k);
                            }
                        }
                        if before.has(k) && k != key@ {
                            let w = choose|w: int|
                                0 <= w < before.keys@.len() && #[trigger] before.keys@[w]@ == k;
                            if w < i {
                                assert(self.keys@[w]@ == k);
                            } else {
                                assert(self.keys@[w - 1]@ == k);
                            }
                        }
                    }
                    assert forall|k: Seq<char>| self.has(k) implies self.value_of(k)
                        == before@.remove(key@)[k] by {
                        let w = self.position(k);
                        self.lemma_position(w);
                        if w < i {
                            before.lemma_position(w);
                        } else {
                            before.lemma_position(w + 1);
                        }
                    }
                    assert(self@ =~= before@.remove(key@));
                    assert(self.key_seq() =~= before.key_seq().remove(i as int));
                }
            },
            None => {
                assert(self@ =~= before@.remove(key@));
            },
        }
    }

    /// The keys of a map are finitely many.
    pub proof fn lemma_dom_finite(&self)
        ensures
            self@.dom().finite(),
            self@.dom() == self.key_seq().to_set(),
    {
        let ks = self.key_seq();
        assert forall|k: Seq<char>| self@.dom().contains(k) == ks.to_set().contains(k) by {
            if self.has(k) {
                let w = choose|w: int|
                    0 <= w < self.keys@.len() && #[trigger] self.keys@[w]@ == k;
                assert(ks[w] == k);
            }
            if ks.to_set().contains(k) {
                let w = choose|w: int| 0 <= w < ks.len() && ks[w] == k;
                assert(self.keys@[w]@ == k);
            }
        }
        assert(self@.dom() =~= ks.to_set());
        vstd::seq_lib::seq_to_set_is_finite(ks);
    }
}

impl<V> StrMap<V> {
    /// The map from key text to what `f` makes of the value.
    pub open spec fn mapped<W>(&self, f: spec_fn(V) -> W) -> Map<Seq<char>, W> {
        Map::new(|k: Seq<char>| self.has(k), |k: Seq<char>| f(self.value_of(k)))
    }

    /// What `insert` does to the mapped map.
    pub proof fn lemma_mapped_insert<W>(
        before: Self,
        after: Self,
        key: Seq<char>,
        value: V,
        f: spec_fn(V) -> W,
    )
        requires
            after@ == before@.insert(key, value),
        ensures
            after.mapped(f) == before.mapped(f).insert(key, f(value)),
    {
        assert forall|k: Seq<char>| after.has(k) == (before.has(k) || k == key) by {
            assert(after@.dom().contains(k) == after.has(k));
            assert(before@.dom().contains(k) == before.has(k));
            assert(before@.insert(key, value).dom().contains(k) == (before@.dom().contains(k) || k
                == key));
        }
        assert forall|k: Seq<char>| after.has(k) implies f(after.value_of(k)) == before.mapped(
            f,
        ).insert(key, f(value))[k] by {
            assert(after@.dom().contains(k));
            assert(after@[k] == after.value_of(k));
            if k != key {
                assert(before@.dom().contains(k));
                assert(before@[k] == before.value_of(k));
            }
        }
        assert(after.mapped(f) =~= before.mapped(f).insert(key, f(value)));
    }

    /// Two maps with the same keys in the same order, whose values `f` does
    /// not tell apart, have the same mapped map.
    pub proof fn lemma_mapped_same<W>(a: Self, b: Self, f: spec_fn(V) -> W)
        requires
            a.wf(),
            b.wf(),
            a.key_seq() == b.key_seq(),
            forall|i: int| 0 <= i < a.values@.len() ==> f(a.values@[i]) == f(b.values@[i]),
        ensures
            a.mapped(f) == b.mapped(f),
    {
        assert(a.key_seq().len() == a.keys@.len());
        assert(b.key_seq().len() == b.keys@.len());
        assert forall|i: int| 0 <= i < a.keys@.len() implies a.keys@[i]@ == b.keys@[i]@ by {
            assert(a.key_seq()[i] == b.key_seq()[i]);
        }
        assert forall|k: Seq<char>| a.has(k) == b.has(k) by {
            if a.has(k) {
                let w = choose|w: int| 0 <= w < a.keys@.len() && #[trigger] a.keys@[w]@ == k;
                assert(b.keys@[w]@ == k);
            }
            if b.has(k) {
                let w = choose|w: int| 0 <= w < b.keys@.len() && #[trigger] b.keys@[w]@ == k;
                assert(a.keys@[w]@ == k);
            }
        }
        assert forall|k: Seq<char>| a.has(k) implies f(a.value_of(k)) == f(b.value_of(k)) by {
            let w = a.position(k);
            a.lemma_position(w);
            b.lemma_position(w);
        }
        assert(a.mapped(f) =~= b.mapped(f));
    }

    /// What changing the value at one position does to the map.
    pub proof fn lemma_value_changed<W>(before: Self, after: Self, i: int, f: spec_fn(V) -> W)
        requires
            before.wf(),
            0 <= i < before.keys@.len(),
            after.keys == before.keys,
            after.values@.len() == before.values@.len(),
            forall|k: int|
                0 <= k < before.values@.len() && k != i ==> after.values@[k] == before.values@[k],
        ensures
            after.wf(),
            after@ == before@.insert(before.keys@[i]@, after.values@[i]),
            after.mapped(f) == before.mapped(f).insert(before.keys@[i]@, f(after.values@[i])),
    {
        let key = before.keys@[i]@;
        assert forall|k: Seq<char>| after.has(k) == before.has(k) by {
            if after.has(k) {
                let w = choose|w: int| 0 <= w < after.keys@.len() && #[trigger] after.keys@[w]@ == k;
                assert(before.keys@[w]@ == k);
            }
            if before.has(k) {
                let w = choose|w: int|
                    0 <= w < before.keys@.len() && #[trigger] before.keys@[w]@ == k;
                assert(after.keys@[w]@ == k);
            }
        }
        assert(before.has(key));
        assert forall|k: Seq<char>| after.has(k) implies after.value_of(k) == before@.insert(
            key,
            after.values@[i],
        )[k] && f(after.value_of(k)) == before.mapped(f).insert(key, f(after.values@[i]))[k] by {
            let w = after.position(k);
            after.lemma_position(w);
            before.lemma_position(w);
            before.lemma_position(i);
        }
        assert(after@ =~= before@.insert(key, after.values@[i]));
        assert(after.mapped(f) =~= before.mapped(f).insert(key, f(after.values@[i])));
    }

    /// The mapped map of an empty map is empty.
    pub proof fn lemma_mapped_empty<W>(&self, f: spec_fn(V) -> W)
        requires
            self.keys@.len() == 0,
        ensures
            self.mapped(f) == Map::<Seq<char>, W>::empty(),
    {
        assert(self.mapped(f) =~= Map::<Seq<char>, W>::empty());
    }
}

impl<V: View> StrMap<V> {
    /// The map from key text to the value's own mathematical value.
    pub open spec fn model(&self) -> Map<Seq<char>, V::V> {
        Map::new(|k: Seq<char>| self.has(k), |k: Seq<char>| self.value_of(k)@)
    }

    /// What `insert` does to the model.
    pub proof fn lemma_model_insert(before: Self, after: Self, key: Seq<char>, value: V)
        requires
            after@ == before@.insert(key, value),
        ensures
            after.model() == before.model().insert(key, value@),
    {
        assert forall|k: Seq<char>| after.has(k) == (before.has(k) || k == key) by {
            assert(after@.dom().contains(k) == after.has(k));
            assert(before@.dom().contains(k) == before.has(k));
            assert(before@.insert(key, value).dom().contains(k) == (before@.dom().contains(k) || k
                == key));
        }
        assert forall|k: Seq<char>| after.has(k) implies after.value_of(k)@
            == before.model().insert(key, value@)[k] by {
            assert(after@.dom().contains(k));
            assert(after@[k] == after.value_of(k));
            if k != key {
                assert(before@.dom().contains(k));
                assert(before@[k] == before.value_of(k));
            }
        }
        assert(after.model() =~= before.model().insert(key, value@));
    }

    /// What `remove` does to the model.
    pub proof fn lemma_model_remove(before: Self, after: Self, key: Seq<char>)
        requires
            after@ == before@.remove(key),
        ensures
            after.model() == before.model().remove(key),
    {
        assert forall|k: Seq<char>| after.has(k) == (before.has(k) && k != key) by {
            assert(after@.dom().contains(k) == after.has(k));
            assert(before@.dom().contains(k) == before.has(k));
            assert(before@.remove(key).dom().contains(k) == (before@.dom().contains(k) && k
                != key));
        }
        assert forall|k: Seq<char>| after.has(k) implies after.value_of(k)@
            == before.model().remove(key)[k] by {
            assert(after@.dom().contains(k));
            assert(after@[k] == after.value_of(k));
            assert(before@.dom().contains(k));
            assert(before@[k] == before.value_of(k));
        }
        assert(after.model() =~= before.model().remove(key));
    }

    /// The model of what `get` finds.
    pub proof fn lemma_model_lookup(&self, key: Seq<char>)
        ensures
            self.model().dom().contains(key) == self.has(key),
            self.has(key) ==> self.model()[key] == self.value_of(key)@,
    {
    }
}

/// An insertion-ordered set of strings.
#[derive(Debug, Clone, PartialEq)]
pub struct StrSet {
    pub items: Vec<String>,
}

impl StrSet {
    /// No string occurs twice.
    pub open spec fn wf(&self) -> bool {
        forall|i: int, j: int| 0 <= i < j < self.items@.len() ==> self.items@[i]@ != self.items@[j]@
    }

    /// Whether `s` is a member.
    pub open spec fn has(&self, s: Seq<char>) -> bool {
        exists|i: int| 0 <= i < self.items@.len() && #[trigger] self.items@[i]@ == s
    }

    /// The set of member texts.
    pub open spec fn view(&self) -> Set<Seq<char>> {
        Set::new(|s: Seq<char>| self.has(s))
    }

    /// The members in insertion order.
    pub open spec fn order(&self) -> Seq<Seq<char>> {
        views(self.items@)
    }

    /// An empty set.
    pub fn new() -> (r: Self)
        ensures
            r.wf(),
            r@ == Set::<Seq<char>>::empty(),
            r.items@.len() == 0,
    {
        let r = StrSet { items: Vec::new() };
        assert(r@ =~= Set::<Seq<char>>::empty());
        r
    }

    /// The position of `s`, if it is a member.
    pub fn find(&self, s: &str) -> (r: Option<usize>)
        ensures
            match r {
                Some(i) => i < self.items@.len() && self.items@[i as int]@ == s@,
                None => !self.has(s@),
            },
    {
        let mut i: usize = 0;
        while i < self.items.len()
            invariant
                i <= self.items@.len(),
                forall|k: int| 0 <= k < i ==> self.items@[k]@ != s@,
            decreases self.items@.len() - i,
        {
            if str_eq(self.items[i].as_str(), s) {
                return Some(i);
            }
            i += 1;
        }
        None
    }

    /// Whether `s` is a member.
    pub fn contains(&self, s: &str) -> (r: bool)
        ensures
            r == self@.contains(s@),
    {
        self.find(s).is_some()
    }

    /// Adds `s`. Returns whether it was new; a string that is already a
    /// member leaves the set as it was.
    pub fn insert(&mut self, s: String) -> (r: bool)
        requires
            old(self).wf(),
        ensures
            final(self).wf(),
            r == !old(self)@.contains(s@),
            final(self)@ == old(self)@.insert(s@),
            r ==> final(self).order() == old(self).order().push(s@),
            !r ==> *final(self) == *old(self),
    {
        let ghost before = *self;
        if self.contains(s.as_str()) {
            assert(self@ =~= before@.insert(s@));
            false
        } else {
            self.items.push(s);
            proof {
                let n = before.items@.len() as int;
                assert forall|k: Seq<char>| self.has(k) == (before.has(k) || k == s@) by {
                    if self.has(k) {
                        let w = choose|w: int|
                            0 <= w < self.items@.len() && #[trigger] self.items@[w]@ == k;
                        if w < n {
                            assert(before.items@[w]@ == k);
                        }
                    }
                    if before.has(k) {
                        let w = choose|w: int|
                            0 <= w < before.items@.len() && #[trigger] before.items@[w]@ == k;
                        assert(self.items@[w]@ == k);
                    }
                    if k == s@ {
                        assert(self.items@[n]@ == k);
                    }
                }
                assert(self@ =~= before@.insert(s@));
                assert(self.order() =~= before.order().push(s@));
            }
            true
        }
    }

    /// Removes `s`. Returns whether it was a member.
    pub fn remove(&mut self, s: &str) -> (r: bool)
        requires
            old(self).wf(),
        ensures
            final(self).wf(),
            r == old(self)@.contains(s@),
            final(self)@ == old(self)@.remove(s@),
            !r ==> *final(self) == *old(self),
    {
        let ghost before = *self;
        match self.find(s) {
            Some(i) => {
                self.items.remove(i);
                proof {
                    assert forall|k: Seq<char>| self.has(k) == (before.has(k) && k != s@) by {
                        if self.has(k) {
                            let w = choose|w: int|
                                0 <= w < self.items@.len() && #[trigger] self.items@[w]@ == k;
                            if w < i {
                                assert(before.items@[w]@ == k);
                            } else {
                                assert(before.items@[w + 1]@ == k);
                            }
                        }
                        if before.has(k) && k != s@ {
                            let w = choose|w: int|
                                0 <= w < before.items@.len() && #[trigger] before.items@[w]@ == k;
                            if w < i {
                                assert(self.items@[w]@ == k);
                            } else {
                                assert(self.items@[w - 1]@ == k);
                            }
                        }
                    }
                    assert(self@ =~= before@.remove(s@));
                }
                true
            },
            None => {
                assert(self@ =~= before@.remove(s@));
                false
            },
        }
    }
}

} // verus!
