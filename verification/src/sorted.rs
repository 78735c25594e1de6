//! A map keyed by strings that keeps its keys in lexicographic order.
//!
//! The order is that of the keys' UTF-8 bytes, which is how strings compare.

use vstd::prelude::*;
use vstd::string::*;
use vstd::utf8::encode_utf8;
use crate::strmap::StrMap;

verus! {

/// How one key stands to another.
#[derive(Debug, Clone, Copy, PartialEq, Eq, Structural)]
pub enum Order {
    Before,
    Same,
    After,
}

/// `a` comes before `b` byte by byte; a proper prefix comes first.
pub open spec fn bytes_lt(a: Seq<u8>, b: Seq<u8>) -> bool
    decreases a.len(),
{
    if b.len() == 0 {
        false
    } else if a.len() == 0 {
        true
    } else if a[0] != b[0] {
        a[0] < b[0]
    } else {
        bytes_lt(a.drop_first(), b.drop_first())
    }
}

/// Key `a` comes before key `b`.
pub open spec fn key_lt(a: Seq<char>, b: Seq<char>) -> bool {
    bytes_lt(encode_utf8(a), encode_utf8(b))
}

/// Each key comes before the next.
pub open spec fn ascending(keys: Seq<Seq<char>>) -> bool {
    forall|i: int, j: int| 0 <= i < j < keys.len() ==> key_lt(keys[i], keys[j])
}

pub proof fn lemma_bytes_lt_irreflexive(a: Seq<u8>)
    ensures
        !bytes_lt(a, a),
    decreases a.len(),
{
    if a.len() > 0 {
        lemma_bytes_lt_irreflexive(a.drop_first());
    }
}

pub proof fn lemma_bytes_lt_transitive(a: Seq<u8>, b: Seq<u8>, c: Seq<u8>)
    requires
        bytes_lt(a, b),
        bytes_lt(b, c),
    ensures
        bytes_lt(a, c),
    decreases a.len(),
{
    if a.len() > 0 && b.len() > 0 && c.len() > 0 && a[0] == b[0] && b[0] == c[0] {
        lemma_bytes_lt_transitive(a.drop_first(), b.drop_first(), c.drop_first());
    }
}

pub proof fn lemma_bytes_lt_total(a: Seq<u8>, b: Seq<u8>)
    ensures
        bytes_lt(a, b) || bytes_lt(b, a) || a == b,
    decreases a.len(),
{
    if a.len() > 0 && b.len() > 0 && a[0] == b[0] {
        lemma_bytes_lt_total(a.drop_first(), b.drop_first());
        if a.drop_first() == b.drop_first() {
            assert(a =~= seq![a[0]] + a.drop_first());
            assert(b =~= seq![b[0]] + b.drop_first());
        }
    } else if a.len() == 0 && b.len() == 0 {
        assert(a =~= b);
    }
}

/// The order on keys is strict and total.
pub proof fn lemma_key_order(a: Seq<char>, b: Seq<char>, c: Seq<char>)
    ensures
        !key_lt(a, a),
        key_lt(a, b) && key_lt(b, c) ==> key_lt(a, c),
        key_lt(a, b) || key_lt(b, a) || a == b,
{
    lemma_bytes_lt_irreflexive(encode_utf8(a));
    if key_lt(a, b) && key_lt(b, c) {
        lemma_bytes_lt_transitive(encode_utf8(a), encode_utf8(b), encode_utf8(c));
    }
    lemma_bytes_lt_total(encode_utf8(a), encode_utf8(b));
    vstd::utf8::encode_utf8_decode_utf8(a);
    vstd::utf8::encode_utf8_decode_utf8(b);
}

/// How key `a` stands to key `b`.
pub fn compare_keys(a: &str, b: &str) -> (r: Order)
    ensures
        r == Order::Before <==> key_lt(a@, b@),
        r == Order::Same <==> a@ == b@,
        r == Order::After <==> key_lt(b@, a@),
{
    let x = a.as_bytes();
    let y = b.as_bytes();
    proof {
        lemma_key_order(a@, b@, a@);
        lemma_key_order(b@, a@, b@);
        if key_lt(a@, b@) && key_lt(b@, a@) {
            lemma_bytes_lt_transitive(x@, y@, x@);
        }
        assert(x@.skip(0) =~= x@);
        assert(y@.skip(0) =~= y@);
        assert((a@ == b@) == (x@ == y@));
        lemma_bytes_lt_irreflexive(x@);
    }
    let mut i: usize = 0;
    while i < x.len() && i < y.len()
        invariant
            i <= x@.len(),
            i <= y@.len(),
            x@ == encode_utf8(a@),
            y@ == encode_utf8(b@),
            (a@ == b@) == (x@ == y@),
            !(bytes_lt(x@, y@) && bytes_lt(y@, x@)),
            x@ == y@ ==> !bytes_lt(x@, y@),
            forall|k: int| 0 <= k < i ==> x@[k] == y@[k],
            bytes_lt(x@, y@) == bytes_lt(x@.skip(i as int), y@.skip(i as int)),
            bytes_lt(y@, x@) == bytes_lt(y@.skip(i as int), x@.skip(i as int)),
        decreases x@.len() - i,
    {
        proof {
            assert(x@.skip(i as int)[0] == x@[i as int]);
            assert(y@.skip(i as int)[0] == y@[i as int]);
            assert(x@.skip(i as int).drop_first() =~= x@.skip(i + 1));
            assert(y@.skip(i as int).drop_first() =~= y@.skip(i + 1));
        }
        if x[i] < y[i] {
            return Order::Before;
        }
        if x[i] > y[i] {
            return Order::After;
        }
        i += 1;
    }
    proof {
        assert(x@.skip(i as int).len() == x@.len() - i);
        assert(y@.skip(i as int).len() == y@.len() - i);
        if x@.len() == y@.len() {
            assert(x@ =~= y@);
        }
    }
    if i < y.len() {
        Order::Before
    } else if i < x.len() {
        Order::After
    } else {
        Order::Same
    }
}

/// A map from strings to values whose keys are kept in ascending order.
#[derive(Debug, Clone, PartialEq)]
pub struct SortedMap<V> {
    pub entries: StrMap<V>,
}

impl<V> SortedMap<V> {
    /// The keys are in ascending order, each once.
    pub open spec fn wf(&self) -> bool {
        self.entries.wf() && ascending(self.entries.key_seq())
    }

    /// The map from key text to value.
    pub open spec fn view(&self) -> Map<Seq<char>, V> {
        self.entries@
    }

    /// The keys in ascending order.
    pub open spec fn key_seq(&self) -> Seq<Seq<char>> {
        self.entries.key_seq()
    }

    /// An empty map.
    pub fn new() -> (r: Self)
        ensures
            r.wf(),
            r@ == Map::<Seq<char>, V>::empty(),
            r.key_seq().len() == 0,
    {
        SortedMap { entries: StrMap::new() }
    }

    /// The number of entries.
    pub fn len(&self) -> (r: usize)
        requires
            self.wf(),
        ensures
            r == self.key_seq().len(),
    {
        self.entries.len()
    }

    /// The value stored under `key`, if any.
    pub fn get(&self, key: &str) -> (r: Option<&V>)
        requires
            self.wf(),
        ensures
            match r {
                Some(v) => self@.dom().contains(key@) && self@[key@] == *v,
                None => !self@.dom().contains(key@),
            },
    {
        self.entries.get(key)
    }

    /// Stores `value` under `key`, replacing what was there.
    pub fn insert(&mut self, key: String, value: V)
        requires
            old(self).wf(),
        ensures
            final(self).wf(),
            final(self)@ == old(self)@.insert(key@, value),
    {
        let ghost ks = self.entries.key_seq();
        let n = self.entries.keys.len();
        let mut i: usize = 0;
        while i < n
            invariant
                i <= n,
                n == self.entries.keys@.len(),
                self.wf(),
                *self == *old(self),
                ks == self.entries.key_seq(),
                forall|k: int| 0 <= k < i ==> key_lt(#[trigger] ks[k], key@),
            decreases n - i,
        {
            match compare_keys(self.entries.keys[i].as_str(), key.as_str()) {
                Order::Before => {
                    i += 1;
                },
                Order::Same => {
                    self.entries.set_value(i, value);
                    return ;
                },
                Order::After => {
                    proof {
                        assert forall|k: int| 0 <= k < n implies ks[k] != key@ by {
                            lemma_key_order(ks[k], key@, ks[i as int]);
                            lemma_key_order(key@, ks[i as int], ks[k]);
                            lemma_key_order(ks[k], ks[k], ks[k]);
                        }
                        assert(!self.entries.has(key@)) by {
                            if self.entries.has(key@) {
                                let w = choose|w: int|
                                    0 <= w < self.entries.keys@.len()
                                        && #[trigger] self.entries.keys@[w]@ == key@;
                                assert(ks[w] == key@);
                            }
                        }
                    }
                    self.entries.insert_at(i, key, value);
                    proof {
                        let after = self.entries.key_seq();
                        assert forall|a: int, b: int| 0 <= a < b < after.len() implies key_lt(
                            after[a],
                            after[b],
                        ) by {
                            if b == i {
                                assert(after[a] == ks[a]);
                            } else if a == i {
                                assert(after[b] == ks[b - 1]);
                                lemma_key_order(key@, ks[i as int], ks[b - 1]);
                            } else {
                                let a0 = if a < i { a } else { a - 1 };
                                let b0 = if b < i { b } else { b - 1 };
                                assert(after[a] == ks[a0]);
                                assert(after[b] == ks[b0]);
                            }
                        }
                    }
                    return ;
                },
            }
        }
        proof {
            assert forall|k: int| 0 <= k < n implies ks[k] != key@ by {
                lemma_key_order(ks[k], ks[k], ks[k]);
            }
            assert(!self.entries.has(key@)) by {
                if self.entries.has(key@) {
                    let w = choose|w: int|
                        0 <= w < self.entries.keys@.len() && #[trigger] self.entries.keys@[w]@
                            == key@;
                    assert(ks[w] == key@);
                }
            }
        }
        self.entries.insert_at(n, key, value);
        proof {
            let after = self.entries.key_seq();
            assert forall|a: int, b: int| 0 <= a < b < after.len() implies key_lt(
                after[a],
                after[b],
            ) by {
                assert(after[a] == ks[a]);
                if b < n {
                    assert(after[b] == ks[b]);
                }
            }
        }
    }
}

} // verus!
