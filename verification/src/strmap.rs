//! A map keyed by text, in which each key occurs at most once: the
//! substitution context of a task and the option overrides handed to it.
use vstd::prelude::*;

use crate::text::{copy_string, owned};

verus! {

/// Values that can be copied with a proof that the copy has the same view.
pub trait Duplicate: View + Sized {
    fn duplicate(&self) -> (r: Self)
        ensures
            r@ == self@,
    ;
}

impl Duplicate for String {
    fn duplicate(&self) -> (r: String) {
        copy_string(self)
    }
}

/// A map from text keys to values; inserting an existing key replaces its value.
#[derive(Debug)]
pub struct StrMap<V: View> {
    keys: Vec<String>,
    vals: Vec<V>,
}

impl<V: View> StrMap<V> {
    #[verifier::type_invariant]
    spec fn well_formed(self) -> bool {
        &&& self.keys@.len() == self.vals@.len()
        &&& forall|i: int, j: int|
            0 <= i < self.keys@.len() && 0 <= j < self.keys@.len() && i != j
                ==> #[trigger] self.keys@[i]@ != #[trigger] self.keys@[j]@
    }

    /// The keys, as texts, in insertion order.
    pub closed spec fn key_seq(self) -> Seq<Seq<char>> {
        self.keys@.map_values(|s: String| s@)
    }

    /// The map that this value stands for.
    pub closed spec fn view_map(self) -> Map<Seq<char>, V::V> {
        Map::new(
            |k: Seq<char>| self.key_seq().contains(k),
            |k: Seq<char>| self.vals@[self.key_seq().index_of(k)]@,
        )
    }

    proof fn lemma_lookup(self, i: int)
        requires
            self.well_formed(),
            0 <= i < self.keys@.len(),
        ensures
            self.view_map().contains_key(self.keys@[i]@),
            self.view_map()[self.keys@[i]@] == self.vals@[i]@,
    {
        let k = self.keys@[i]@;
        assert(self.key_seq()[i] == k);
        assert(self.key_seq().contains(k));
        let j = self.key_seq().index_of(k);
        assert(self.key_seq()[j] == k);
        assert(self.keys@[j]@ == k);
    }

    /// An empty map.
    pub fn new() -> (r: StrMap<V>)
        ensures
            r@ == Map::<Seq<char>, V::V>::empty(),
    {
        let r = StrMap { keys: Vec::new(), vals: Vec::new() };
        proof {
            assert(r.view_map() =~= Map::<Seq<char>, V::V>::empty());
        }
        r
    }

    fn find(&self, key: &String) -> (r: Option<usize>)
        ensures
            match r {
                Some(i) => i < self.keys@.len() && self.keys@[i as int]@ == key@,
                None => forall|j: int| 0 <= j < self.keys@.len() ==> self.keys@[j]@ != key@,
            },
    {
        for i in 0..self.keys.len()
            invariant
                forall|j: int| 0 <= j < i ==> self.keys@[j]@ != key@,
        {
            if self.keys[i] == *key {
                return Some(i);
            }
        }
        None
    }

    proof fn lemma_absent(self, k: Seq<char>)
        requires
            forall|j: int| 0 <= j < self.keys@.len() ==> self.keys@[j]@ != k,
        ensures
            !self.view_map().contains_key(k),
    {
        if self.key_seq().contains(k) {
            let j = choose|j: int| 0 <= j < self.key_seq().len() && self.key_seq()[j] == k;
            assert(self.keys@[j]@ == k);
        }
    }

    /// The value stored for `key`.
    pub fn get(&self, key: &str) -> (r: Option<&V>)
        ensures
            match r {
                Some(v) => self@.contains_key(key@) && self@[key@] == v@,
                None => !self@.contains_key(key@),
            },
    {
        proof {
            use_type_invariant(self);
        }
        let k = owned(key);
        match self.find(&k) {
            Some(i) => {
                proof {
                    self.lemma_lookup(i as int);
                }
                Some(&self.vals[i])
            },
            None => {
                proof {
                    self.lemma_absent(key@);
                }
                None
            },
        }
    }

    /// Whether `key` has a value.
    pub fn contains_key(&self, key: &str) -> (r: bool)
        ensures
            r == self@.contains_key(key@),
    {
        self.get(key).is_some()
    }

    /// The number of keys.
    pub fn len(&self) -> (r: usize)
        ensures
            r == self@.dom().len(),
    {
        proof {
            use_type_invariant(self);
            self.lemma_len();
        }
        self.keys.len()
    }

    /// Whether the map has no key.
    pub fn is_empty(&self) -> (r: bool)
        ensures
            r == (self@.dom().len() == 0),
    {
        self.len() == 0
    }

    proof fn lemma_len(self)
        requires
            self.well_formed(),
        ensures
            self.view_map().dom().len() == self.keys@.len(),
            self.view_map().dom() == self.key_seq().to_set(),
    {
        assert(self.view_map().dom() =~= self.key_seq().to_set());
        assert forall|i: int, j: int|
            0 <= i < self.key_seq().len() && 0 <= j < self.key_seq().len() && i != j implies
            self.key_seq()[i] != self.key_seq()[j] by {
            assert(self.keys@[i]@ != self.keys@[j]@);
        }
        assert(self.key_seq().no_duplicates());
        self.key_seq().unique_seq_to_set();
    }

    /// Sets the value of `key`, replacing any value it had.
    pub fn insert(&mut self, key: String, value: V)
        ensures
            final(self)@ == old(self)@.insert(key@, value@),
    {
        proof {
            use_type_invariant(&*self);
        }
        let ghost old_self = *self;
        let ghost old_map = self.view_map();
        let ghost kv = key@;
        let ghost vv = value@;
        let ghost old_keys = self.keys@;
        let ghost old_vals = self.vals@;
        let found = self.find(&key);
        let mut taken = StrMap::new();
        std::mem::swap(&mut taken, self);
        let StrMap { keys: mut keys, vals: mut vals } = taken;
        proof {
            assert(keys@ == old_keys);
            assert(vals@ == old_vals);
        }
        match found {
            Some(i) => {
                vals.set(i, value);
            },
            None => {
                keys.push(key);
                vals.push(value);
            },
        }
        proof {
            assert forall|i: int, j: int|
                0 <= i < keys@.len() && 0 <= j < keys@.len() && i != j implies
                #[trigger] keys@[i]@ != #[trigger] keys@[j]@ by {
                if i < old_keys.len() && j < old_keys.len() {
                    assert(keys@[i] == old_keys[i]);
                    assert(keys@[j] == old_keys[j]);
                    assert(old_self.keys@[i]@ != old_self.keys@[j]@);
                }
            }
        }
        let r = StrMap { keys, vals };
        proof {
            let n = old_keys.len() as int;
            let oks = old_keys.map_values(|s: String| s@);
            assert(oks == old_self.key_seq());
            match found {
                Some(i) => {
                    assert(r.key_seq() =~= oks);
                },
                None => {
                    assert(r.key_seq() =~= oks.push(kv));
                },
            }
            assert forall|k: Seq<char>| #[trigger]
                r.view_map().contains_key(k) == old_map.insert(kv, vv).contains_key(k) by {
                if k == kv {
                    match found {
                        Some(i) => {
                            assert(r.key_seq()[i as int] == kv);
                        },
                        None => {
                            assert(r.key_seq()[n] == kv);
                        },
                    }
                }
                if old_map.contains_key(k) {
                    let j = oks.index_of(k);
                    assert(r.key_seq()[j] == k);
                }
                if r.key_seq().contains(k) && k != kv {
                    let j = choose|j: int| 0 <= j < r.key_seq().len() && r.key_seq()[j] == k;
                    assert(j < n);
                    assert(oks[j] == k);
                }
            }
            assert forall|k: Seq<char>| r.view_map().contains_key(k) implies
                #[trigger] r.view_map()[k] == old_map.insert(kv, vv)[k] by {
                let j = r.key_seq().index_of(k);
                assert(r.keys@[j]@ == k);
                r.lemma_lookup(j);
                if k == kv {
                    match found {
                        Some(i) => {
                            assert(j == i);
                        },
                        None => {
                            assert(j == n);
                        },
                    }
                } else {
                    assert(j < n);
                    assert(old_keys[j]@ == k);
                    assert(r.vals@[j] == old_vals[j]);
                    old_self.lemma_lookup(j);
                }
            }
            assert(r.view_map() =~= old_map.insert(kv, vv));
        }
        *self = r;
    }
}

impl<V: View> View for StrMap<V> {
    type V = Map<Seq<char>, V::V>;

    open spec fn view(&self) -> Map<Seq<char>, V::V> {
        self.view_map()
    }
}

impl<V: View + Duplicate> StrMap<V> {
    /// A copy of the map.
    pub fn duplicate_map(&self) -> (r: StrMap<V>)
        ensures
            r@ == self@,
    {
        proof {
            use_type_invariant(self);
        }
        let mut keys: Vec<String> = Vec::new();
        let mut vals: Vec<V> = Vec::new();
        for i in 0..self.keys.len()
            invariant
                self.keys@.len() == self.vals@.len(),
                keys@.len() == i,
                vals@.len() == i,
                forall|j: int| 0 <= j < i ==> #[trigger] keys@[j]@ == self.keys@[j]@,
                forall|j: int| 0 <= j < i ==> #[trigger] vals@[j]@ == self.vals@[j]@,
        {
            keys.push(copy_string(&self.keys[i]));
            vals.push(self.vals[i].duplicate());
        }
        proof {
            assert forall|i: int, j: int|
                0 <= i < keys@.len() && 0 <= j < keys@.len() && i != j implies
                #[trigger] keys@[i]@ != #[trigger] keys@[j]@ by {
                assert(self.keys@[i]@ != self.keys@[j]@);
            }
        }
        let r = StrMap { keys, vals };
        proof {
            assert(r.key_seq() =~= self.key_seq());
            assert forall|k: Seq<char>| r.view_map().contains_key(k) implies
                #[trigger] r.view_map()[k] == self.view_map()[k] by {
                let j = r.key_seq().index_of(k);
                assert(r.keys@[j]@ == k);
                self.lemma_lookup(j);
            }
            assert(r.view_map() =~= self.view_map());
        }
        r
    }
}

} // verus!
