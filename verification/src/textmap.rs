//! Maps with text keys.

use vstd::prelude::*;
use crate::text::{same, texts};

verus! {

/// A map from texts to values. No text occurs twice.
#[derive(Debug)]
pub struct TextMap<V> {
    keys: Vec<String>,
    values: Vec<V>,
}

impl<V> View for TextMap<V> {
    type V = Map<Seq<char>, V>;

    closed spec fn view(&self) -> Map<Seq<char>, V> {
        Map::new(
            |k: Seq<char>| texts(self.keys@).contains(k),
            |k: Seq<char>| self.values@[texts(self.keys@).index_of(k)],
        )
    }
}

impl<V> TextMap<V> {
    pub closed spec fn wf(&self) -> bool {
        &&& self.keys@.len() == self.values@.len()
        &&& texts(self.keys@).no_duplicates()
    }

    /// The keys, in the order in which they were put in.
    pub closed spec fn spec_keys(&self) -> Seq<Seq<char>> {
        texts(self.keys@)
    }

    proof fn lemma_at(&self, i: int)
        requires
            self.wf(),
            0 <= i < self.keys@.len(),
        ensures
            self@.contains_key(self.keys@[i]@),
            self@[self.keys@[i]@] == self.values@[i],
    {
        let keys = texts(self.keys@);
        assert(keys[i] == self.keys@[i]@);
        let j = keys.index_of(keys[i]);
        assert(keys[j] == keys[i]);
    }

    /// The keys are those of the map, each once.
    pub proof fn lemma_keys(&self)
        requires
            self.wf(),
        ensures
            self.spec_keys().no_duplicates(),
            forall|k: Seq<char>| self.spec_keys().contains(k) <==> #[trigger] self@.contains_key(k),
    {
    }

    /// There are as many keys as the map has.
    pub proof fn lemma_len(&self)
        requires
            self.wf(),
        ensures
            self@.dom().finite(),
            self@.dom().len() == self.spec_keys().len(),
    {
        let keys = texts(self.keys@);
        keys.unique_seq_to_set();
        vstd::seq_lib::seq_to_set_is_finite(keys);
        assert(self@.dom() =~= keys.to_set());
    }

    /// An empty map.
    pub fn new() -> (r: TextMap<V>)
        ensures
            r.wf(),
            r@ == Map::<Seq<char>, V>::empty(),
            r.spec_keys() == Seq::<Seq<char>>::empty(),
    {
        let r = TextMap { keys: Vec::new(), values: Vec::new() };
        assert(r@ =~= Map::<Seq<char>, V>::empty());
        assert(r.spec_keys() =~= Seq::<Seq<char>>::empty());
        r
    }

    fn position(&self, key: &str) -> (r: Option<usize>)
        requires
            self.wf(),
        ensures
            match r {
                Some(i) => i < self.keys@.len() && self.keys@[i as int]@ == key@,
                None => !self@.contains_key(key@),
            },
    {
        let mut i: usize = 0;
        while i < self.keys.len()
            invariant
                i <= self.keys@.len(),
                forall|j: int| 0 <= j < i ==> (#[trigger] texts(self.keys@)[j]) != key@,
            decreases self.keys@.len() - i,
        {
            if same(self.keys[i].as_str(), key) {
                return Some(i);
            }
            assert(texts(self.keys@)[i as int] != key@);
            i = i + 1;
        }
        None
    }

    /// The value under a key.
    pub fn get(&self, key: &str) -> (r: Option<&V>)
        requires
            self.wf(),
        ensures
            match r {
                Some(v) => self@.contains_key(key@) && self@[key@] == *v,
                None => !self@.contains_key(key@),
            },
    {
        match self.position(key) {
            Some(i) => {
                proof {
                    self.lemma_at(i as int);
                }
                Some(&self.values[i])
            },
            None => None,
        }
    }

    /// Whether there is a value under a key.
    pub fn contains(&self, key: &str) -> (r: bool)
        requires
            self.wf(),
        ensures
            r == self@.contains_key(key@),
    {
        self.get(key).is_some()
    }

    /// Puts a value under a key, in the place of the one there.
    pub fn insert(&mut self, key: &str, value: V)
        requires
            old(self).wf(),
        ensures
            final(self).wf(),
            final(self)@ == old(self)@.insert(key@, value),
            final(self).spec_keys() == (if old(self)@.contains_key(key@) {
                old(self).spec_keys()
            } else {
                old(self).spec_keys().push(key@)
            }),
    {
        let ghost before = *self;
        match self.position(key) {
            Some(i) => {
                proof {
                    before.lemma_at(i as int);
                }
                self.values.set(i, value);
                proof {
                    assert forall|k: Seq<char>| self@.contains_key(k) implies self@[k]
                        == before@.insert(key@, value)[k] by {
                        let j = texts(self.keys@).index_of(k);
                        assert(texts(self.keys@)[j] == k);
                        if k == key@ {
                            assert(texts(self.keys@)[i as int] == k);
                        }
                    }
                    assert(self@ =~= before@.insert(key@, value));
                }
            },
            None => {
                self.keys.push(key.to_owned());
                self.values.push(value);
                proof {
                    let keys = texts(self.keys@);
                    let n = before.keys@.len() as int;
                    assert(keys =~= texts(before.keys@).push(key@));
                    assert(keys[n] == key@);
                    assert forall|k: Seq<char>| self@.contains_key(k) <==> before@.insert(
                        key@,
                        value,
                    ).contains_key(k) by {
                        if before@.contains_key(k) {
                            let j = texts(before.keys@).index_of(k);
                            assert(texts(before.keys@)[j] == k);
                            assert(keys[j] == k);
                        }
                        if keys.contains(k) && k != key@ {
                            let j = keys.index_of(k);
                            assert(keys[j] == k);
                            assert(j < n);
                            assert(texts(before.keys@)[j] == k);
                        }
                    }
                    assert(self.wf()) by {
                        assert forall|i: int, j: int|
                            0 <= i < keys.len() && 0 <= j < keys.len() && i != j implies keys[i]
                            != keys[j] by {
                            if i == n {
                                assert(texts(before.keys@)[j] == keys[j]);
                                assert(texts(before.keys@).contains(keys[j]));
                            } else if j == n {
                                assert(texts(before.keys@)[i] == keys[i]);
                                assert(texts(before.keys@).contains(keys[i]));
                            } else {
                                assert(texts(before.keys@)[i] == keys[i]);
                                assert(texts(before.keys@)[j] == keys[j]);
                            }
                        }
                    }
                    assert forall|k: Seq<char>| self@.contains_key(k) implies self@[k]
                        == before@.insert(key@, value)[k] by {
                        if k == key@ {
                            self.lemma_at(n);
                        } else {
                            let j = texts(before.keys@).index_of(k);
                            assert(texts(before.keys@).contains(k));
                            assert(texts(before.keys@)[j] == k);
                            before.lemma_at(j);
                            assert(keys[j] == k);
                            self.lemma_at(j);
                        }
                    }
                    assert(self@ =~= before@.insert(key@, value));
                }
            },
        }
    }

    /// Takes out the value under a key.
    pub fn remove(&mut self, key: &str) -> (r: Option<V>)
        requires
            old(self).wf(),
        ensures
            final(self).wf(),
            final(self)@ == old(self)@.remove(key@),
            match r {
                Some(v) => old(self)@.contains_key(key@) && old(self)@[key@] == v,
                None => !old(self)@.contains_key(key@),
            },
    {
        let ghost before = *self;
        match self.position(key) {
            Some(i) => {
                proof {
                    before.lemma_at(i as int);
                }
                let _ = self.keys.remove(i);
                let value = self.values.remove(i);
                proof {
                    let old_keys = texts(before.keys@);
                    let keys = texts(self.keys@);
                    assert(keys =~= old_keys.remove(i as int));
                    assert(old_keys[i as int] == key@);
                    assert forall|a: int, b: int|
                        0 <= a < keys.len() && 0 <= b < keys.len() && a != b implies keys[a]
                        != keys[b] by {
                        let x = if a < i {
                            a
                        } else {
                            a + 1
                        };
                        let y = if b < i {
                            b
                        } else {
                            b + 1
                        };
                        assert(keys[a] == old_keys[x]);
                        assert(keys[b] == old_keys[y]);
                    }
                    assert forall|k: Seq<char>| self@.contains_key(k) <==> before@.remove(
                        key@,
                    ).contains_key(k) by {
                        if keys.contains(k) {
                            let a = keys.index_of(k);
                            let x = if a < i {
                                a
                            } else {
                                a + 1
                            };
                            assert(keys[a] == k);
                            assert(old_keys[x] == k);
                            assert(old_keys.contains(k));
                            assert(k != key@);
                        }
                        if old_keys.contains(k) && k != key@ {
                            let x = old_keys.index_of(k);
                            assert(old_keys[x] == k);
                            let a = if x < i {
                                x
                            } else {
                                x - 1
                            };
                            assert(keys[a] == k);
                        }
                    }
                    assert forall|k: Seq<char>| self@.contains_key(k) implies self@[k]
                        == before@.remove(key@)[k] by {
                        let a = keys.index_of(k);
                        assert(keys.contains(k));
                        assert(keys[a] == k);
                        let x = if a < i {
                            a
                        } else {
                            a + 1
                        };
                        assert(old_keys[x] == k);
                        self.lemma_at(a);
                        before.lemma_at(x);
                    }
                    assert(self@ =~= before@.remove(key@));
                }
                Some(value)
            },
            None => {
                assert(self@ =~= before@.remove(key@));
                None
            },
        }
    }

    /// How many keys there are.
    pub fn len(&self) -> (r: usize)
        ensures
            r == self.spec_keys().len(),
    {
        self.keys.len()
    }

    /// The key at a place.
    pub fn key_at(&self, i: usize) -> (r: &String)
        requires
            i < self.spec_keys().len(),
        ensures
            r@ == self.spec_keys()[i as int],
    {
        &self.keys[i]
    }

    /// The value at a place.
    pub fn value_at(&self, i: usize) -> (r: &V)
        requires
            self.wf(),
            i < self.spec_keys().len(),
        ensures
            self@.contains_key(self.spec_keys()[i as int]),
            *r == self@[self.spec_keys()[i as int]],
    {
        proof {
            self.lemma_at(i as int);
        }
        &self.values[i]
    }
}

} // verus!
