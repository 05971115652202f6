//! A set of strings and a map keyed by strings, kept in insertion order.

use vstd::prelude::*;
use crate::text::{str_eq, texts_view};

verus! {

/// The position of a string in a list, where it occurs.
pub fn position(items: &Vec<String>, key: &str) -> (found: Option<usize>)
    ensures
        found is Some <==> texts_view(items@).contains(key@),
        found matches Some(i) ==> i < items@.len() && items@[i as int]@ == key@,
{
    let mut i: usize = 0;
    while i < items.len()
        invariant
            i <= items.len(),
            forall|j: int| 0 <= j < i ==> texts_view(items@)[j] != key@,
        decreases items.len() - i,
    {
        if str_eq(items[i].as_str(), key) {
            assert(texts_view(items@)[i as int] == key@);
            return Some(i);
        }
        i += 1;
    }
    None
}

/// A set of strings.
#[derive(Debug, Clone, PartialEq, Eq)]
pub struct TextSet {
    items: Vec<String>,
}

impl View for TextSet {
    type V = Set<Seq<char>>;

    closed spec fn view(&self) -> Set<Seq<char>> {
        texts_view(self.items@).to_set()
    }
}

impl TextSet {
    /// No string is held twice.
    pub closed spec fn wf(&self) -> bool {
        texts_view(self.items@).no_duplicates()
    }

    /// The strings in the order they were put in.
    pub closed spec fn spec_items(&self) -> Seq<Seq<char>> {
        texts_view(self.items@)
    }

    /// The strings held are the members of the set, each once.
    pub proof fn lemma_items(&self)
        requires
            self.wf(),
        ensures
            self.spec_items().no_duplicates(),
            self.spec_items().to_set() == self@,
            self@.finite(),
            self@.len() == self.spec_items().len(),
    {
        self.spec_items().unique_seq_to_set();
    }

    /// The empty set.
    pub fn new() -> (set: TextSet)
        ensures
            set.wf(),
            set@ == Set::<Seq<char>>::empty(),
    {
        let set = TextSet { items: Vec::new() };
        assert(set@ =~= Set::<Seq<char>>::empty());
        set
    }

    /// The number of strings held.
    pub fn len(&self) -> (len: usize)
        ensures
            len == self.spec_items().len(),
            self.wf() ==> len == self@.len(),
    {
        proof {
            if self.wf() {
                self.lemma_items();
            }
        }
        self.items.len()
    }

    /// The string at a position, in insertion order.
    pub fn item(&self, i: usize) -> (text: &String)
        requires
            i < self.spec_items().len(),
        ensures
            text@ == self.spec_items()[i as int],
            self@.contains(text@),
    {
        assert(texts_view(self.items@)[i as int] == self.items@[i as int]@);
        &self.items[i]
    }

    /// Whether the string is a member.
    pub fn contains(&self, key: &str) -> (found: bool)
        ensures
            found == self@.contains(key@),
    {
        position(&self.items, key).is_some()
    }

    /// Puts a string in; says whether it was new.
    pub fn insert(&mut self, key: String) -> (fresh: bool)
        requires
            old(self).wf(),
        ensures
            final(self).wf(),
            final(self)@ == old(self)@.insert(key@),
            fresh == !old(self)@.contains(key@),
    {
        if position(&self.items, key.as_str()).is_some() {
            assert(self@ =~= old(self)@.insert(key@));
            false
        } else {
            let ghost before = texts_view(self.items@);
            self.items.push(key);
            assert(texts_view(self.items@) =~= before.push(key@));
            assert(self@ =~= old(self)@.insert(key@)) by {
                assert forall|x: Seq<char>| self@.contains(x) <==> old(self)@.insert(key@).contains(
                    x,
                ) by {
                    if before.push(key@).contains(x) {
                        let i = choose|i: int|
                            0 <= i < before.push(key@).len() && before.push(key@)[i] == x;
                        if i < before.len() {
                            assert(before[i] == x);
                        }
                    }
                    if before.contains(x) {
                        let i = choose|i: int| 0 <= i < before.len() && before[i] == x;
                        assert(before.push(key@)[i] == x);
                    }
                    if x == key@ {
                        assert(before.push(key@)[before.len() as int] == x);
                    }
                }
            }
            true
        }
    }

    /// Takes a string out; says whether it was there.
    pub fn remove(&mut self, key: &str) -> (found: bool)
        requires
            old(self).wf(),
        ensures
            final(self).wf(),
            final(self)@ == old(self)@.remove(key@),
            found == old(self)@.contains(key@),
    {
        match position(&self.items, key) {
            None => {
                assert(self@ =~= old(self)@.remove(key@));
                false
            },
            Some(at) => {
                let ghost before = texts_view(self.items@);
                self.items.remove(at);
                let ghost after = texts_view(self.items@);
                assert(after =~= before.remove(at as int));
                assert(after.no_duplicates()) by {
                    assert forall|i: int, j: int|
                        0 <= i < after.len() && 0 <= j < after.len() && i != j implies after[i]
                        != after[j] by {
                        let a = if i < at { i } else { i + 1 };
                        let b = if j < at { j } else { j + 1 };
                        assert(after[i] == before[a]);
                        assert(after[j] == before[b]);
                    }
                }
                assert(self@ =~= old(self)@.remove(key@)) by {
                    assert forall|x: Seq<char>| after.contains(x) <==> (before.contains(x) && x
                        != key@) by {
                        assert(before[at as int] == key@);
                        if after.contains(x) {
                            let i = choose|i: int| 0 <= i < after.len() && after[i] == x;
                            let a = if i < at { i } else { i + 1 };
                            assert(before[a] == x);
                            assert(a != at);
                        }
                        if before.contains(x) && x != key@ {
                            let a = choose|a: int| 0 <= a < before.len() && before[a] == x;
                            assert(a != at);
                            let i = if a < at { a } else { a - 1 };
                            assert(after[i] == x);
                        }
                    }
                }
                true
            },
        }
    }
}

/// A map from strings to values.
#[derive(Debug, Clone, PartialEq, Eq)]
pub struct TextMap<V> {
    keys: Vec<String>,
    values: Vec<V>,
}

impl<V> View for TextMap<V> {
    type V = Map<Seq<char>, V>;

    closed spec fn view(&self) -> Map<Seq<char>, V> {
        Map::new(
            |key: Seq<char>| texts_view(self.keys@).contains(key),
            |key: Seq<char>| self.values@[texts_view(self.keys@).index_of(key)],
        )
    }
}

impl<V> TextMap<V> {
    /// Every key has its value, and no key is held twice.
    pub closed spec fn wf(&self) -> bool {
        self.keys@.len() == self.values@.len() && texts_view(self.keys@).no_duplicates()
    }

    /// The keys in the order they were put in.
    pub closed spec fn spec_keys(&self) -> Seq<Seq<char>> {
        texts_view(self.keys@)
    }

    /// The values in the order of their keys.
    pub closed spec fn spec_values(&self) -> Seq<V> {
        self.values@
    }

    /// The keys and values held are the entries of the map, each once.
    pub proof fn lemma_entries(&self)
        requires
            self.wf(),
        ensures
            self.spec_keys().len() == self.spec_values().len(),
            self.spec_keys().no_duplicates(),
            self@.dom() == self.spec_keys().to_set(),
            forall|i: int|
                #![trigger self.spec_keys()[i]]
                #![trigger self.spec_values()[i]]
                0 <= i < self.spec_keys().len() ==> self@.contains_key(self.spec_keys()[i])
                    && self@[self.spec_keys()[i]] == self.spec_values()[i],
            forall|key: Seq<char>|
                self@.contains_key(key) ==> exists|i: int|
                    0 <= i < self.spec_keys().len() && #[trigger] self.spec_keys()[i] == key,
    {
        let keys = texts_view(self.keys@);
        assert(self@.dom() =~= keys.to_set());
        assert forall|i: int| 0 <= i < keys.len() implies self@.contains_key(keys[i]) && self@[keys[i]]
            == self.values@[i] by {
            assert(keys.contains(keys[i]));
            let j = keys.index_of(keys[i]);
            assert(keys[j] == keys[i]);
        }
    }

    /// The empty map.
    pub fn new() -> (map: TextMap<V>)
        ensures
            map.wf(),
            map@ == Map::<Seq<char>, V>::empty(),
            map.spec_keys().len() == 0,
    {
        let map = TextMap { keys: Vec::new(), values: Vec::new() };
        assert(map@ =~= Map::<Seq<char>, V>::empty());
        map
    }

    /// The number of entries.
    pub fn len(&self) -> (len: usize)
        ensures
            len == self.spec_keys().len(),
            self.wf() ==> len == self@.dom().len(),
    {
        proof {
            if self.wf() {
                self.lemma_entries();
                self.spec_keys().unique_seq_to_set();
            }
        }
        self.keys.len()
    }

    /// The key at a position, in insertion order.
    pub fn key(&self, i: usize) -> (key: &String)
        requires
            i < self.spec_keys().len(),
        ensures
            key@ == self.spec_keys()[i as int],
            self@.contains_key(key@),
    {
        assert(texts_view(self.keys@)[i as int] == self.keys@[i as int]@);
        assert(texts_view(self.keys@).contains(self.keys@[i as int]@));
        &self.keys[i]
    }

    /// The value at a position, in the order of the keys.
    pub fn value(&self, i: usize) -> (value: &V)
        requires
            self.wf(),
            i < self.spec_keys().len(),
        ensures
            *value == self.spec_values()[i as int],
            *value == self@[self.spec_keys()[i as int]],
    {
        proof {
            self.lemma_entries();
        }
        &self.values[i]
    }

    /// The position of a key, where it is held.
    pub fn find(&self, key: &str) -> (found: Option<usize>)
        requires
            self.wf(),
        ensures
            found is Some <==> self@.contains_key(key@),
            found matches Some(i) ==> i < self.spec_keys().len() && self.spec_keys()[i as int]
                == key@ && self@[key@] == self.spec_values()[i as int],
    {
        let found = position(&self.keys, key);
        proof {
            self.lemma_entries();
        }
        found
    }

    /// Whether the key is bound.
    pub fn contains_key(&self, key: &str) -> (found: bool)
        requires
            self.wf(),
        ensures
            found == self@.contains_key(key@),
    {
        self.find(key).is_some()
    }

    /// The value that the key is bound to.
    pub fn get(&self, key: &str) -> (value: Option<&V>)
        requires
            self.wf(),
        ensures
            value is Some <==> self@.contains_key(key@),
            value matches Some(v) ==> *v == self@[key@],
    {
        match self.find(key) {
            Some(i) => Some(&self.values[i]),
            None => None,
        }
    }

    /// Puts a value in the place of the one at a position, and hands the old
    /// one out.
    pub fn replace_value(&mut self, i: usize, value: V) -> (previous: V)
        requires
            old(self).wf(),
            i < old(self).spec_keys().len(),
        ensures
            final(self).wf(),
            final(self).spec_keys() == old(self).spec_keys(),
            final(self).spec_values() == old(self).spec_values().update(i as int, value),
            final(self)@ == old(self)@.insert(old(self).spec_keys()[i as int], value),
            previous == old(self).spec_values()[i as int],
    {
        self.values.push(value);
        let previous = self.values.swap_remove(i);
        assert(self.values@ =~= old(self).values@.update(i as int, value));
        proof {
            let keys = texts_view(self.keys@);
            let key = keys[i as int];
            assert(keys.contains(key));
            assert(self@ =~= old(self)@.insert(key, value)) by {
                assert forall|k: Seq<char>| keys.contains(k) implies self@[k] == old(self)@.insert(
                    key,
                    value,
                )[k] by {
                    let j = keys.index_of(k);
                    assert(keys[j] == k);
                }
            }
        }
        previous
    }

    /// Binds a key to a value, in the place of the value it had or as a new
    /// entry after the others.
    pub fn insert(&mut self, key: String, value: V)
        requires
            old(self).wf(),
        ensures
            final(self).wf(),
            final(self)@ == old(self)@.insert(key@, value),
            old(self)@.contains_key(key@) ==> final(self).spec_keys() == old(self).spec_keys(),
            !old(self)@.contains_key(key@) ==> final(self).spec_keys() == old(self).spec_keys().push(
                key@,
            ) && final(self).spec_values() == old(self).spec_values().push(value),
    {
        match self.find(key.as_str()) {
            Some(i) => {
                let _ = self.replace_value(i, value);
            },
            None => {
                let ghost before = texts_view(self.keys@);
                self.keys.push(key);
                self.values.push(value);
                let ghost after = texts_view(self.keys@);
                assert(after =~= before.push(key@));
                proof {
                    assert(self@ =~= old(self)@.insert(key@, value)) by {
                        assert forall|k: Seq<char>|
                            after.contains(k) <==> (before.contains(k) || k == key@) by {
                            if after.contains(k) {
                                let j = choose|j: int| 0 <= j < after.len() && after[j] == k;
                                if j < before.len() {
                                    assert(before[j] == k);
                                }
                            }
                            if before.contains(k) {
                                let j = choose|j: int| 0 <= j < before.len() && before[j] == k;
                                assert(after[j] == k);
                            }
                            if k == key@ {
                                assert(after[before.len() as int] == k);
                            }
                        }
                        assert forall|k: Seq<char>| after.contains(k) implies self@[k] == old(
                            self,
                        )@.insert(key@, value)[k] by {
                            let j = after.index_of(k);
                            assert(after[j] == k);
                            if k != key@ {
                                assert(j < before.len());
                                assert(before[j] == k);
                                let j0 = before.index_of(k);
                                assert(before.contains(k));
                                assert(before[j0] == k);
                                assert(after[j0] == k);
                            } else {
                                assert(after[before.len() as int] == k);
                            }
                        }
                    }
                }
            },
        }
    }
}

} // verus!
