//! A table from text keys to values that remembers the order in which its
//! keys were first inserted.

use crate::seqs::{
    all_distinct, is_text, lemma_first_index, lemma_first_index_is, position_of, text_index,
};
use vstd::prelude::*;

verus! {

/// What a [`Keymap`] holds: its keys in insertion order, and the value of
/// each key at the same index.
#[verifier::ext_equal]
pub struct KeymapModel<T> {
    pub keys: Seq<Seq<char>>,
    pub values: Seq<T>,
}

impl<T> KeymapModel<T> {
    /// The table without entries.
    pub open spec fn empty() -> Self {
        KeymapModel { keys: Seq::empty(), values: Seq::empty() }
    }

    /// Every key has one value and occurs once.
    pub open spec fn wf(self) -> bool {
        &&& self.keys.len() == self.values.len()
        &&& self.keys.no_duplicates()
    }

    /// The number of entries.
    pub open spec fn len(self) -> nat {
        self.keys.len()
    }

    /// Where `key` stands, or the number of entries where it is not a key.
    pub open spec fn index_of(self, key: Seq<char>) -> int {
        text_index(self.keys, key)
    }

    /// Whether `key` has a value.
    pub open spec fn contains(self, key: Seq<char>) -> bool {
        self.index_of(key) < self.keys.len()
    }

    /// The value of `key`, if it has one.
    pub open spec fn get(self, key: Seq<char>) -> Option<T> {
        if self.contains(key) {
            Some(self.values[self.index_of(key)])
        } else {
            None
        }
    }

    /// The table after `key` is given `value`: a known key keeps its place,
    /// a new one goes to the end.
    pub open spec fn insert(self, key: Seq<char>, value: T) -> Self {
        if self.contains(key) {
            KeymapModel { keys: self.keys, values: self.values.update(self.index_of(key), value) }
        } else {
            KeymapModel { keys: self.keys.push(key), values: self.values.push(value) }
        }
    }

    /// A key is in the table exactly when it is among the keys.
    pub proof fn lemma_contains(self, key: Seq<char>)
        ensures
            self.contains(key) <==> self.keys.contains(key),
            self.contains(key) ==> 0 <= self.index_of(key) < self.keys.len() && self.keys[self.index_of(
                key,
            )] == key,
    {
        lemma_first_index(self.keys, is_text(key));
        if self.keys.contains(key) {
            let i = choose|i: int| 0 <= i < self.keys.len() && self.keys[i] == key;
            assert(is_text(key)(self.keys[i]));
        }
    }

    /// In a well-formed table each key stands where `index_of` says.
    pub proof fn lemma_index_of_key(self, i: int)
        requires
            self.wf(),
            0 <= i < self.keys.len(),
        ensures
            self.index_of(self.keys[i]) == i,
            self.get(self.keys[i]) == Some(self.values[i]),
    {
        let key = self.keys[i];
        assert forall|j: int| 0 <= j < i implies !is_text(key)(#[trigger] self.keys[j]) by {}
        lemma_first_index_is(self.keys, is_text(key), i);
    }

    /// Inserting keeps a table well-formed, sets the value of the key and
    /// leaves every other key as it was.
    pub proof fn lemma_insert(self, key: Seq<char>, value: T)
        requires
            self.wf(),
        ensures
            self.insert(key, value).wf(),
            self.insert(key, value).get(key) == Some(value),
            forall|other: Seq<char>|
                other != key ==> #[trigger] self.insert(key, value).get(other) == self.get(other),
            self.contains(key) ==> self.insert(key, value).len() == self.len(),
            !self.contains(key) ==> self.insert(key, value).len() == self.len() + 1,
    {
        let after = self.insert(key, value);
        self.lemma_contains(key);
        if self.contains(key) {
            assert(after.index_of(key) == self.index_of(key));
            assert forall|other: Seq<char>| other != key implies #[trigger] after.get(other)
                == self.get(other) by {
                self.lemma_contains(other);
                assert(after.index_of(other) == self.index_of(other));
            }
        } else {
            let n = self.keys.len() as int;
            assert forall|j: int| 0 <= j < n implies !is_text(key)(#[trigger] after.keys[j]) by {
                assert(after.keys[j] == self.keys[j]);
                assert(self.keys.contains(self.keys[j]));
            }
            lemma_first_index_is(after.keys, is_text(key), n);
            assert forall|other: Seq<char>| other != key implies #[trigger] after.get(other)
                == self.get(other) by {
                lemma_first_index(self.keys, is_text(other));
                let k = self.index_of(other);
                assert forall|j: int| 0 <= j < k implies !is_text(other)(#[trigger] after.keys[j]) by {
                    assert(after.keys[j] == self.keys[j]);
                }
                if k < n {
                    assert(after.keys[k] == self.keys[k]);
                    lemma_first_index_is(after.keys, is_text(other), k);
                } else {
                    assert(!is_text(other)(after.keys[n]));
                    assert forall|j: int| 0 <= j < n + 1 implies !is_text(other)(
                        #[trigger] after.keys[j],
                    ) by {
                        if j < n {
                            assert(after.keys[j] == self.keys[j]);
                        }
                    }
                    lemma_first_index_is(after.keys, is_text(other), n + 1);
                }
            }
        }
    }
}

/// A table from text keys to values, in the order in which the keys were
/// first inserted.
#[derive(Debug, PartialEq, Eq)]
pub struct Keymap<V> {
    /// The keys, in insertion order.
    pub keys: Vec<String>,
    /// The value of each key, at the key's index.
    pub values: Vec<V>,
}

impl<V: DeepView> View for Keymap<V> {
    type V = KeymapModel<V::V>;

    open spec fn view(&self) -> KeymapModel<V::V> {
        KeymapModel { keys: self.keys.deep_view(), values: self.values.deep_view() }
    }
}

impl<V: DeepView> DeepView for Keymap<V> {
    type V = KeymapModel<V::V>;

    open spec fn deep_view(&self) -> KeymapModel<V::V> {
        self@
    }
}

impl<V: DeepView> Keymap<V> {
    /// Every key has one value and occurs once.
    pub open spec fn wf(&self) -> bool {
        self@.wf()
    }

    /// A table without entries.
    pub fn new() -> (r: Self)
        ensures
            r@ == KeymapModel::<V::V>::empty(),
            r.wf(),
    {
        let r = Keymap { keys: Vec::new(), values: Vec::new() };
        assert(r@ =~= KeymapModel::<V::V>::empty());
        r
    }

    /// Whether every key has one value and occurs once.
    pub fn is_well_formed(&self) -> (b: bool)
        ensures
            b == self.wf(),
    {
        self.keys.len() == self.values.len() && all_distinct(&self.keys)
    }

    /// The number of entries.
    pub fn len(&self) -> (n: usize)
        ensures
            n == self@.len(),
    {
        self.keys.len()
    }

    /// Where `key` stands, if it has a value.
    pub fn position(&self, key: &String) -> (r: Option<usize>)
        ensures
            match r {
                Some(i) => self@.contains(key@) && i == self@.index_of(key@),
                None => !self@.contains(key@),
            },
    {
        position_of(&self.keys, key)
    }

    /// The value of `key`, if it has one.
    pub fn get(&self, key: &String) -> (r: Option<&V>)
        requires
            self.wf(),
        ensures
            r.deep_view() == self@.get(key@),
            match r {
                Some(v) => self@.contains(key@) && *v == self.values[self@.index_of(key@)],
                None => !self@.contains(key@),
            },
    {
        match position_of(&self.keys, key) {
            Some(i) => Some(&self.values[i]),
            None => None,
        }
    }

    /// Gives `key` the value `value`. A known key keeps its place; a new one
    /// goes to the end.
    pub fn insert(&mut self, key: String, value: V)
        requires
            old(self).wf(),
        ensures
            final(self).wf(),
            final(self)@ == old(self)@.insert(key@, value.deep_view()),
    {
        proof {
            self@.lemma_insert(key@, value.deep_view());
        }
        match position_of(&self.keys, &key) {
            Some(i) => {
                self.values.set(i, value);
                assert(self@ =~= old(self)@.insert(key@, value.deep_view()));
            },
            None => {
                self.keys.push(key);
                self.values.push(value);
                assert(self@ =~= old(self)@.insert(key@, value.deep_view()));
            },
        }
    }
}

} // verus!
