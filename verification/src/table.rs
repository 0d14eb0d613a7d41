use vstd::prelude::*;
use crate::models::FungibleTokenMetadata;
use crate::text::{copy_texts, same_text};

verus! {

/// The contents of a [`Table`]: keys and values side by side, in the order in
/// which the keys first came in.
pub struct TableView<T> {
    pub keys: Seq<Seq<char>>,
    pub values: Seq<T>,
}

impl<T> TableView<T> {
    /// Every key has its value, and no key stands twice.
    pub open spec fn wf(self) -> bool {
        &&& self.keys.len() == self.values.len()
        &&& self.keys.no_duplicates()
    }

    pub open spec fn empty() -> Self {
        TableView { keys: Seq::empty(), values: Seq::empty() }
    }

    pub open spec fn len(self) -> nat {
        self.keys.len()
    }

    pub open spec fn contains_key(self, key: Seq<char>) -> bool {
        self.keys.contains(key)
    }

    /// Where `key` stands, if the table holds it.
    pub open spec fn slot(self, key: Seq<char>) -> int {
        choose|i: int| 0 <= i < self.keys.len() && self.keys[i] == key
    }

    /// The value stored under `key`, if the table holds it.
    pub open spec fn value_of(self, key: Seq<char>) -> T {
        self.values[self.slot(key)]
    }

    /// The table after `value` is stored under `key`: in the key's place
    /// where the table holds it already, else at the end.
    pub open spec fn insert(self, key: Seq<char>, value: T) -> Self {
        if self.contains_key(key) {
            TableView { keys: self.keys, values: self.values.update(self.slot(key), value) }
        } else {
            TableView { keys: self.keys.push(key), values: self.values.push(value) }
        }
    }

    /// In a well-formed table each key has one place only.
    pub proof fn lemma_slot(self, i: int)
        requires
            self.wf(),
            0 <= i < self.keys.len(),
        ensures
            self.contains_key(self.keys[i]),
            self.slot(self.keys[i]) == i,
            self.value_of(self.keys[i]) == self.values[i],
    {
        let key = self.keys[i];
        let j = self.slot(key);
        assert(0 <= j < self.keys.len() && self.keys[j] == key);
    }

    /// Storing a value keeps the table well formed, makes its key present
    /// with that value, and leaves every other key as it was.
    pub proof fn lemma_insert(self, key: Seq<char>, value: T)
        requires
            self.wf(),
        ensures
            self.insert(key, value).wf(),
            self.insert(key, value).contains_key(key),
            self.insert(key, value).value_of(key) == value,
            forall|other: Seq<char>|
                other != key ==> (#[trigger] self.insert(key, value).contains_key(other)
                    == self.contains_key(other)),
            forall|other: Seq<char>|
                other != key && self.contains_key(other) ==> #[trigger] self.insert(
                    key,
                    value,
                ).value_of(other) == self.value_of(other),
    {
        let after = self.insert(key, value);
        if self.contains_key(key) {
            let i = self.slot(key);
            assert(0 <= i < self.keys.len() && self.keys[i] == key);
            assert(after.wf());
            after.lemma_slot(i);
            assert forall|other: Seq<char>| other != key && self.contains_key(other) implies (
            #[trigger] after.value_of(other)) == self.value_of(other) by {
                let j = self.slot(other);
                assert(0 <= j < self.keys.len() && self.keys[j] == other);
                after.lemma_slot(j);
            }
        } else {
            let n = self.keys.len() as int;
            assert(after.keys[n] == key);
            assert(after.keys.no_duplicates()) by {
                assert forall|a: int, b: int|
                    0 <= a < after.keys.len() && 0 <= b < after.keys.len() && a
                        != b implies after.keys[a] != after.keys[b] by {
                    if a == n {
                        assert(self.keys[b] == after.keys[b]);
                    } else if b == n {
                        assert(self.keys[a] == after.keys[a]);
                    } else {
                        assert(self.keys[a] == after.keys[a]);
                        assert(self.keys[b] == after.keys[b]);
                    }
                }
            }
            after.lemma_slot(n);
            assert forall|other: Seq<char>| other != key implies (#[trigger] after.contains_key(
                other,
            )) == self.contains_key(other) by {
                if after.contains_key(other) {
                    let j = choose|j: int| 0 <= j < after.keys.len() && after.keys[j] == other;
                    assert(j < n);
                    assert(self.keys[j] == other);
                }
                if self.contains_key(other) {
                    let j = choose|j: int| 0 <= j < self.keys.len() && self.keys[j] == other;
                    assert(after.keys[j] == other);
                }
            }
            assert forall|other: Seq<char>| other != key && self.contains_key(other) implies (
            #[trigger] after.value_of(other)) == self.value_of(other) by {
                let j = self.slot(other);
                assert(0 <= j < self.keys.len() && self.keys[j] == other);
                assert(after.keys[j] == other);
                after.lemma_slot(j);
            }
        }
    }

}

/// A collection of the cache: values stored under text keys, each key once.
///
/// The keys keep the order in which they first came in. The maps of the
/// standard library are not used here: what the verifier knows of them holds
/// only for keys whose ordering it knows, and it knows none for `String`.
pub struct Table<V> {
    keys: Vec<String>,
    values: Vec<V>,
}

impl<V: DeepView> View for Table<V> {
    type V = TableView<V::V>;

    closed spec fn view(&self) -> TableView<V::V> {
        TableView { keys: self.keys.deep_view(), values: self.values.deep_view() }
    }
}

impl<V: DeepView> Table<V> {
    /// A table without entries.
    pub fn new() -> (table: Self)
        ensures
            table@ == TableView::<V::V>::empty(),
            table@.wf(),
    {
        let table = Table { keys: Vec::new(), values: Vec::new() };
        assert(table@.keys =~= Seq::empty());
        assert(table@.values =~= Seq::empty());
        table
    }

    /// The number of keys.
    pub fn len(&self) -> (n: usize)
        ensures
            n == self@.keys.len(),
    {
        self.keys.len()
    }

    pub fn is_empty(&self) -> (empty: bool)
        ensures
            empty == (self@.keys.len() == 0),
    {
        self.keys.len() == 0
    }

    /// The keys, in the order in which they first came in.
    pub fn keys(&self) -> (keys: &Vec<String>)
        ensures
            keys.deep_view() == self@.keys,
    {
        &self.keys
    }

    /// The values, each at the place of its key.
    pub fn values(&self) -> (values: &Vec<V>)
        ensures
            values.deep_view() == self@.values,
    {
        &self.values
    }

    /// The place of `key`, if the table holds it.
    pub fn find(&self, key: &str) -> (place: Option<usize>)
        ensures
            match place {
                Some(i) => i < self@.keys.len() && self@.keys[i as int] == key@,
                None => !self@.contains_key(key@),
            },
    {
        let mut i: usize = 0;
        while i < self.keys.len()
            invariant
                i <= self.keys.len(),
                forall|j: int| 0 <= j < i ==> self@.keys[j] != key@,
            decreases self.keys.len() - i,
        {
            if same_text(self.keys[i].as_str(), key) {
                return Some(i);
            }
            i += 1;
        }
        None
    }

    /// Whether the table holds `key`.
    pub fn contains_key(&self, key: &str) -> (held: bool)
        ensures
            held == self@.contains_key(key@),
    {
        self.find(key).is_some()
    }

    /// The value stored under `key`.
    pub fn get(&self, key: &str) -> (value: Option<&V>)
        requires
            self@.wf(),
        ensures
            match value {
                Some(v) => self@.contains_key(key@) && v.deep_view() == self@.value_of(key@),
                None => !self@.contains_key(key@),
            },
    {
        match self.find(key) {
            Some(i) => {
                proof {
                    self@.lemma_slot(i as int);
                }
                Some(&self.values[i])
            },
            None => None,
        }
    }

    /// The key at place `i`, if there is one.
    pub fn key_at(&self, i: usize) -> (key: Option<&String>)
        ensures
            match key {
                Some(k) => i < self@.keys.len() && k@ == self@.keys[i as int],
                None => i >= self@.keys.len(),
            },
    {
        if i < self.keys.len() {
            Some(&self.keys[i])
        } else {
            None
        }
    }

    /// The value at place `i`, if there is one.
    pub fn value_at(&self, i: usize) -> (value: Option<&V>)
        ensures
            match value {
                Some(v) => i < self@.values.len() && v.deep_view() == self@.values[i as int],
                None => i >= self@.values.len(),
            },
    {
        if i < self.values.len() {
            Some(&self.values[i])
        } else {
            None
        }
    }

    /// Stores `value` under `key`, in place of what was stored there before.
    pub fn insert(&mut self, key: String, value: V)
        requires
            old(self)@.wf(),
        ensures
            final(self)@ == old(self)@.insert(key@, value.deep_view()),
            final(self)@.wf(),
    {
        proof {
            old(self)@.lemma_insert(key@, value.deep_view());
        }
        match self.find(key.as_str()) {
            Some(i) => {
                proof {
                    old(self)@.lemma_slot(i as int);
                }
                self.values[i] = value;
                assert(self@.keys =~= old(self)@.keys);
                assert(self@.values =~= old(self)@.values.update(i as int, value.deep_view()));
            },
            None => {
                self.keys.push(key);
                self.values.push(value);
                assert(self@.keys =~= old(self)@.keys.push(key@));
                assert(self@.values =~= old(self)@.values.push(value.deep_view()));
            },
        }
    }
}

impl Clone for Table<FungibleTokenMetadata> {
    fn clone(&self) -> (copy: Self)
        ensures
            copy@ == self@,
    {
        let mut values: Vec<FungibleTokenMetadata> = Vec::new();
        let mut i: usize = 0;
        while i < self.values.len()
            invariant
                i <= self.values.len(),
                values.len() == i,
                forall|j: int| 0 <= j < i ==> values[j]@ == self.values[j]@,
            decreases self.values.len() - i,
        {
            values.push(self.values[i].clone());
            i += 1;
        }
        let copy = Table { keys: copy_texts(&self.keys), values };
        assert(copy@.values =~= self@.values);
        copy
    }
}

} // verus!
