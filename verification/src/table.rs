//! The values an oracle keeps, each under its key.

use vstd::prelude::*;
use crate::address::Address;
use crate::data_key::DataKey;

verus! {

/// What a table can be keyed by: values that can be told apart.
pub trait Key: Copy {
    /// Whether `self` and `other` are the same key.
    fn same(&self, other: &Self) -> (r: bool)
        ensures
            r == (*self == *other),
    ;
}

impl Key for DataKey {
    fn same(&self, other: &Self) -> (r: bool) {
        *self == *other
    }
}

impl Key for Address {
    fn same(&self, other: &Self) -> (r: bool) {
        *self == *other
    }
}

/// One stored value.
#[derive(Clone, Copy, Debug)]
pub struct Entry<K, V> {
    pub key: K,
    pub value: V,
}

/// A finite map from keys to values. Writing under a key that holds a value
/// replaces it; nothing is ever removed.
#[derive(Debug)]
pub struct Table<K: Key, V: Copy> {
    entries: Vec<Entry<K, V>>,
}

/// `i` is the place of the last entry of `entries` filed under `key`.
pub open spec fn is_place<K, V>(entries: Seq<Entry<K, V>>, key: K, i: int) -> bool {
    &&& 0 <= i < entries.len()
    &&& entries[i].key == key
    &&& forall|j: int| i < j < entries.len() ==> (#[trigger] entries[j]).key != key
}

/// Some entry of `entries` is filed under `key`.
pub open spec fn holds<K, V>(entries: Seq<Entry<K, V>>, key: K) -> bool {
    exists|i: int| is_place(entries, key, i)
}

/// The place of the last entry filed under `key`, where there is one.
pub open spec fn place<K, V>(entries: Seq<Entry<K, V>>, key: K) -> int {
    choose|i: int| is_place(entries, key, i)
}

/// The map that a sequence of entries stands for: under each key, the value
/// of the last entry filed under it.
pub open spec fn entries_map<K, V>(entries: Seq<Entry<K, V>>) -> Map<K, V> {
    Map::new(|key: K| holds(entries, key), |key: K| entries[place(entries, key)].value)
}

/// A key has one last place, and the map gives the value found there.
proof fn lemma_place<K, V>(entries: Seq<Entry<K, V>>, key: K, i: int)
    requires
        is_place(entries, key, i),
    ensures
        holds(entries, key),
        place(entries, key) == i,
        entries_map(entries).contains_key(key),
        entries_map(entries)[key] == entries[i].value,
{
    let j = place(entries, key);
    assert(is_place(entries, key, j));
    if j < i {
        assert(entries[i].key != key);
    } else if i < j {
        assert(entries[j].key != key);
    }
}

impl<K: Key, V: Copy> View for Table<K, V> {
    type V = Map<K, V>;

    closed spec fn view(&self) -> Map<K, V> {
        entries_map(self.entries@)
    }
}

impl<K: Key, V: Copy> Table<K, V> {
    /// The table that holds nothing.
    pub fn new() -> (t: Table<K, V>)
        ensures
            t@ == Map::<K, V>::empty(),
    {
        let t = Table { entries: Vec::new() };
        assert(t@ =~= Map::<K, V>::empty());
        t
    }

    /// The last place filed under `key`, or the number of entries where there
    /// is none.
    fn find(&self, key: K) -> (i: usize)
        ensures
            i <= self.entries@.len(),
            i < self.entries@.len() ==> is_place(self.entries@, key, i as int),
            i == self.entries@.len() ==> !holds(self.entries@, key),
    {
        let n = self.entries.len();
        let mut i: usize = n;
        while i > 0
            invariant
                i <= n,
                n == self.entries@.len(),
                forall|j: int| i <= j < n ==> (#[trigger] self.entries@[j]).key != key,
            decreases i,
        {
            i = i - 1;
            if self.entries[i].key.same(&key) {
                return i;
            }
        }
        assert(!holds(self.entries@, key)) by {
            if holds(self.entries@, key) {
                let j = place(self.entries@, key);
                assert(is_place(self.entries@, key, j));
                assert(self.entries@[j].key != key);
            }
        }
        n
    }

    /// Whether a value is held under `key`.
    pub fn has(&self, key: K) -> (r: bool)
        ensures
            r == self@.contains_key(key),
    {
        let i = self.find(key);
        i < self.entries.len()
    }

    /// The value held under `key`.
    pub fn get(&self, key: K) -> (r: Option<V>)
        ensures
            r == if self@.contains_key(key) {
                Some(self@[key])
            } else {
                None
            },
    {
        let i = self.find(key);
        if i < self.entries.len() {
            proof {
                lemma_place(self.entries@, key, i as int);
            }
            Some(self.entries[i].value)
        } else {
            None
        }
    }

    /// Files `value` under `key`, in place of what was held there.
    pub fn set(&mut self, key: K, value: V)
        ensures
            final(self)@ == old(self)@.insert(key, value),
    {
        let i = self.find(key);
        let ghost before = self.entries@;
        let ghost at: int = i as int;
        if i < self.entries.len() {
            self.entries.set(i, Entry { key, value });
        } else {
            self.entries.push(Entry { key, value });
        }
        proof {
            let after = self.entries@;
            assert(is_place(after, key, at));
            lemma_place(after, key, at);
            assert forall|k: K, j: int| k != key implies is_place(after, k, j) == is_place(
                before,
                k,
                j,
            ) by {
                if is_place(before, k, j) {
                    assert(after[j] == before[j]);
                    assert forall|m: int| j < m < after.len() implies (#[trigger] after[m]).key
                        != k by {
                        if m < before.len() && m != at {
                            assert(after[m] == before[m]);
                        }
                    }
                }
                if is_place(after, k, j) {
                    assert(j != at);
                    assert(after[j] == before[j]);
                    assert forall|m: int| j < m < before.len() implies (#[trigger] before[m]).key
                        != k by {
                        if m != at {
                            assert(after[m] == before[m]);
                        }
                    }
                }
            }
            assert forall|k: K| k != key implies holds(after, k) == holds(before, k) by {
                if holds(before, k) {
                    assert(is_place(after, k, place(before, k)));
                }
                if holds(after, k) {
                    assert(is_place(before, k, place(after, k)));
                }
            }
            assert forall|k: K| k != key && holds(after, k) implies #[trigger] entries_map(
                after,
            )[k] == entries_map(before)[k] by {
                let j = place(after, k);
                assert(is_place(before, k, j));
                lemma_place(before, k, j);
                assert(after[j] == before[j]);
            }
            assert(entries_map(after) =~= entries_map(before).insert(key, value));
        }
    }
}

} // verus!
