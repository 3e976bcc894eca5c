//! A small map from string keys to values, for the objects of a document.

use vstd::prelude::*;

verus! {

/// Whether one of `entries` has the key `key`.
pub open spec fn has_key<V>(entries: Seq<(String, V)>, key: Seq<char>) -> bool {
    exists|i: int| 0 <= i < entries.len() && (#[trigger] entries[i]).0@ == key
}

/// Whether `i` is the position of the first of `entries` that has the key
/// `key`.
pub open spec fn is_first<V>(entries: Seq<(String, V)>, key: Seq<char>, i: int) -> bool {
    &&& 0 <= i < entries.len()
    &&& entries[i].0@ == key
    &&& forall|j: int| 0 <= j < i ==> (#[trigger] entries[j]).0@ != key
}

/// The position of the first of `entries` that has the key `key`.
pub open spec fn first_index<V>(entries: Seq<(String, V)>, key: Seq<char>) -> int {
    choose|i: int| is_first(entries, key, i)
}

/// The keys of `entries`, in their order.
pub open spec fn keys_of<V>(entries: Seq<(String, V)>) -> Seq<Seq<char>> {
    Seq::new(entries.len(), |i: int| entries[i].0@)
}

/// The map that `entries` stand for: each key with the value of the first
/// entry that has it.
pub open spec fn entries_map<V>(entries: Seq<(String, V)>) -> Map<Seq<char>, V> {
    Map::new(
        |key: Seq<char>| has_key(entries, key),
        |key: Seq<char>| entries[first_index(entries, key)].1,
    )
}

/// A map from strings to values of type `V`.
///
/// The entries are kept in the order in which their keys first came. A lookup
/// goes by key, and finds the first entry that has it; [`ObjectMap::insert`]
/// never stores a key twice.
#[derive(Debug, Clone, PartialEq, Eq)]
pub struct ObjectMap<V> {
    /// The keys with their values.
    pub entries: Vec<(String, V)>,
}

impl<V> View for ObjectMap<V> {
    type V = Map<Seq<char>, V>;

    open spec fn view(&self) -> Map<Seq<char>, V> {
        entries_map(self.entries@)
    }
}

/// A position that holds `key` is at or after the first that does; there is
/// just one first position.
pub proof fn lemma_first_index<V>(entries: Seq<(String, V)>, key: Seq<char>, i: int)
    requires
        0 <= i < entries.len(),
        entries[i].0@ == key,
    ensures
        has_key(entries, key),
        is_first(entries, key, first_index(entries, key)),
        first_index(entries, key) <= i,
        is_first(entries, key, i) ==> first_index(entries, key) == i,
    decreases i,
{
    if exists|j: int| 0 <= j < i && (#[trigger] entries[j]).0@ == key {
        let j = choose|j: int| 0 <= j < i && (#[trigger] entries[j]).0@ == key;
        lemma_first_index(entries, key, j);
    } else {
        assert(is_first(entries, key, i));
    }
    let f = first_index(entries, key);
    if is_first(entries, key, i) && f != i {
        if f < i {
            assert(entries[f].0@ == key);
        } else {
            assert(entries[i].0@ == key);
        }
    }
}

/// The keys of a row of entries with one more entry are those of the row, and
/// the key of that entry.
pub proof fn lemma_has_key_push<V>(entries: Seq<(String, V)>, entry: (String, V))
    ensures
        forall|k: Seq<char>|
            has_key(entries.push(entry), k) == (has_key(entries, k) || k == entry.0@),
{
    let after = entries.push(entry);
    let last = entries.len() as int;
    assert(after[last].0@ == entry.0@);
    assert forall|k: Seq<char>| has_key(after, k) == (has_key(entries, k) || k == entry.0@) by {
        if has_key(entries, k) {
            let j = choose|j: int| 0 <= j < entries.len() && (#[trigger] entries[j]).0@ == k;
            assert(after[j].0@ == k);
        }
        if has_key(after, k) {
            let j = choose|j: int| 0 <= j < after.len() && (#[trigger] after[j]).0@ == k;
            if j < last {
                assert(entries[j].0@ == k);
            }
        }
    }
}

/// A key that occurs has a first position.
pub proof fn lemma_has_first<V>(entries: Seq<(String, V)>, key: Seq<char>)
    requires
        has_key(entries, key),
    ensures
        is_first(entries, key, first_index(entries, key)),
{
    let i = choose|i: int| 0 <= i < entries.len() && (#[trigger] entries[i]).0@ == key;
    lemma_first_index(entries, key, i);
}

impl<V> ObjectMap<V> {
    /// No key is stored twice.
    pub open spec fn wf(&self) -> bool {
        forall|i: int, j: int|
            0 <= i < j < self.entries@.len() ==> (#[trigger] self.entries@[i]).0@ != (
            #[trigger] self.entries@[j]).0@
    }

    /// The empty map.
    pub fn new() -> (map: Self)
        ensures
            map.wf(),
            map.entries@.len() == 0,
            map@ == Map::<Seq<char>, V>::empty(),
    {
        let map = ObjectMap { entries: Vec::new() };
        assert(map@ =~= Map::<Seq<char>, V>::empty());
        map
    }

    /// The number of entries.
    pub fn len(&self) -> (len: usize)
        ensures
            len == self.entries@.len(),
    {
        self.entries.len()
    }

    /// The position of the first entry with the key `key`, if there is one.
    pub fn position(&self, key: &str) -> (found: Option<usize>)
        ensures
            found is Some <==> self@.contains_key(key@),
            found matches Some(i) ==> is_first(self.entries@, key@, i as int),
    {
        let wanted = key.to_owned();
        let mut i: usize = 0;
        while i < self.entries.len()
            invariant
                i <= self.entries@.len(),
                wanted@ == key@,
                forall|j: int| 0 <= j < i ==> (#[trigger] self.entries@[j]).0@ != key@,
            decreases self.entries@.len() - i,
        {
            if self.entries[i].0 == wanted {
                proof {
                    lemma_first_index(self.entries@, key@, i as int);
                }
                return Some(i);
            }
            i += 1;
        }
        None
    }

    /// The value stored under `key`, if there is one.
    pub fn get(&self, key: &str) -> (found: Option<&V>)
        ensures
            found is Some <==> self@.contains_key(key@),
            found matches Some(value) ==> *value == self@[key@],
    {
        match self.position(key) {
            Some(i) => {
                proof {
                    lemma_first_index(self.entries@, key@, i as int);
                }
                Some(&self.entries[i].1)
            },
            None => None,
        }
    }

    /// Whether a value is stored under `key`.
    pub fn contains_key(&self, key: &str) -> (found: bool)
        ensures
            found == self@.contains_key(key@),
    {
        self.position(key).is_some()
    }

    /// Stores `value` under `key`, in place of the value that was stored under
    /// it before, if there was one.
    pub fn insert(&mut self, key: String, value: V)
        ensures
            final(self)@ == old(self)@.insert(key@, value),
            old(self).wf() ==> final(self).wf(),
            final(self).entries@ == if old(self)@.contains_key(key@) {
                old(self).entries@.update(first_index(old(self).entries@, key@), (key, value))
            } else {
                old(self).entries@.push((key, value))
            },
            keys_of(final(self).entries@) == if old(self)@.contains_key(key@) {
                keys_of(old(self).entries@)
            } else {
                keys_of(old(self).entries@).push(key@)
            },
    {
        let found = self.position(key.as_str());
        let ghost before = self.entries@;
        match found {
            Some(i) => {
                proof {
                    lemma_replace_first(self.entries@, i as int, (key, value));
                    lemma_first_index(self.entries@, key@, i as int);
                }
                self.entries[i] = (key, value);
                proof {
                    assert(self.entries@ =~= before.update(i as int, (key, value)));
                    assert(keys_of(self.entries@) =~= keys_of(before));
                }
            },
            None => {
                proof {
                    lemma_push_new_key(self.entries@, (key, value));
                }
                self.entries.push((key, value));
                proof {
                    assert(keys_of(self.entries@) =~= keys_of(before).push(key@));
                }
            },
        }
    }
}

/// Replacing the first entry of a key by another entry with that key changes
/// the value under that key, and nothing else.
pub proof fn lemma_replace_first<V>(entries: Seq<(String, V)>, i: int, entry: (String, V))
    requires
        is_first(entries, entry.0@, i),
    ensures
        entries_map(entries.update(i, entry)) == entries_map(entries).insert(entry.0@, entry.1),
        forall|k: Seq<char>| has_key(entries.update(i, entry), k) == has_key(entries, k),
{
    let after = entries.update(i, entry);
    let key = entry.0@;
    assert forall|k: Seq<char>| has_key(after, k) == has_key(entries, k) by {
        if has_key(entries, k) {
            let j = choose|j: int| 0 <= j < entries.len() && (#[trigger] entries[j]).0@ == k;
            assert(after[j].0@ == k);
        }
        if has_key(after, k) {
            let j = choose|j: int| 0 <= j < after.len() && (#[trigger] after[j]).0@ == k;
            assert(entries[j].0@ == k);
        }
    }
    assert forall|k: Seq<char>| has_key(entries, k) implies first_index(after, k) == first_index(
        entries,
        k,
    ) by {
        let j = choose|j: int| 0 <= j < entries.len() && (#[trigger] entries[j]).0@ == k;
        lemma_first_index(entries, k, j);
        let f = first_index(entries, k);
        assert(after[f].0@ == k);
        assert forall|m: int| 0 <= m < f implies (#[trigger] after[m]).0@ != k by {
            assert(entries[m].0@ != k);
        }
        lemma_first_index(after, k, f);
    }
    lemma_first_index(entries, key, i);
    let left = entries_map(after);
    let right = entries_map(entries).insert(key, entry.1);
    assert forall|k: Seq<char>| left.contains_key(k) == right.contains_key(k) by {
        assert(entries[i].0@ == key);
    }
    assert forall|k: Seq<char>| left.contains_key(k) implies left[k] == right[k] by {
        lemma_has_first(entries, k);
        if k == key {
            assert(first_index(after, k) == i);
        } else {
            assert(first_index(after, k) != i);
        }
    }
    assert(left =~= right);
}

/// Adding an entry whose key is not there yet adds that key with its value,
/// and changes nothing else.
pub proof fn lemma_push_new_key<V>(entries: Seq<(String, V)>, entry: (String, V))
    requires
        !has_key(entries, entry.0@),
    ensures
        entries_map(entries.push(entry)) == entries_map(entries).insert(entry.0@, entry.1),
        forall|k: Seq<char>|
            has_key(entries.push(entry), k) == (has_key(entries, k) || k == entry.0@),
{
    let after = entries.push(entry);
    let key = entry.0@;
    let last = entries.len() as int;
    lemma_has_key_push(entries, entry);
    assert forall|k: Seq<char>| has_key(entries, k) implies first_index(after, k) == first_index(
        entries,
        k,
    ) by {
        let j = choose|j: int| 0 <= j < entries.len() && (#[trigger] entries[j]).0@ == k;
        lemma_first_index(entries, k, j);
        let f = first_index(entries, k);
        assert(after[f].0@ == k);
        assert forall|m: int| 0 <= m < f implies (#[trigger] after[m]).0@ != k by {
            assert(entries[m].0@ != k);
        }
        lemma_first_index(after, k, f);
    }
    assert forall|m: int| 0 <= m < last implies (#[trigger] after[m]).0@ != key by {
        assert(entries[m].0@ == after[m].0@);
    }
    lemma_first_index(after, key, last);
    let left = entries_map(after);
    let right = entries_map(entries).insert(key, entry.1);
    assert forall|k: Seq<char>| left.contains_key(k) implies left[k] == right[k] by {
        if k == key {
            assert(first_index(after, k) == last);
        } else {
            lemma_has_first(entries, k);
            assert(first_index(after, k) == first_index(entries, k));
        }
    }
    assert(left =~= right);
}

} // verus!
