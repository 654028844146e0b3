//! A small insertion-ordered table keyed by text.
//!
//! Both the memory store and the session registry keep one entry per
//! character identifier; this is the container they share.

use vstd::prelude::*;

verus! {

/// The mapping that a list of distinct keys and a list of values stand for:
/// each key maps to the value at the same position.
pub open spec fn table_map<V>(keys: Seq<Seq<char>>, values: Seq<V>) -> Map<Seq<char>, V> {
    Map::new(|k: Seq<char>| keys.contains(k), |k: Seq<char>| values[keys.index_of(k)])
}

/// In a list without duplicates, the position of an element is the only
/// position that holds it.
pub proof fn lemma_position_unique(keys: Seq<Seq<char>>, i: int)
    requires
        keys.no_duplicates(),
        0 <= i < keys.len(),
    ensures
        keys.contains(keys[i]),
        keys.index_of(keys[i]) == i,
{
    let j = keys.index_of(keys[i]);
    assert(0 <= j < keys.len() && keys[j] == keys[i]);
}

/// Appending a fresh key adds exactly that entry.
pub proof fn lemma_table_push<V>(keys: Seq<Seq<char>>, values: Seq<V>, key: Seq<char>, value: V)
    requires
        keys.no_duplicates(),
        keys.len() == values.len(),
        !keys.contains(key),
    ensures
        keys.push(key).no_duplicates(),
        table_map(keys.push(key), values.push(value)) == table_map(keys, values).insert(
            key,
            value,
        ),
{
    let keys2 = keys.push(key);
    let values2 = values.push(value);
    assert forall|i: int, j: int| 0 <= i < keys2.len() && 0 <= j < keys2.len() && i != j implies keys2[i]
        != keys2[j] by {
        if i < keys.len() {
            assert(keys.contains(keys[i]));
        }
        if j < keys.len() {
            assert(keys.contains(keys[j]));
        }
    }
    assert forall|k: Seq<char>| keys2.contains(k) <==> (k == key || keys.contains(k)) by {
        if keys2.contains(k) {
            let i = keys2.index_of(k);
            if i < keys.len() {
                assert(keys[i] == k);
            }
        }
        if k == key {
            assert(keys2[keys.len() as int] == k);
        }
        if keys.contains(k) {
            let i = keys.index_of(k);
            assert(keys2[i] == k);
        }
    }
    assert forall|k: Seq<char>| keys2.contains(k) implies #[trigger] table_map(keys2, values2)[k]
        == table_map(keys, values).insert(key, value)[k] by {
        if k == key {
            lemma_position_unique(keys2, keys.len() as int);
        } else {
            let i = keys.index_of(k);
            assert(keys2[i] == k);
            lemma_position_unique(keys2, i);
        }
    }
    assert(table_map(keys2, values2) =~= table_map(keys, values).insert(key, value));
}

/// Replacing the value at one position replaces the entry of that
/// position's key.
pub proof fn lemma_table_update<V>(keys: Seq<Seq<char>>, values: Seq<V>, i: int, value: V)
    requires
        keys.no_duplicates(),
        keys.len() == values.len(),
        0 <= i < keys.len(),
    ensures
        table_map(keys, values.update(i, value)) == table_map(keys, values).insert(keys[i], value),
{
    lemma_position_unique(keys, i);
    assert forall|k: Seq<char>| keys.contains(k) implies #[trigger] table_map(
        keys,
        values.update(i, value),
    )[k] == table_map(keys, values).insert(keys[i], value)[k] by {
        let j = keys.index_of(k);
        assert(keys[j] == k);
    }
    assert(table_map(keys, values.update(i, value)) =~= table_map(keys, values).insert(
        keys[i],
        value,
    ));
}

/// Deleting one position deletes the entry of that position's key and
/// nothing else.
pub proof fn lemma_table_remove<V>(keys: Seq<Seq<char>>, values: Seq<V>, i: int)
    requires
        keys.no_duplicates(),
        keys.len() == values.len(),
        0 <= i < keys.len(),
    ensures
        keys.remove(i).no_duplicates(),
        table_map(keys.remove(i), values.remove(i)) == table_map(keys, values).remove(keys[i]),
{
    let keys2 = keys.remove(i);
    let values2 = values.remove(i);
    assert forall|a: int| 0 <= a < keys2.len() implies #[trigger] keys2[a] == keys[if a < i {
        a
    } else {
        a + 1
    }] by {}
    assert(keys2.no_duplicates());
    assert forall|k: Seq<char>| keys2.contains(k) <==> (k != keys[i] && keys.contains(k)) by {
        if keys2.contains(k) {
            let a = keys2.index_of(k);
            assert(keys2[a] == k);
            let b = if a < i {
                a
            } else {
                a + 1
            };
            assert(keys[b] == k);
        }
        if k != keys[i] && keys.contains(k) {
            let b = keys.index_of(k);
            assert(keys[b] == k);
            let a = if b < i {
                b
            } else {
                b - 1
            };
            assert(keys2[a] == k);
        }
    }
    assert forall|k: Seq<char>| keys2.contains(k) implies #[trigger] table_map(keys2, values2)[k]
        == table_map(keys, values).remove(keys[i])[k] by {
        let a = keys2.index_of(k);
        assert(keys2[a] == k);
        let b = if a < i {
            a
        } else {
            a + 1
        };
        assert(keys[b] == k);
        lemma_position_unique(keys, b);
        assert(values2[a] == values[b]);
    }
    assert(table_map(keys2, values2) =~= table_map(keys, values).remove(keys[i]));
}

/// An insertion-ordered list of entries with pairwise distinct text keys.
pub struct Table<V> {
    keys: Vec<String>,
    values: Vec<V>,
}

impl<V> Table<V> {
    /// The keys, in insertion order.
    pub closed spec fn keys(&self) -> Seq<Seq<char>> {
        self.keys@.map_values(|s: String| s@)
    }

    /// The values, each at the position of its key.
    pub closed spec fn values(&self) -> Seq<V> {
        self.values@
    }

    /// Every key has one value, and no key occurs twice.
    pub open spec fn wf(&self) -> bool {
        self.keys().len() == self.values().len() && self.keys().no_duplicates()
    }

    /// The table as a mapping from key to value.
    pub open spec fn view(&self) -> Map<Seq<char>, V> {
        table_map(self.keys(), self.values())
    }

    /// A table without entries.
    pub fn new() -> (t: Self)
        ensures
            t.wf(),
            t.keys() == Seq::<Seq<char>>::empty(),
            t.values() == Seq::<V>::empty(),
            t@ == Map::<Seq<char>, V>::empty(),
    {
        let t = Table { keys: Vec::new(), values: Vec::new() };
        assert(t.keys() =~= Seq::<Seq<char>>::empty());
        assert(t@ =~= Map::<Seq<char>, V>::empty());
        t
    }

    /// The number of entries.
    pub fn len(&self) -> (n: usize)
        requires
            self.wf(),
        ensures
            n == self.keys().len(),
    {
        self.keys.len()
    }

    /// The position of `key`, if the table holds it.
    pub fn find(&self, key: &String) -> (slot: Option<usize>)
        requires
            self.wf(),
        ensures
            match slot {
                Some(i) => {
                    &&& i < self.keys().len()
                    &&& i < self.values().len()
                    &&& self.keys()[i as int] == key@
                    &&& self@.contains_key(key@)
                    &&& self@[key@] == self.values()[i as int]
                },
                None => !self@.contains_key(key@),
            },
    {
        let mut i: usize = 0;
        while i < self.keys.len()
            invariant
                self.wf(),
                i <= self.keys.len(),
                forall|j: int| 0 <= j < i ==> self.keys()[j] != key@,
            decreases self.keys.len() - i,
        {
            if self.keys[i] == *key {
                proof {
                    lemma_position_unique(self.keys(), i as int);
                }
                return Some(i);
            }
            i += 1;
        }
        proof {
            if self.keys().contains(key@) {
                let j = self.keys().index_of(key@);
                assert(self.keys()[j] == key@);
            }
        }
        None
    }

    /// The key at a position.
    pub fn key_at(&self, i: usize) -> (key: &String)
        requires
            self.wf(),
            i < self.keys().len(),
        ensures
            key@ == self.keys()[i as int],
    {
        &self.keys[i]
    }

    /// The value at a position.
    pub fn value_at(&self, i: usize) -> (value: &V)
        requires
            self.wf(),
            i < self.keys().len(),
        ensures
            *value == self.values()[i as int],
    {
        &self.values[i]
    }

    /// Adds an entry under a key that the table does not hold yet.
    pub fn insert_new(&mut self, key: String, value: V)
        requires
            old(self).wf(),
            !old(self)@.contains_key(key@),
        ensures
            final(self).wf(),
            final(self).keys() == old(self).keys().push(key@),
            final(self).values() == old(self).values().push(value),
            final(self)@ == old(self)@.insert(key@, value),
    {
        proof {
            lemma_table_push(self.keys(), self.values(), key@, value);
        }
        self.keys.push(key);
        self.values.push(value);
        assert(self.keys() =~= old(self).keys().push(key@));
    }

    /// Replaces the value at a position.
    pub fn replace(&mut self, i: usize, value: V)
        requires
            old(self).wf(),
            i < old(self).keys().len(),
        ensures
            final(self).wf(),
            final(self).keys() == old(self).keys(),
            final(self).values() == old(self).values().update(i as int, value),
            final(self)@ == old(self)@.insert(old(self).keys()[i as int], value),
    {
        proof {
            lemma_table_update(self.keys(), self.values(), i as int, value);
        }
        self.values[i] = value;
    }

    /// Deletes the entry at a position and returns its value; the entries
    /// behind it move up by one.
    pub fn remove_at(&mut self, i: usize) -> (value: V)
        requires
            old(self).wf(),
            i < old(self).keys().len(),
        ensures
            final(self).wf(),
            value == old(self).values()[i as int],
            final(self).keys() == old(self).keys().remove(i as int),
            final(self).values() == old(self).values().remove(i as int),
            final(self)@ == old(self)@.remove(old(self).keys()[i as int]),
    {
        proof {
            lemma_table_remove(self.keys(), self.values(), i as int);
        }
        let _ = self.keys.remove(i);
        let value = self.values.remove(i);
        assert(self.keys() =~= old(self).keys().remove(i as int));
        value
    }
}

} // verus!
