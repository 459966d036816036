//! A map kept as a list of entries with different keys.

use vstd::prelude::*;

verus! {

/// Keys of a map. Two keys name the same entry iff their views are equal.
pub trait MapKey: View + Sized {
    /// Whether both keys name the same entry.
    fn same_key(&self, other: &Self) -> (same: bool)
        ensures
            same == (self@ == other@),
    ;
}

impl MapKey for i32 {
    fn same_key(&self, other: &Self) -> (same: bool) {
        *self == *other
    }
}

/// A map from keys to values.
pub struct KeyedList<K, V> {
    entries: Vec<(K, V)>,
}

/// What a list of entries maps its keys to.
spec fn list_map<K: View, V>(entries: Seq<(K, V)>) -> Map<K::V, V>
    decreases entries.len(),
{
    if entries.len() == 0 {
        Map::empty()
    } else {
        list_map(entries.drop_last()).insert(entries.last().0@, entries.last().1)
    }
}

/// No two entries have the same key.
spec fn keys_differ<K: View, V>(entries: Seq<(K, V)>) -> bool {
    forall|i: int, j: int|
        0 <= i < j < entries.len() ==> #[trigger] entries[i].0@ != #[trigger] entries[j].0@
}

/// An entry of the list is an entry of the map, and the other way round.
proof fn lemma_list_map<K: View, V>(entries: Seq<(K, V)>)
    requires
        keys_differ(entries),
    ensures
        forall|i: int|
            0 <= i < entries.len() ==> list_map(entries).contains_pair(
                (#[trigger] entries[i]).0@,
                entries[i].1,
            ),
        forall|id: K::V| #[trigger]
            list_map(entries).contains_key(id) ==> exists|i: int|
                0 <= i < entries.len() && #[trigger] entries[i].0@ == id,
        list_map(entries).dom().finite(),
        list_map(entries).dom().len() == entries.len(),
    decreases entries.len(),
{
    if entries.len() > 0 {
        let rest = entries.drop_last();
        let last = entries.last();
        assert(keys_differ(rest)) by {
            assert forall|i: int, j: int| 0 <= i < j < rest.len() implies #[trigger] rest[i].0@
                != #[trigger] rest[j].0@ by {
                assert(entries[i].0@ != entries[j].0@);
            }
        }
        lemma_list_map(rest);
        assert(!list_map(rest).contains_key(last.0@)) by {
            if list_map(rest).contains_key(last.0@) {
                let i = choose|i: int| 0 <= i < rest.len() && #[trigger] rest[i].0@ == last.0@;
                assert(entries[i].0@ != entries[entries.len() - 1].0@);
            }
        }
        assert forall|i: int| 0 <= i < entries.len() implies list_map(entries).contains_pair(
            (#[trigger] entries[i]).0@,
            entries[i].1,
        ) by {
            if i < rest.len() {
                assert(rest[i] == entries[i]);
                assert(list_map(rest).contains_key(rest[i].0@));
            }
        }
        assert forall|id: K::V| #[trigger] list_map(entries).contains_key(id) implies exists|i: int|
            0 <= i < entries.len() && #[trigger] entries[i].0@ == id by {
            if id == last.0@ {
                assert(entries[entries.len() - 1].0@ == id);
            } else {
                assert(list_map(rest).contains_key(id));
                let i = choose|i: int| 0 <= i < rest.len() && #[trigger] rest[i].0@ == id;
                assert(entries[i].0@ == id);
            }
        }
        assert(list_map(entries).dom() =~= list_map(rest).dom().insert(last.0@));
    } else {
        assert(list_map(entries).dom() =~= Set::empty());
    }
}

/// A map with exactly the entries of a list is the map of that list.
proof fn lemma_is_list_map<K: View, V>(entries: Seq<(K, V)>, map: Map<K::V, V>)
    requires
        keys_differ(entries),
        forall|i: int|
            0 <= i < entries.len() ==> map.contains_pair(
                (#[trigger] entries[i]).0@,
                entries[i].1,
            ),
        forall|id: K::V| #[trigger]
            map.contains_key(id) ==> exists|i: int|
                0 <= i < entries.len() && #[trigger] entries[i].0@ == id,
    ensures
        list_map(entries) == map,
{
    lemma_list_map(entries);
    let own = list_map(entries);
    assert forall|id: K::V| #[trigger] own.contains_key(id) == map.contains_key(id) by {
        if own.contains_key(id) {
            let i = choose|i: int| 0 <= i < entries.len() && #[trigger] entries[i].0@ == id;
            assert(map.contains_pair(entries[i].0@, entries[i].1));
        }
        if map.contains_key(id) {
            let i = choose|i: int| 0 <= i < entries.len() && #[trigger] entries[i].0@ == id;
            assert(own.contains_pair(entries[i].0@, entries[i].1));
        }
    }
    assert forall|id: K::V| #[trigger] own.contains_key(id) implies own[id] == map[id] by {
        let i = choose|i: int| 0 <= i < entries.len() && #[trigger] entries[i].0@ == id;
        assert(own.contains_pair(entries[i].0@, entries[i].1));
        assert(map.contains_pair(entries[i].0@, entries[i].1));
    }
    assert(own =~= map);
}

/// Putting another value into an entry changes that entry of the map.
proof fn lemma_value_replaced<K: View, V>(before: Seq<(K, V)>, index: int, value: V)
    requires
        keys_differ(before),
        0 <= index < before.len(),
    ensures
        keys_differ(before.update(index, (before[index].0, value))),
        list_map(before.update(index, (before[index].0, value))) == list_map(before).insert(
            before[index].0@,
            value,
        ),
{
    let after = before.update(index, (before[index].0, value));
    let map = list_map(before).insert(before[index].0@, value);
    lemma_list_map(before);
    assert forall|i: int| 0 <= i < after.len() implies #[trigger] after[i].0@ == before[i].0@ by {}
    assert(keys_differ(after)) by {
        assert forall|i: int, j: int| 0 <= i < j < after.len() implies #[trigger] after[i].0@
            != #[trigger] after[j].0@ by {
            assert(before[i].0@ != before[j].0@);
        }
    }
    assert forall|i: int| 0 <= i < after.len() implies map.contains_pair(
        (#[trigger] after[i]).0@,
        after[i].1,
    ) by {
        if i < index {
            assert(before[i].0@ != before[index].0@);
        } else if i > index {
            assert(before[index].0@ != before[i].0@);
        }
        assert(list_map(before).contains_pair(before[i].0@, before[i].1));
    }
    assert forall|id: K::V| #[trigger] map.contains_key(id) implies exists|i: int|
        0 <= i < after.len() && #[trigger] after[i].0@ == id by {
        if id == before[index].0@ {
            assert(after[index].0@ == id);
        } else {
            assert(list_map(before).contains_key(id));
            let i = choose|i: int| 0 <= i < before.len() && #[trigger] before[i].0@ == id;
            assert(after[i].0@ == id);
        }
    }
    lemma_is_list_map(after, map);
}

impl<K: MapKey, V> View for KeyedList<K, V> {
    type V = Map<K::V, V>;

    closed spec fn view(&self) -> Map<K::V, V> {
        list_map(self.entries@)
    }
}

impl<K: MapKey, V> KeyedList<K, V> {
    /// No key occurs twice.
    pub closed spec fn wf(&self) -> bool {
        keys_differ(self.entries@)
    }

    /// The number of entries, which the list keeps in some order.
    pub closed spec fn count(&self) -> nat {
        self.entries@.len()
    }

    /// The key of the entry at `index`.
    pub closed spec fn key_at(&self, index: int) -> K::V {
        self.entries@[index].0@
    }

    /// Every key stands somewhere in the list, and what stands there is a key.
    pub proof fn lemma_wf(&self)
        requires
            self.wf(),
        ensures
            self@.dom().finite(),
            self@.dom().len() == self.count(),
            forall|i: int| 0 <= i < self.count() ==> self@.contains_key(#[trigger] self.key_at(i)),
            forall|id: K::V| #[trigger]
                self@.contains_key(id) ==> exists|i: int|
                    0 <= i < self.count() && #[trigger] self.key_at(i) == id,
    {
        lemma_list_map(self.entries@);
        assert forall|i: int| 0 <= i < self.count() implies self@.contains_key(
            #[trigger] self.key_at(i),
        ) by {
            assert(self@.contains_pair(self.entries@[i].0@, self.entries@[i].1));
        }
        assert forall|id: K::V| #[trigger] self@.contains_key(id) implies exists|i: int|
            0 <= i < self.count() && #[trigger] self.key_at(i) == id by {
            let i = choose|i: int|
                0 <= i < self.entries@.len() && #[trigger] self.entries@[i].0@ == id;
            assert(self.key_at(i) == id);
        }
    }

    /// A map without entries.
    pub fn new() -> (list: Self)
        ensures
            list.wf(),
            list@ == Map::<K::V, V>::empty(),
            list.count() == 0,
    {
        KeyedList { entries: Vec::new() }
    }

    /// The number of entries.
    pub fn len(&self) -> (len: usize)
        requires
            self.wf(),
        ensures
            len == self@.dom().len(),
            len == self.count(),
    {
        proof {
            lemma_list_map(self.entries@);
        }
        self.entries.len()
    }

    /// Where the entry of `key` stands.
    pub fn position(&self, key: &K) -> (position: Option<usize>)
        requires
            self.wf(),
        ensures
            match position {
                Some(index) => index < self.count() && self.key_at(index as int) == key@
                    && self@.contains_key(key@),
                None => !self@.contains_key(key@),
            },
    {
        proof {
            self.lemma_wf();
        }
        let mut index: usize = 0;
        while index < self.entries.len()
            invariant
                index <= self.entries@.len(),
                forall|i: int| 0 <= i < index ==> #[trigger] self.key_at(i) != key@,
                forall|i: int|
                    0 <= i < self.count() ==> self@.contains_key(#[trigger] self.key_at(i)),
            decreases self.entries.len() - index,
        {
            assert(self@.contains_key(self.key_at(index as int)));
            if self.entries[index].0.same_key(key) {
                return Some(index);
            }
            index = index + 1;
        }
        None
    }

    /// Whether `key` has an entry.
    pub fn contains_key(&self, key: &K) -> (contains: bool)
        requires
            self.wf(),
        ensures
            contains == self@.contains_key(key@),
    {
        self.position(key).is_some()
    }

    /// The value of the entry at `index`.
    pub fn value_at(&self, index: usize) -> (value: &V)
        requires
            self.wf(),
            index < self.count(),
        ensures
            *value == self@[self.key_at(index as int)],
    {
        proof {
            lemma_list_map(self.entries@);
        }
        let value = &self.entries[index].1;
        assert(self@.contains_pair(self.entries@[index as int].0@, *value));
        value
    }

    /// The value of `key`.
    pub fn get(&self, key: &K) -> (value: Option<&V>)
        requires
            self.wf(),
        ensures
            match value {
                Some(value) => self@.contains_pair(key@, *value),
                None => !self@.contains_key(key@),
            },
    {
        match self.position(key) {
            Some(index) => Some(self.value_at(index)),
            None => None,
        }
    }

    /// The value of the entry at `index`, to be changed in place.
    pub fn value_at_mut(&mut self, index: usize) -> (value: &mut V)
        requires
            old(self).wf(),
            index < old(self).count(),
        ensures
            *value == old(self)@[old(self).key_at(index as int)],
            final(self).wf(),
            final(self).count() == old(self).count(),
            forall|i: int|
                0 <= i < old(self).count() ==> #[trigger] final(self).key_at(i) == old(
                    self,
                ).key_at(i),
            final(self)@ == old(self)@.insert(old(self).key_at(index as int), *final(value)),
    {
        proof {
            lemma_list_map(self.entries@);
            assert(self@.contains_pair(
                self.entries@[index as int].0@,
                self.entries@[index as int].1,
            ));
            assert forall|value: V| {
                &&& keys_differ(
                    #[trigger] self.entries@.update(
                        index as int,
                        (self.entries@[index as int].0, value),
                    ),
                )
                &&& list_map(
                    self.entries@.update(index as int, (self.entries@[index as int].0, value)),
                ) == self@.insert(self.entries@[index as int].0@, value)
            } by {
                lemma_value_replaced(self.entries@, index as int, value);
            }
        }
        let entry = &mut self.entries[index];
        &mut entry.1
    }

    /// Gives `key` a value.
    pub fn insert(&mut self, key: K, value: V)
        requires
            old(self).wf(),
        ensures
            final(self).wf(),
            final(self)@ == old(self)@.insert(key@, value),
    {
        match self.position(&key) {
            Some(index) => {
                let slot = self.value_at_mut(index);
                *slot = value;
            },
            None => {
                let ghost before = self.entries@;
                proof {
                    lemma_list_map(before);
                }
                self.entries.push((key, value));
                proof {
                    let after = self.entries@;
                    assert(after.drop_last() =~= before);
                    assert(keys_differ(after)) by {
                        assert forall|i: int, j: int|
                            0 <= i < j < after.len() implies #[trigger] after[i].0@
                            != #[trigger] after[j].0@ by {
                            assert(before[i].0@ == after[i].0@);
                            if j < before.len() {
                                assert(before[i].0@ != before[j].0@);
                            } else {
                                assert(list_map(before).contains_pair(before[i].0@, before[i].1));
                            }
                        }
                    }
                }
            },
        }
    }

    /// Takes out the entry at `index` and returns its value.
    pub fn remove_at(&mut self, index: usize) -> (value: V)
        requires
            old(self).wf(),
            index < old(self).count(),
        ensures
            final(self).wf(),
            final(self).count() == old(self).count() - 1,
            value == old(self)@[old(self).key_at(index as int)],
            final(self)@ == old(self)@.remove(old(self).key_at(index as int)),
    {
        let ghost before = self.entries@;
        let (key, value) = self.entries.remove(index);
        proof {
            let after = self.entries@;
            let map = list_map(before).remove(key@);
            lemma_list_map(before);
            assert(list_map(before).contains_pair(before[index as int].0@, before[index as int].1));
            assert(keys_differ(after)) by {
                assert forall|i: int, j: int| 0 <= i < j < after.len() implies #[trigger] after[i].0@
                    != #[trigger] after[j].0@ by {
                    let old_i = if i < index { i } else { i + 1 };
                    let old_j = if j < index { j } else { j + 1 };
                    assert(before[old_i].0@ != before[old_j].0@);
                }
            }
            assert forall|i: int| 0 <= i < after.len() implies map.contains_pair(
                (#[trigger] after[i]).0@,
                after[i].1,
            ) by {
                let old_i = if i < index { i } else { i + 1 };
                assert(after[i] == before[old_i]);
                if old_i < index {
                    assert(before[old_i].0@ != before[index as int].0@);
                } else {
                    assert(before[index as int].0@ != before[old_i].0@);
                }
                assert(list_map(before).contains_pair(before[old_i].0@, before[old_i].1));
            }
            assert forall|id: K::V| #[trigger] map.contains_key(id) implies exists|i: int|
                0 <= i < after.len() && #[trigger] after[i].0@ == id by {
                assert(list_map(before).contains_key(id));
                let old_i = choose|i: int| 0 <= i < before.len() && #[trigger] before[i].0@ == id;
                let i = if old_i < index { old_i } else { old_i - 1 };
                assert(after[i].0@ == id);
            }
            lemma_is_list_map(after, map);
        }
        value
    }

    /// Takes out the value of `key`.
    pub fn remove(&mut self, key: &K) -> (value: Option<V>)
        requires
            old(self).wf(),
        ensures
            final(self).wf(),
            value == if old(self)@.contains_key(key@) {
                Some(old(self)@[key@])
            } else {
                None
            },
            final(self)@ == old(self)@.remove(key@),
    {
        match self.position(key) {
            Some(index) => Some(self.remove_at(index)),
            None => {
                assert(self@.remove(key@) =~= self@);
                None
            },
        }
    }
}

} // verus!
