//! A bounded map that drops what was used least recently.

use vstd::prelude::*;

use crate::keyed::{KeyedList, MapKey};

verus! {

/// A value, and the tick at which it was last used.
pub struct LruEntry<V> {
    pub value: V,
    pub used_at: u64,
}

/// A bounded map. Inserting a new key into a full map drops the entry that was
/// used least recently; both `get` and `insert` count as a use.
pub struct LruCache<K, V> {
    capacity: usize,
    entries: KeyedList<K, LruEntry<V>>,
    clock: u64,
}

/// The contents of an [`LruCache`].
#[verifier::reject_recursive_types(I)]
pub struct LruView<I, V> {
    pub capacity: nat,
    pub entries: Map<I, LruEntry<V>>,
    pub clock: u64,
}

/// `id` names an entry that no other entry was used before.
pub open spec fn oldest<I, V>(entries: Map<I, LruEntry<V>>, id: I) -> bool {
    &&& entries.contains_key(id)
    &&& forall|other: I| #[trigger]
        entries.contains_key(other) ==> entries[id].used_at <= entries[other].used_at
}

/// `after` is `before` without one of its oldest entries, if it has any.
pub open spec fn oldest_dropped<I, V>(
    before: Map<I, LruEntry<V>>,
    after: Map<I, LruEntry<V>>,
) -> bool {
    if before.dom().len() == 0 {
        after == before
    } else {
        exists|id: I| #[trigger] oldest(before, id) && after == before.remove(id)
    }
}

/// The tick that follows `clock`.
pub open spec fn tick_after(clock: u64) -> u64 {
    if clock == u64::MAX {
        0
    } else {
        (clock + 1) as u64
    }
}

/// What a cache holds once `id` was looked up.
pub open spec fn after_get<I, V>(before: LruView<I, V>, id: I) -> LruView<I, V> {
    let tick = tick_after(before.clock);
    if before.entries.contains_key(id) {
        LruView {
            clock: tick,
            entries: before.entries.insert(
                id,
                LruEntry { value: before.entries[id].value, used_at: tick },
            ),
            ..before
        }
    } else {
        LruView { clock: tick, ..before }
    }
}

impl<K: MapKey, V> View for LruCache<K, V> {
    type V = LruView<K::V, V>;

    closed spec fn view(&self) -> LruView<K::V, V> {
        LruView { capacity: self.capacity as nat, entries: self.entries@, clock: self.clock }
    }
}

impl<K: MapKey, V> LruCache<K, V> {
    /// The cache has room for at least one entry and holds no more than it has
    /// room for.
    pub closed spec fn wf(&self) -> bool {
        &&& self.capacity >= 1
        &&& self.entries.wf()
        &&& self.entries.count() <= self.capacity
    }

    /// What holds of the contents of every cache.
    pub proof fn lemma_wf(&self)
        requires
            self.wf(),
        ensures
            self@.capacity >= 1,
            self@.entries.dom().finite(),
            self@.entries.dom().len() <= self@.capacity,
    {
        self.entries.lemma_wf();
    }

    /// An empty cache with room for `capacity` entries, but at least for one.
    pub fn new(capacity: usize) -> (cache: Self)
        ensures
            cache.wf(),
            cache@.capacity == if capacity >= 1 { capacity as nat } else { 1nat },
            cache@.entries == Map::<K::V, LruEntry<V>>::empty(),
            cache@.clock == 0,
    {
        let capacity: usize = if capacity >= 1 { capacity } else { 1 };
        LruCache { capacity, entries: KeyedList::new(), clock: 0 }
    }

    /// Advances the clock and returns its new time. The clock starts over
    /// after its last tick.
    pub fn next_tick(&mut self) -> (tick: u64)
        requires
            old(self).wf(),
        ensures
            final(self).wf(),
            tick == tick_after(old(self)@.clock),
            final(self)@ == (LruView { clock: tick, ..old(self)@ }),
    {
        self.clock = self.clock.wrapping_add(1);
        self.clock
    }

    /// The value of `key`, if it has one; this counts as a use of it.
    pub fn get(&mut self, key: &K) -> (value: Option<&V>)
        requires
            old(self).wf(),
        ensures
            final(self).wf(),
            final(self)@ == after_get(old(self)@, key@),
            value == if old(self)@.entries.contains_key(key@) {
                Some(&old(self)@.entries[key@].value)
            } else {
                None
            },
    {
        let tick: u64 = self.next_tick();
        match self.entries.position(key) {
            Some(index) => {
                let entry = self.entries.value_at_mut(index);
                entry.used_at = tick;
                Some(&self.entries.value_at(index).value)
            },
            None => None,
        }
    }

    /// Stores a value for `key`; this counts as a use of it. A new key in a
    /// full cache takes the place of an oldest entry.
    pub fn insert(&mut self, key: K, value: V)
        requires
            old(self).wf(),
        ensures
            final(self).wf(),
            final(self)@.capacity == old(self)@.capacity,
            final(self)@.clock == tick_after(old(self)@.clock),
            entry_inserted(old(self)@, final(self)@.entries, key@, value),
    {
        let tick: u64 = self.next_tick();
        proof {
            self.entries.lemma_wf();
        }
        let known = self.entries.contains_key(&key);
        if !known && self.entries.len() >= self.capacity {
            let ghost full = self@.entries;
            self.evict_least_recently_used();
            proof {
                self.entries.lemma_wf();
                let dropped = choose|id: K::V| #[trigger]
                    oldest(full, id) && self@.entries == full.remove(id);
                assert(self@.entries.dom() =~= full.dom().remove(dropped));
            }
        }
        let ghost kept = self.entries@;
        self.entries.insert(key, LruEntry { value, used_at: tick });
        proof {
            self.entries.lemma_wf();
            if known {
                assert(self.entries@.dom() =~= kept.dom());
            }
        }
    }

    /// Takes out the value of `key`, if it has one.
    pub fn remove(&mut self, key: &K) -> (value: Option<V>)
        requires
            old(self).wf(),
        ensures
            final(self).wf(),
            value == if old(self)@.entries.contains_key(key@) {
                Some(old(self)@.entries[key@].value)
            } else {
                None
            },
            final(self)@ == (LruView {
                entries: old(self)@.entries.remove(key@),
                ..old(self)@
            }),
    {
        match self.entries.position(key) {
            Some(index) => Some(self.entries.remove_at(index).value),
            None => {
                assert(self@.entries.remove(key@) =~= self@.entries);
                None
            },
        }
    }

    /// Drops an oldest entry, if there is any.
    pub fn evict_least_recently_used(&mut self)
        requires
            old(self).wf(),
        ensures
            final(self).wf(),
            final(self)@.capacity == old(self)@.capacity,
            final(self)@.clock == old(self)@.clock,
            oldest_dropped(old(self)@.entries, final(self)@.entries),
    {
        proof {
            self.entries.lemma_wf();
        }
        if self.entries.len() == 0 {
            return;
        }
        let ghost entries = self.entries@;
        let mut best: usize = 0;
        let mut index: usize = 1;
        while index < self.entries.len()
            invariant
                best < index <= self.entries.count(),
                self == old(self),
                self.wf(),
                entries == self.entries@,
                forall|i: int|
                    0 <= i < index ==> entries[self.entries.key_at(best as int)].used_at
                        <= entries[#[trigger] self.entries.key_at(i)].used_at,
            decreases self.entries.count() - index,
        {
            if self.entries.value_at(index).used_at < self.entries.value_at(best).used_at {
                best = index;
            }
            index = index + 1;
        }
        proof {
            let id = self.entries.key_at(best as int);
            assert(entries.contains_key(id));
            assert forall|other: K::V| #[trigger] entries.contains_key(other) implies entries[id].used_at
                <= entries[other].used_at by {
                let i = choose|i: int|
                    0 <= i < self.entries.count() && #[trigger] self.entries.key_at(i) == other;
                assert(self.entries.key_at(i) == other);
            }
            assert(oldest(entries, id));
        }
        self.entries.remove_at(best);
    }

    /// The number of entries.
    pub fn len(&self) -> (len: usize)
        requires
            self.wf(),
        ensures
            len == self@.entries.dom().len(),
    {
        self.entries.len()
    }

    /// Whether `key` has an entry; this does not count as a use of it.
    pub fn contains(&self, key: &K) -> (contains: bool)
        requires
            self.wf(),
        ensures
            contains == self@.entries.contains_key(key@),
    {
        self.entries.contains_key(key)
    }
}

/// `after` holds what a cache holds once `id` got a value at the next tick.
pub open spec fn entry_inserted<I, V>(
    before: LruView<I, V>,
    after: Map<I, LruEntry<V>>,
    id: I,
    value: V,
) -> bool {
    let stamped = LruEntry { value, used_at: tick_after(before.clock) };
    if before.entries.contains_key(id) || before.entries.dom().len() < before.capacity {
        after == before.entries.insert(id, stamped)
    } else {
        exists|dropped: I| #[trigger]
            oldest(before.entries, dropped) && after == before.entries.remove(dropped).insert(
                id,
                stamped,
            )
    }
}

/// The stamps tell the order of use: none lies ahead of the clock, and no two
/// entries share one.
pub open spec fn stamps_tell_order<I, V>(cache: LruView<I, V>) -> bool {
    &&& forall|id: I| #[trigger]
        cache.entries.contains_key(id) ==> cache.entries[id].used_at <= cache.clock
    &&& forall|a: I, b: I|
        #![trigger cache.entries.contains_key(a), cache.entries.contains_key(b)]
        cache.entries.contains_key(a) && cache.entries.contains_key(b) && a != b
            ==> cache.entries[a].used_at != cache.entries[b].used_at
}

/// A lookup keeps the order of use told by the stamps, until the clock starts
/// over, and leaves the keys and their values as they are.
pub proof fn law_get_keeps_order_and_contents<I, V>(before: LruView<I, V>, id: I)
    requires
        stamps_tell_order(before),
        before.clock < u64::MAX,
    ensures
        ({
            let after = after_get(before, id);
            &&& stamps_tell_order(after)
            &&& after.entries.dom() == before.entries.dom()
            &&& forall|other: I| #[trigger]
                after.entries.contains_key(other) ==> after.entries[other].value
                    == before.entries[other].value
        }),
{
    let after = after_get(before, id);
    assert(after.entries.dom() =~= before.entries.dom());
    assert forall|other: I| #[trigger] after.entries.contains_key(other) implies after.entries[other].used_at
        <= after.clock by {
        assert(before.entries.contains_key(other));
    }
    assert forall|a: I, b: I|
        #![trigger after.entries.contains_key(a), after.entries.contains_key(b)]
        after.entries.contains_key(a) && after.entries.contains_key(b) && a
            != b implies after.entries[a].used_at != after.entries[b].used_at by {
        assert(before.entries.contains_key(a));
        assert(before.entries.contains_key(b));
    }
}

/// An insertion keeps the order of use told by the stamps, until the clock
/// starts over; afterwards the key has the value, and the latest stamp.
pub proof fn law_insert_keeps_order<I, V>(
    before: LruView<I, V>,
    after: Map<I, LruEntry<V>>,
    id: I,
    value: V,
)
    requires
        stamps_tell_order(before),
        before.clock < u64::MAX,
        entry_inserted(before, after, id, value),
    ensures
        after.contains_pair(id, LruEntry { value, used_at: tick_after(before.clock) }),
        stamps_tell_order(
            LruView { clock: tick_after(before.clock), entries: after, ..before },
        ),
{
    let tick = tick_after(before.clock);
    assert forall|other: I| #[trigger] after.contains_key(other) implies after[other].used_at <= tick by {
        if other != id {
            assert(before.entries.contains_key(other));
        }
    }
    assert forall|a: I, b: I|
        #![trigger after.contains_key(a), after.contains_key(b)]
        after.contains_key(a) && after.contains_key(b) && a != b implies after[a].used_at != after[b].used_at by {
        if a != id {
            assert(before.entries.contains_key(a));
        }
        if b != id {
            assert(before.entries.contains_key(b));
        }
    }
}

/// There is one least recently used entry at most.
pub proof fn law_least_recently_used_is_unique<I, V>(cache: LruView<I, V>, a: I, b: I)
    requires
        stamps_tell_order(cache),
        oldest(cache.entries, a),
        oldest(cache.entries, b),
    ensures
        a == b,
{
    assert(cache.entries.contains_key(a));
    assert(cache.entries.contains_key(b));
}

/// The entry that was used last stays when another key is inserted, unless it
/// is the only one that there is room for.
pub proof fn law_last_used_survives_an_insert<I, V>(
    before: LruView<I, V>,
    after: Map<I, LruEntry<V>>,
    last_used: I,
    id: I,
    value: V,
)
    requires
        stamps_tell_order(before),
        before.entries.dom().finite(),
        before.entries.contains_key(last_used),
        before.entries[last_used].used_at == before.clock,
        before.capacity >= 2,
        id != last_used,
        entry_inserted(before, after, id, value),
    ensures
        after.contains_pair(last_used, before.entries[last_used]),
{
    if !before.entries.contains_key(id) && before.entries.dom().len() >= before.capacity {
        let stamped = LruEntry { value, used_at: tick_after(before.clock) };
        let dropped = choose|dropped: I| #[trigger]
            oldest(before.entries, dropped) && after == before.entries.remove(dropped).insert(
                id,
                stamped,
            );
        if dropped == last_used {
            let others = before.entries.dom().remove(last_used);
            let other = others.choose();
            assert(others.len() >= 1);
            assert(others.contains(other));
            assert(before.entries.contains_key(other));
        }
    }
}

/// Inserting a key that has an entry neither adds an entry nor drops one.
pub proof fn law_reinsert_neither_grows_nor_evicts<I, V>(
    before: LruView<I, V>,
    after: Map<I, LruEntry<V>>,
    id: I,
    value: V,
)
    requires
        before.entries.contains_key(id),
        entry_inserted(before, after, id, value),
    ensures
        after.dom() == before.entries.dom(),
        forall|other: I|
            before.entries.contains_key(other) && other != id ==> #[trigger] after[other]
                == before.entries[other],
{
    assert(after.dom() =~= before.entries.dom());
}

/// An insert leaves the new value under its key and all others as they were,
/// but for one where the cache was full of other keys: one that no other entry
/// was used before.
pub proof fn law_an_insert_drops_only_what_was_used_least_recently<I, V>(
    before: LruView<I, V>,
    after: Map<I, LruEntry<V>>,
    id: I,
    value: V,
    other: I,
)
    requires
        entry_inserted(before, after, id, value),
        other != id,
        before.entries.contains_key(other),
    ensures
        after.contains_key(id) && after[id].value == value,
        before.entries.contains_key(id) || before.entries.dom().len() < before.capacity
            ==> after.contains_key(other),
        after.contains_key(other) ==> after[other] == before.entries[other],
        !after.contains_key(other) ==> forall|rival: I| #[trigger]
            before.entries.contains_key(rival) ==> before.entries[other].used_at
                <= before.entries[rival].used_at,
        !after.contains_key(other) ==> forall|rival: I| #[trigger]
            before.entries.contains_key(rival) && rival != other ==> after.contains_key(rival),
{
}

/// What was looked up last outlives the next insert, however long ago it was
/// stored, unless there is room for one entry only.
pub proof fn law_what_was_looked_up_last_survives<I, V>(
    before: LruView<I, V>,
    after: Map<I, LruEntry<V>>,
    id: I,
    new_id: I,
    value: V,
)
    requires
        stamps_tell_order(before),
        before.clock < u64::MAX,
        before.entries.dom().finite(),
        before.entries.contains_key(id),
        before.capacity >= 2,
        new_id != id,
        entry_inserted(after_get(before, id), after, new_id, value),
    ensures
        after.contains_key(id),
        after[id].value == before.entries[id].value,
{
    law_get_keeps_order_and_contents(before, id);
    law_last_used_survives_an_insert(after_get(before, id), after, id, new_id, value);
}

} // verus!
