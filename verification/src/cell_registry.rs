//! The registry shape shared by every list of per-cell bindings.
//!
//! Bindings hold weak references to their widgets only, so a binding can die
//! at any time. Walks drop dead bindings before they visit the others, and a
//! registration drops them once the registry has grown past a watermark, so
//! that a registry that is never walked stays bounded too.

use vstd::prelude::*;

use crate::seqs;
use crate::seqs::keep_flagged;

verus! {

/// One realized cell. Each kind of cell answers two questions: which slot it
/// occupies, and whether it is still worth keeping.
pub trait CellBinding {
    /// Stable identity of the slot that the cell occupies.
    spec fn slot(&self) -> usize;

    /// Stable identity of the slot that the cell occupies.
    fn key(&self) -> (key: usize)
        ensures
            key == self.slot(),
    ;

    /// Whether the cell's widgets still exist. The answer can change from one
    /// call to the next: a binding dies when its widgets do.
    fn is_live(&self) -> (live: bool);
}

/// Floor of the sweep watermark, so that small registries never bother.
pub const MIN_SWEEP_LEN: usize = 32;

/// `live` tells, for each binding, an answer that it may give.
pub open spec fn answers<T: CellBinding>(bindings: Seq<T>, live: Seq<bool>) -> bool {
    &&& live.len() == bindings.len()
    &&& forall|i: int|
        0 <= i < bindings.len() ==> call_ensures(T::is_live, (&bindings[i],), #[trigger] live[i])
}

/// A binding of the list that may be found alive.
pub open spec fn may_survive<T: CellBinding>(bindings: Seq<T>, binding: &T) -> bool {
    bindings.contains(*binding) && call_ensures(T::is_live, (binding,), true)
}

/// A list of bindings, and the length at which dead ones are swept out.
pub struct BindingRegistry<T> {
    bindings: Vec<T>,
    sweep_at: usize,
}

/// The watermark after a sweep that left `len` bindings.
pub open spec fn watermark(len: nat) -> nat {
    let double = if 2 * len > usize::MAX { usize::MAX as nat } else { 2 * len };
    if double > MIN_SWEEP_LEN { double } else { MIN_SWEEP_LEN as nat }
}

/// The bindings that occupy other slots, in their order.
pub open spec fn without_slot<T: CellBinding>(bindings: Seq<T>, slot: usize) -> Seq<T>
    decreases bindings.len(),
{
    if bindings.len() == 0 {
        Seq::empty()
    } else {
        let earlier = without_slot(bindings.drop_last(), slot);
        if bindings.last().slot() != slot {
            earlier.push(bindings.last())
        } else {
            earlier
        }
    }
}

impl<T> BindingRegistry<T> {
    /// The bindings, in the order in which they were registered.
    pub closed spec fn bindings(&self) -> Seq<T> {
        self.bindings@
    }

    /// The length at which the next registration sweeps.
    pub closed spec fn sweep_at(&self) -> nat {
        self.sweep_at as nat
    }

    /// The registry is shorter than its watermark, unless that is as high as
    /// it can be.
    pub open spec fn wf(&self) -> bool {
        self.bindings().len() < self.sweep_at() || self.sweep_at() == usize::MAX
    }
}

impl<T> Default for BindingRegistry<T> {
    fn default() -> (registry: Self)
        ensures
            registry.wf(),
            registry.bindings() == Seq::<T>::empty(),
            registry.sweep_at() == MIN_SWEEP_LEN,
    {
        BindingRegistry { bindings: Vec::new(), sweep_at: MIN_SWEEP_LEN }
    }
}

/// `after` is `before` without the bindings that were found dead.
pub open spec fn swept<T: CellBinding>(
    before: Seq<T>,
    after: BindingRegistry<T>,
    live: Seq<bool>,
) -> bool {
    &&& answers(before, live)
    &&& after.bindings() == seqs::kept(before, live)
    &&& after.sweep_at() == watermark(after.bindings().len())
}

/// `after` holds the bindings `now`, swept once they reached the watermark.
pub open spec fn registered<T: CellBinding>(
    now: Seq<T>,
    sweep_at: nat,
    after: BindingRegistry<T>,
) -> bool {
    if now.len() < sweep_at {
        after.bindings() == now && after.sweep_at() == sweep_at
    } else {
        exists|live: Seq<bool>| #[trigger] swept(now, after, live)
    }
}

/// The survivors of a sweep were in the list, and were found alive.
proof fn lemma_survivors<T: CellBinding>(before: Seq<T>, after: BindingRegistry<T>)
    requires
        exists|live: Seq<bool>| #[trigger] swept(before, after, live),
    ensures
        forall|i: int|
            0 <= i < after.bindings().len() ==> may_survive(
                before,
                &#[trigger] after.bindings()[i],
            ),
{
    let live = choose|live: Seq<bool>| #[trigger] swept(before, after, live);
    assert forall|i: int| 0 <= i < after.bindings().len() implies may_survive(
        before,
        &#[trigger] after.bindings()[i],
    ) by {
        let from = seqs::lemma_kept_from(before, live, i);
        assert(before[from] == after.bindings()[i]);
        assert(call_ensures(T::is_live, (&before[from],), live[from]));
    }
}

impl<T: CellBinding> BindingRegistry<T> {
    /// The number of bindings, dead ones among them.
    pub fn len(&self) -> (len: usize)
        ensures
            len == self.bindings().len(),
    {
        self.bindings.len()
    }

    /// Registers a binding.
    pub fn push(&mut self, binding: T)
        requires
            old(self).wf(),
        ensures
            final(self).wf(),
            registered(
                old(self).bindings().push(binding),
                old(self).sweep_at(),
                *final(self),
            ),
    {
        self.bindings.push(binding);
        if self.bindings.len() >= self.sweep_at {
            self.sweep();
        }
    }

    /// Registers a binding in place of those that occupy its slot.
    pub fn replace(&mut self, binding: T)
        requires
            old(self).wf(),
        ensures
            final(self).wf(),
            registered(
                without_slot(old(self).bindings(), binding.slot()).push(binding),
                old(self).sweep_at(),
                *final(self),
            ),
    {
        let key: usize = binding.key();
        let ghost given = self.bindings@;
        let mut rest: Vec<T> = Vec::new();
        std::mem::swap(&mut self.bindings, &mut rest);
        let ghost mut done: int = 0;
        while rest.len() > 0
            invariant
                0 <= done <= given.len(),
                rest@ == given.skip(done),
                self.bindings@ == without_slot(given.take(done), key),
                self.bindings@.len() <= done,
                self.sweep_at == old(self).sweep_at,
                given == old(self).bindings@,
            decreases rest.len(),
        {
            let existing = rest.remove(0);
            proof {
                assert(rest@ =~= given.skip(done + 1));
                assert(given.take(done + 1).drop_last() =~= given.take(done));
                done = done + 1;
            }
            if existing.key() != key {
                self.bindings.push(existing);
            }
        }
        assert(given.take(done) =~= given);
        self.bindings.push(binding);
        if self.bindings.len() >= self.sweep_at {
            self.sweep();
        }
    }

    /// Drops dead bindings, and hands out the survivors in order.
    pub fn survivors(&mut self) -> (survivors: &[T])
        ensures
            final(self).wf(),
            exists|live: Seq<bool>| #[trigger] swept(old(self).bindings(), *final(self), live),
            survivors@ == final(self).bindings(),
    {
        self.sweep();
        self.bindings.as_slice()
    }

    /// Drops dead bindings, then visits each survivor in order. The visitor has
    /// to take none but bindings of the registry that may be found alive: no
    /// dead one is handed to it.
    pub fn for_each_live(&mut self, mut visit: impl FnMut(&T))
        requires
            forall|binding: &T|
                may_survive(old(self).bindings(), binding) ==> #[trigger] call_requires(
                    visit,
                    (binding,),
                ),
        ensures
            final(self).wf(),
            exists|live: Seq<bool>| #[trigger] swept(old(self).bindings(), *final(self), live),
            forall|i: int|
                0 <= i < final(self).bindings().len() ==> call_ensures(
                    visit,
                    (&#[trigger] final(self).bindings()[i],),
                    (),
                ),
    {
        self.sweep();
        proof {
            lemma_survivors(old(self).bindings(), *self);
        }
        let ghost given = visit;
        let mut index: usize = 0;
        while index < self.bindings.len()
            invariant
                index <= self.bindings@.len(),
                self.wf(),
                visit == given,
                forall|binding: &T|
                    may_survive(old(self).bindings(), binding) ==> #[trigger] call_requires(
                        visit,
                        (binding,),
                    ),
                forall|i: int|
                    0 <= i < self.bindings().len() ==> may_survive(
                        old(self).bindings(),
                        &#[trigger] self.bindings()[i],
                    ),
                exists|live: Seq<bool>| #[trigger] swept(old(self).bindings(), *self, live),
                forall|i: int|
                    0 <= i < index ==> call_ensures(
                        visit,
                        (&#[trigger] self.bindings()[i],),
                        (),
                    ),
            decreases self.bindings.len() - index,
        {
            assert(may_survive(old(self).bindings(), &self.bindings()[index as int]));
            visit(&self.bindings[index]);
            index = index + 1;
        }
    }

    /// Drops dead bindings, then returns the first hit of `find` among the
    /// survivors. `find` has to take none but bindings of the registry that may
    /// be found alive.
    pub fn find_map_live<R>(&mut self, mut find: impl FnMut(&T) -> Option<R>) -> (hit: Option<R>)
        requires
            forall|binding: &T|
                may_survive(old(self).bindings(), binding) ==> #[trigger] call_requires(
                    find,
                    (binding,),
                ),
        ensures
            final(self).wf(),
            exists|live: Seq<bool>| #[trigger] swept(old(self).bindings(), *final(self), live),
            exists|at: int| #[trigger] first_hit(final(self).bindings(), find, at, hit),
    {
        self.sweep();
        proof {
            lemma_survivors(old(self).bindings(), *self);
        }
        let ghost given = find;
        let mut hit: Option<R> = None;
        let mut index: usize = 0;
        while index < self.bindings.len() && hit.is_none()
            invariant
                index <= self.bindings@.len(),
                self.wf(),
                find == given,
                forall|binding: &T|
                    may_survive(old(self).bindings(), binding) ==> #[trigger] call_requires(
                        find,
                        (binding,),
                    ),
                forall|i: int|
                    0 <= i < self.bindings().len() ==> may_survive(
                        old(self).bindings(),
                        &#[trigger] self.bindings()[i],
                    ),
                exists|live: Seq<bool>| #[trigger] swept(old(self).bindings(), *self, live),
                forall|i: int|
                    0 <= i < index ==> call_ensures(
                        find,
                        (&#[trigger] self.bindings()[i],),
                        None::<R>,
                    ),
                hit is Some ==> index < self.bindings@.len() && call_ensures(
                    find,
                    (&self.bindings()[index as int],),
                    hit,
                ),
            decreases
                self.bindings.len() - index,
                if hit is None {
                    1int
                } else {
                    0int
                },
        {
            assert(may_survive(old(self).bindings(), &self.bindings()[index as int]));
            hit = find(&self.bindings[index]);
            if hit.is_none() {
                index = index + 1;
            }
        }
        assert(first_hit(self.bindings(), find, index as int, hit));
        hit
    }

    /// Drops dead bindings and sets the watermark anew.
    pub fn sweep(&mut self)
        ensures
            final(self).wf(),
            exists|live: Seq<bool>| #[trigger] swept(old(self).bindings(), *final(self), live),
    {
        let mut live: Vec<bool> = Vec::new();
        let mut index: usize = 0;
        while index < self.bindings.len()
            invariant
                index <= self.bindings@.len(),
                *self == *old(self),
                live@.len() == index,
                forall|i: int|
                    0 <= i < index ==> call_ensures(
                        T::is_live,
                        (&self.bindings@[i],),
                        #[trigger] live@[i],
                    ),
            decreases self.bindings.len() - index,
        {
            live.push(self.bindings[index].is_live());
            index = index + 1;
        }
        keep_flagged(&mut self.bindings, &live);
        let len: usize = self.bindings.len();
        let double: usize = if len > usize::MAX / 2 { usize::MAX } else { len * 2 };
        self.sweep_at = if double > MIN_SWEEP_LEN { double } else { MIN_SWEEP_LEN };
        assert(swept(old(self).bindings(), *self, live@));
    }
}

/// `find` misses the bindings before `at` and returns `hit` there, or misses
/// all of them when there is no hit.
pub open spec fn first_hit<T, R, F: FnMut(&T) -> Option<R>>(
    bindings: Seq<T>,
    find: F,
    at: int,
    hit: Option<R>,
) -> bool {
    &&& 0 <= at <= bindings.len()
    &&& forall|i: int|
        0 <= i < at ==> call_ensures(find, (&#[trigger] bindings[i],), None::<R>)
    &&& hit is Some <==> at < bindings.len()
    &&& hit is Some ==> call_ensures(find, (&bindings[at],), hit)
}

/// A binding that was found alive survives the sweep, and none that was found
/// dead does: every survivor was found alive, and they are as many as the
/// living.
pub proof fn law_sweep_keeps_exactly_the_living<T: CellBinding>(
    before: Seq<T>,
    after: BindingRegistry<T>,
    live: Seq<bool>,
)
    requires
        swept(before, after, live),
    ensures
        forall|i: int|
            0 <= i < before.len() && live[i] ==> after.bindings().contains(#[trigger] before[i]),
        forall|k: int|
            0 <= k < after.bindings().len() ==> may_survive(before, &#[trigger] after.bindings()[k]),
        after.bindings().len() == seqs::set_flags(live),
{
    seqs::lemma_kept(before, live);
    lemma_survivors(before, after);
}

/// After a replacement, the slot is occupied by the new binding alone.
pub proof fn law_replaced_slot_is_occupied_once<T: CellBinding>(bindings: Seq<T>, slot: usize, i: int)
    requires
        0 <= i < without_slot(bindings, slot).len(),
    ensures
        without_slot(bindings, slot)[i].slot() != slot,
    decreases bindings.len(),
{
    if bindings.len() > 0 {
        let earlier = without_slot(bindings.drop_last(), slot);
        if i < earlier.len() {
            law_replaced_slot_is_occupied_once(bindings.drop_last(), slot, i);
        }
    }
}

/// A registry stays bounded though it is never walked: a registration leaves
/// it shorter than the watermark, and a sweep sets that to no more than twice
/// what it left, or to the floor.
pub proof fn law_registrations_stay_bounded<T: CellBinding>(
    now: Seq<T>,
    sweep_at: nat,
    after: BindingRegistry<T>,
)
    requires
        registered(now, sweep_at, after),
        now.len() <= usize::MAX / 2,
    ensures
        after.bindings().len() < after.sweep_at(),
        after.sweep_at() == sweep_at || after.sweep_at() <= 2 * after.bindings().len()
            || after.sweep_at() == MIN_SWEEP_LEN,
{
    if now.len() >= sweep_at {
        let live = choose|live: Seq<bool>| #[trigger] swept(now, after, live);
        seqs::lemma_kept(now, live);
    }
}

/// The bindings of other slots stay when a slot is replaced, in their order.
pub proof fn law_other_slots_stay<T: CellBinding>(bindings: Seq<T>, slot: usize)
    ensures
        seqs::lists(
            without_slot(bindings, slot),
            bindings.len(),
            |i: int| bindings[i].slot() != slot,
            |i: int| bindings[i],
        ),
{
    lemma_without_slot(bindings, slot, bindings.len());
    assert(bindings.take(bindings.len() as int) =~= bindings);
}

proof fn lemma_without_slot<T: CellBinding>(bindings: Seq<T>, slot: usize, upto: nat)
    requires
        upto <= bindings.len(),
    ensures
        seqs::lists(
            without_slot(bindings.take(upto as int), slot),
            upto,
            |i: int| bindings[i].slot() != slot,
            |i: int| bindings[i],
        ),
    decreases upto,
{
    let wanted = |i: int| bindings[i].slot() != slot;
    let item = |i: int| bindings[i];
    if upto == 0 {
        assert(bindings.take(0) =~= Seq::empty());
        seqs::lemma_lists_nothing(wanted, item);
    } else {
        let fewer = (upto - 1) as nat;
        lemma_without_slot(bindings, slot, fewer);
        assert(bindings.take(upto as int).drop_last() =~= bindings.take(fewer as int));
        assert(bindings.take(upto as int).last() == bindings[fewer as int]);
        seqs::lemma_lists_one_more(
            without_slot(bindings.take(fewer as int), slot),
            fewer,
            wanted,
            item,
        );
    }
}

/// A registration below the watermark sweeps nothing, and keeps the watermark.
pub proof fn law_a_registration_below_the_watermark_sweeps_nothing<T: CellBinding>(
    now: Seq<T>,
    sweep_at: nat,
    after: BindingRegistry<T>,
)
    requires
        registered(now, sweep_at, after),
        now.len() < sweep_at,
    ensures
        after.bindings() == now,
        after.sweep_at() == sweep_at,
{
}

} // verus!
