//! The loader's state: the covers that are resident in each size, and the
//! callbacks that wait for a cover to be decoded.

use vstd::prelude::*;

use crate::artwork::cache_row::ArtworkVariant;
use crate::artwork::lru;
use crate::artwork::lru::{LruCache, LruView};
use crate::artwork::source;
use crate::artwork::source::ArtworkSource;
use crate::keyed::{KeyedList, MapKey};

verus! {

/// Lower bound on the number of worker threads.
pub const WORKER_COUNT_MIN: usize = 4;

/// Upper bound on the number of worker threads.
pub const WORKER_COUNT_MAX: usize = 8;

/// Upper bound on resident tile textures.
pub const MAX_CACHED_TILE_ARTWORKS: usize = 4096;

/// Upper bound on resident detail textures, which are far heavier.
pub const MAX_CACHED_DETAIL_ARTWORKS: usize = 32;

/// The number of worker threads on a machine with this much parallelism, where
/// that could be found out.
pub fn worker_count(parallelism: Option<usize>) -> (count: usize)
    ensures
        WORKER_COUNT_MIN <= count <= WORKER_COUNT_MAX,
        parallelism is None ==> count == WORKER_COUNT_MIN,
        parallelism matches Some(n) ==> {
            &&& n <= WORKER_COUNT_MIN ==> count == WORKER_COUNT_MIN
            &&& WORKER_COUNT_MIN <= n <= WORKER_COUNT_MAX ==> count == n
            &&& n >= WORKER_COUNT_MAX ==> count == WORKER_COUNT_MAX
        },
{
    let wanted: usize = parallelism.unwrap_or(WORKER_COUNT_MIN);
    if wanted < WORKER_COUNT_MIN {
        WORKER_COUNT_MIN
    } else if wanted > WORKER_COUNT_MAX {
        WORKER_COUNT_MAX
    } else {
        wanted
    }
}

/// A cover in one size.
pub struct CoverKey {
    pub source: ArtworkSource,
    pub variant: ArtworkVariant,
}

impl View for CoverKey {
    type V = ((Seq<Seq<u8>>, Seq<Seq<u8>>), ArtworkVariant);

    open spec fn view(&self) -> ((Seq<Seq<u8>>, Seq<Seq<u8>>), ArtworkVariant) {
        (self.source@, self.variant)
    }
}

impl MapKey for CoverKey {
    fn same_key(&self, other: &Self) -> (same: bool) {
        self.source.same_key(&other.source) && self.variant == other.variant
    }
}

/// Resident covers and waiting callbacks.
pub struct LoaderState<D, C> {
    tiles: LruCache<ArtworkSource, D>,
    details: LruCache<ArtworkSource, D>,
    pending: KeyedList<CoverKey, Vec<C>>,
}

/// The contents of a [`LoaderState`].
pub struct LoaderView<D, C> {
    pub tiles: LruView<(Seq<Seq<u8>>, Seq<Seq<u8>>), D>,
    pub details: LruView<(Seq<Seq<u8>>, Seq<Seq<u8>>), D>,
    pub pending: Map<((Seq<Seq<u8>>, Seq<Seq<u8>>), ArtworkVariant), Vec<C>>,
}

impl<D, C> LoaderView<D, C> {
    /// The resident covers of one size.
    pub open spec fn cache_for(self, variant: ArtworkVariant) -> LruView<
        (Seq<Seq<u8>>, Seq<Seq<u8>>),
        D,
    > {
        match variant {
            ArtworkVariant::Tile => self.tiles,
            ArtworkVariant::Detail => self.details,
        }
    }

    /// The callbacks that wait for a cover.
    pub open spec fn waiting(
        self,
        cover: ((Seq<Seq<u8>>, Seq<Seq<u8>>), ArtworkVariant),
    ) -> Seq<C> {
        if self.pending.contains_key(cover) {
            self.pending[cover]@
        } else {
            Seq::empty()
        }
    }
}

impl<D, C> View for LoaderState<D, C> {
    type V = LoaderView<D, C>;

    closed spec fn view(&self) -> LoaderView<D, C> {
        LoaderView { tiles: self.tiles@, details: self.details@, pending: self.pending@ }
    }
}

/// What a request comes to.
pub enum RequestOutcome<'a, D, C> {
    /// The cover is resident: the callback gets it at once.
    Resident(&'a D, C),
    /// The callback waits, and the cover has to be sent to the workers.
    Queue,
    /// The callback waits for a cover that the workers already have.
    Wait,
}

impl<D, C> LoaderState<D, C> {
    pub closed spec fn wf(&self) -> bool {
        &&& self.tiles.wf()
        &&& self.details.wf()
        &&& self.pending.wf()
    }

    /// No cover is resident, and nothing waits.
    pub fn new() -> (state: Self)
        ensures
            state.wf(),
            state@.tiles.entries.dom() == Set::<(Seq<Seq<u8>>, Seq<Seq<u8>>)>::empty(),
            state@.tiles.capacity == MAX_CACHED_TILE_ARTWORKS,
            state@.details.entries.dom() == Set::<(Seq<Seq<u8>>, Seq<Seq<u8>>)>::empty(),
            state@.details.capacity == MAX_CACHED_DETAIL_ARTWORKS,
            state@.pending.dom() == Set::<
                ((Seq<Seq<u8>>, Seq<Seq<u8>>), ArtworkVariant),
            >::empty(),
    {
        let state = LoaderState {
            tiles: LruCache::new(MAX_CACHED_TILE_ARTWORKS),
            details: LruCache::new(MAX_CACHED_DETAIL_ARTWORKS),
            pending: KeyedList::new(),
        };
        assert(state@.tiles.entries.dom() =~= Set::empty());
        assert(state@.details.entries.dom() =~= Set::empty());
        assert(state@.pending.dom() =~= Set::empty());
        state
    }

    /// The cover of a source in one size, if it is resident.
    pub fn cached_variant(&mut self, source: &ArtworkSource, variant: ArtworkVariant) -> (cover:
        Option<&D>)
        requires
            old(self).wf(),
        ensures
            final(self).wf(),
            final(self)@.pending == old(self)@.pending,
            final(self)@.cache_for(variant) == lru::after_get(
                old(self)@.cache_for(variant),
                source@,
            ),
            forall|other: ArtworkVariant|
                other != variant ==> #[trigger] final(self)@.cache_for(other) == old(
                    self,
                )@.cache_for(other),
            cover == if old(self)@.cache_for(variant).entries.contains_key(source@) {
                Some(&old(self)@.cache_for(variant).entries[source@].value)
            } else {
                None
            },
    {
        match variant {
            ArtworkVariant::Tile => self.tiles.get(source),
            ArtworkVariant::Detail => self.details.get(source),
        }
    }

    /// Asks for a cover. The callback gets it at once when it is resident, and
    /// otherwise waits; the workers are asked only by the first that waits.
    pub fn request_variant<'a>(
        &'a mut self,
        source: &ArtworkSource,
        variant: ArtworkVariant,
        callback: C,
    ) -> (outcome: RequestOutcome<'a, D, C>)
        requires
            old(self).wf(),
        ensures
            final(self).wf(),
            requested(old(self)@, final(self)@, (source@, variant), callback, outcome),
    {
        let resident = match variant {
            ArtworkVariant::Tile => self.tiles.contains(source),
            ArtworkVariant::Detail => self.details.contains(source),
        };
        if resident {
            let decoded = match variant {
                ArtworkVariant::Tile => self.tiles.get(source),
                ArtworkVariant::Detail => self.details.get(source),
            };
            return RequestOutcome::Resident(decoded.unwrap(), callback);
        }
        self.cached_variant(source, variant);
        let ghost looked_up = self@;
        let key = CoverKey { source: source.clone(), variant };
        let ghost cover = key@;
        let ghost before = self.pending@;
        match self.pending.position(&key) {
            Some(index) => {
                let callbacks = self.pending.value_at_mut(index);
                callbacks.push(callback);
                proof {
                    assert(self.pending@.remove(cover) =~= before.remove(cover));
                    assert forall|other: ArtworkVariant| #[trigger] self@.cache_for(other)
                        == looked_up.cache_for(other) by {}
                }
                RequestOutcome::Wait
            },
            None => {
                let mut callbacks: Vec<C> = Vec::new();
                callbacks.push(callback);
                self.pending.insert(key, callbacks);
                proof {
                    assert(self.pending@.remove(cover) =~= before.remove(cover));
                    assert(callbacks@ =~= Seq::<C>::empty().push(callback));
                    assert forall|other: ArtworkVariant| #[trigger] self@.cache_for(other)
                        == looked_up.cache_for(other) by {}
                }
                RequestOutcome::Queue
            },
        }
    }

    /// Takes in a cover that the workers have decoded for `requested`. Unless
    /// the source was invalidated meanwhile, the cover becomes resident, and
    /// the callbacks that waited for it are returned in the order in which
    /// they came.
    pub fn deliver_result(
        &mut self,
        current: u64,
        requested: u64,
        source: &ArtworkSource,
        variant: ArtworkVariant,
        decoded: D,
    ) -> (callbacks: Vec<C>)
        requires
            old(self).wf(),
        ensures
            final(self).wf(),
            delivered(
                old(self)@,
                final(self)@,
                (source@, variant),
                current == requested,
                decoded,
                callbacks@,
            ),
    {
        if current != requested {
            return Vec::new();
        }
        match variant {
            ArtworkVariant::Tile => self.tiles.insert(source.clone(), decoded),
            ArtworkVariant::Detail => self.details.insert(source.clone(), decoded),
        }
        let key = CoverKey { source: source.clone(), variant };
        match self.pending.remove(&key) {
            Some(callbacks) => callbacks,
            None => Vec::new(),
        }
    }

    /// Forgets the covers of a source in both sizes and the callbacks that
    /// wait for them.
    pub fn invalidate(&mut self, source: &ArtworkSource)
        requires
            old(self).wf(),
        ensures
            final(self).wf(),
            final(self)@ == forgotten(old(self)@, source@),
    {
        self.tiles.remove(source);
        self.details.remove(source);
        let tile = CoverKey { source: source.clone(), variant: ArtworkVariant::Tile };
        self.pending.remove(&tile);
        let detail = CoverKey { source: source.clone(), variant: ArtworkVariant::Detail };
        self.pending.remove(&detail);
    }

    /// Makes a cover resident in both sizes without asking the workers.
    pub fn prime(&mut self, source: &ArtworkSource, tile: D, detail: D)
        requires
            old(self).wf(),
        ensures
            final(self).wf(),
            cover_inserted(old(self)@.tiles, final(self)@.tiles, source@, tile),
            cover_inserted(old(self)@.details, final(self)@.details, source@, detail),
            final(self)@.pending == old(self)@.pending,
    {
        self.tiles.insert(source.clone(), tile);
        self.details.insert(source.clone(), detail);
    }
}

/// `after` is the loader `before` once a callback has asked for a cover, and
/// `outcome` is what the request comes to.
pub open spec fn requested<'a, D, C>(
    before: LoaderView<D, C>,
    after: LoaderView<D, C>,
    cover: ((Seq<Seq<u8>>, Seq<Seq<u8>>), ArtworkVariant),
    callback: C,
    outcome: RequestOutcome<'a, D, C>,
) -> bool {
    let (source, variant) = cover;
    let cache = before.cache_for(variant).entries;
    &&& after.cache_for(variant) == lru::after_get(before.cache_for(variant), source)
    &&& forall|other: ArtworkVariant|
        other != variant ==> #[trigger] after.cache_for(other) == before.cache_for(other)
    &&& if cache.contains_key(source) {
        &&& outcome == RequestOutcome::Resident(&cache[source].value, callback)
        &&& after.pending == before.pending
    } else {
        &&& outcome == if before.pending.contains_key(cover) {
            RequestOutcome::<D, C>::Wait
        } else {
            RequestOutcome::<D, C>::Queue
        }
        &&& after.waiting(cover) == before.waiting(cover).push(callback)
        &&& after.pending.contains_key(cover)
        &&& after.pending.remove(cover) == before.pending.remove(cover)
    }
}

/// `after` is the loader `before` once the workers have decoded a cover, which
/// is taken in only where it is `current`, and `callbacks` are those that get it.
pub open spec fn delivered<D, C>(
    before: LoaderView<D, C>,
    after: LoaderView<D, C>,
    cover: ((Seq<Seq<u8>>, Seq<Seq<u8>>), ArtworkVariant),
    current: bool,
    decoded: D,
    callbacks: Seq<C>,
) -> bool {
    let (source, variant) = cover;
    if !current {
        callbacks == Seq::<C>::empty() && after == before
    } else {
        &&& callbacks == before.waiting(cover)
        &&& after.pending == before.pending.remove(cover)
        &&& cover_inserted(before.cache_for(variant), after.cache_for(variant), source, decoded)
        &&& forall|other: ArtworkVariant|
            other != variant ==> #[trigger] after.cache_for(other) == before.cache_for(other)
    }
}

/// The loader once the covers of a source, and what waits for them, are
/// forgotten.
pub open spec fn forgotten<D, C>(
    before: LoaderView<D, C>,
    source: (Seq<Seq<u8>>, Seq<Seq<u8>>),
) -> LoaderView<D, C> {
    LoaderView {
        tiles: LruView { entries: before.tiles.entries.remove(source), ..before.tiles },
        details: LruView { entries: before.details.entries.remove(source), ..before.details },
        pending: before.pending.remove((source, ArtworkVariant::Tile)).remove(
            (source, ArtworkVariant::Detail),
        ),
    }
}

/// `after` is the cache `before` once a cover was inserted.
pub open spec fn cover_inserted<I, D>(
    before: LruView<I, D>,
    after: LruView<I, D>,
    id: I,
    cover: D,
) -> bool {
    &&& after.capacity == before.capacity
    &&& after.clock == lru::tick_after(before.clock)
    &&& lru::entry_inserted(before, after.entries, id, cover)
}

/// A cover that was asked for before its source was invalidated is neither
/// delivered nor written to disk from then on, whatever is invalidated besides.
/// What was asked of another source is not affected.
pub proof fn law_invalidation_outdates_requests<I>(before: Map<I, u64>, ids: Seq<I>, id: I)
    requires
        source::generation_of(before, id) < u64::MAX,
    ensures
        source::is_current(
            source::invalidated(before, ids),
            id,
            source::generation_of(before, id),
        ) <==> !ids.contains(id),
{
    lemma_invalidated(before, ids, id);
}

/// The generation of a source grows exactly when the source is invalidated.
proof fn lemma_invalidated<I>(before: Map<I, u64>, ids: Seq<I>, id: I)
    requires
        source::generation_of(before, id) < u64::MAX,
    ensures
        ids.contains(id) ==> source::generation_of(source::invalidated(before, ids), id)
            > source::generation_of(before, id),
        !ids.contains(id) ==> source::generation_of(source::invalidated(before, ids), id)
            == source::generation_of(before, id),
    decreases ids.len(),
{
    if ids.len() > 0 {
        let rest = ids.drop_last();
        lemma_invalidated(before, rest, id);
        assert(ids =~= rest.push(ids.last()));
        if rest.contains(id) {
            assert(ids[rest.index_of(id)] == id);
        } else if ids.last() == id {
            assert(ids[ids.len() - 1] == id);
        } else if ids.contains(id) {
            assert(rest[ids.index_of(id)] == id);
        }
    }
}

/// A cover that was delivered is resident, so that the next request for it is
/// answered at once with that cover; there is room for as many as before.
pub proof fn law_delivered_cover_is_resident<I, D>(
    before: LruView<I, D>,
    after: LruView<I, D>,
    id: I,
    cover: D,
)
    requires
        cover_inserted(before, after, id, cover),
    ensures
        after.entries.contains_key(id),
        after.entries[id].value == cover,
        after.capacity == before.capacity,
{
}

/// The workers are asked for a cover once, by the first callback that waits for
/// it: a second request for a cover that is not there waits with the first.
pub proof fn law_the_workers_are_asked_once<'a, D, C>(
    before: LoaderView<D, C>,
    between: LoaderView<D, C>,
    after: LoaderView<D, C>,
    cover: ((Seq<Seq<u8>>, Seq<Seq<u8>>), ArtworkVariant),
    first: C,
    second: C,
    first_outcome: RequestOutcome<'a, D, C>,
    second_outcome: RequestOutcome<'a, D, C>,
)
    requires
        requested(before, between, cover, first, first_outcome),
        requested(between, after, cover, second, second_outcome),
        match cover.1 {
            ArtworkVariant::Tile => !before.tiles.entries.contains_key(cover.0),
            ArtworkVariant::Detail => !before.details.entries.contains_key(cover.0),
        },
    ensures
        first_outcome is Queue <==> !before.pending.contains_key(cover),
        first_outcome is Wait <==> before.pending.contains_key(cover),
        second_outcome is Wait,
        after.pending.contains_key(cover),
        !before.pending.contains_key(cover) ==> after.pending[cover]@ == seq![first, second],
        before.pending.contains_key(cover) ==> after.pending[cover]@ == before.pending[cover]@ + seq![
            first,
            second,
        ],
{
    let waiting = before.waiting(cover);
    assert(waiting.push(first).push(second) =~= waiting + seq![first, second]);
    assert(Seq::<C>::empty() + seq![first, second] =~= seq![first, second]);
}

/// A callback that waits for a cover gets it when the workers have decoded it,
/// after those that waited before; then nobody waits for that cover, and the
/// next that asks for it gets it at once.
pub proof fn law_whoever_waits_gets_the_cover<'a, D, C>(
    before: LoaderView<D, C>,
    asked: LoaderView<D, C>,
    decoded: LoaderView<D, C>,
    after: LoaderView<D, C>,
    cover: ((Seq<Seq<u8>>, Seq<Seq<u8>>), ArtworkVariant),
    callback: C,
    next: C,
    texture: D,
    callbacks: Seq<C>,
    outcome: RequestOutcome<'a, D, C>,
    next_outcome: RequestOutcome<'a, D, C>,
)
    requires
        requested(before, asked, cover, callback, outcome),
        !(outcome is Resident),
        delivered(asked, decoded, cover, true, texture, callbacks),
        requested(decoded, after, cover, next, next_outcome),
    ensures
        callbacks.len() > 0 && callbacks.last() == callback,
        before.pending.contains_key(cover) ==> callbacks.drop_last() == before.pending[cover]@,
        !before.pending.contains_key(cover) ==> callbacks.len() == 1,
        !decoded.pending.contains_key(cover),
        next_outcome == RequestOutcome::<'a, D, C>::Resident(&texture, next),
        after.pending == decoded.pending,
{
    assert(callbacks.drop_last() =~= before.waiting(cover));
}

/// What is asked of one cover, and what comes of it, leaves all others as they
/// were: resident or not, and with the same callbacks.
pub proof fn law_other_covers_are_left_alone<'a, D, C>(
    before: LoaderView<D, C>,
    asked: LoaderView<D, C>,
    after: LoaderView<D, C>,
    cover: ((Seq<Seq<u8>>, Seq<Seq<u8>>), ArtworkVariant),
    other: ((Seq<Seq<u8>>, Seq<Seq<u8>>), ArtworkVariant),
    callback: C,
    texture: D,
    current: bool,
    callbacks: Seq<C>,
    outcome: RequestOutcome<'a, D, C>,
)
    requires
        requested(before, asked, cover, callback, outcome),
        delivered(asked, after, cover, current, texture, callbacks),
        other != cover,
    ensures
        after.pending.contains_key(other) <==> before.pending.contains_key(other),
        before.pending.contains_key(other) ==> after.pending[other] == before.pending[other],
        cover.1 == ArtworkVariant::Tile ==> after.details == before.details,
        cover.1 == ArtworkVariant::Detail ==> after.tiles == before.tiles,
{
    assert(asked.pending.remove(cover).contains_key(other) <==> before.pending.remove(
        cover,
    ).contains_key(other));
    assert(before.pending.contains_key(other) ==> asked.pending.remove(cover)[other]
        == before.pending.remove(cover)[other]);
    assert(before.details == before.cache_for(ArtworkVariant::Detail));
    assert(asked.details == asked.cache_for(ArtworkVariant::Detail));
    assert(after.details == after.cache_for(ArtworkVariant::Detail));
    assert(before.tiles == before.cache_for(ArtworkVariant::Tile));
    assert(asked.tiles == asked.cache_for(ArtworkVariant::Tile));
    assert(after.tiles == after.cache_for(ArtworkVariant::Tile));
}

/// A cover of a source that was forgotten is asked of the workers anew, in both
/// sizes; those of other sources stay.
pub proof fn law_a_forgotten_cover_is_read_anew<'a, D, C>(
    before: LoaderView<D, C>,
    after: LoaderView<D, C>,
    source: (Seq<Seq<u8>>, Seq<Seq<u8>>),
    variant: ArtworkVariant,
    callback: C,
    outcome: RequestOutcome<'a, D, C>,
    other: (Seq<Seq<u8>>, Seq<Seq<u8>>),
)
    requires
        requested(forgotten(before, source), after, (source, variant), callback, outcome),
        other != source,
    ensures
        outcome is Queue,
        ({
            let left = forgotten(before, source);
            &&& left.tiles.entries.contains_key(other) <==> before.tiles.entries.contains_key(other)
            &&& left.details.entries.contains_key(other) <==> before.details.entries.contains_key(
                other,
            )
            &&& left.pending.contains_key((other, variant)) <==> before.pending.contains_key(
                (other, variant),
            )
        }),
{
}

} // verus!
