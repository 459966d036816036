//! A tile of the album grid. Tiles are reused: scrolling binds a tile to
//! another album, and a cover that was asked for before then must not appear.

use vstd::prelude::*;

use crate::generations;
use crate::albums::grid::{ALBUM_TILE_COVER_SIZE, ALBUM_TILE_COVER_SIZE_EXPANDED};
use crate::albums::model::AlbumKey;
use crate::artwork::source::ArtworkSource;
use crate::keyed::MapKey;

verus! {

/// What a tile is bound to.
#[derive(Debug)]
pub struct AlbumTileSlot {
    pub visible: bool,
    pub bound_album_key: Option<AlbumKey>,
    pub bound_artwork_source: Option<ArtworkSource>,
    pub artwork_binding_generation: u64,
    pub cover_size: i32,
    pub is_selected: bool,
}

/// What becomes of a tile's cover.
#[derive(Clone, Copy, Debug, PartialEq, Eq, Structural)]
pub enum TileCover {
    /// It stays.
    Keep,
    /// It gives way to the placeholder.
    Clear,
    /// It is looked up, and asked for where it is not resident, under this
    /// generation.
    Load(u64),
}

/// The source by which a cover is known.
pub open spec fn source_id(source: Option<ArtworkSource>) -> Option<
    (Seq<Seq<u8>>, Seq<Seq<u8>>),
> {
    match source {
        Some(source) => Some(source@),
        None => None,
    }
}

/// The album to which a tile is bound.
pub open spec fn key_id(key: Option<AlbumKey>) -> Option<(Seq<char>, Seq<char>)> {
    match key {
        Some(key) => Some(key@),
        None => None,
    }
}

/// The size of a tile's cover.
pub open spec fn cover_size_of(selected: bool) -> i32 {
    if selected {
        ALBUM_TILE_COVER_SIZE_EXPANDED
    } else {
        ALBUM_TILE_COVER_SIZE
    }
}

fn same_source(left: &Option<ArtworkSource>, right: &Option<ArtworkSource>) -> (same: bool)
    ensures
        same == (source_id(*left) == source_id(*right)),
{
    match (left, right) {
        (Some(left), Some(right)) => left.same_key(right),
        (None, None) => true,
        _ => false,
    }
}

impl AlbumTileSlot {
    /// The cover is as large as the selection wants it.
    pub open spec fn wf(&self) -> bool {
        self.cover_size == cover_size_of(self.is_selected)
    }

    /// A tile that is bound to nothing.
    pub fn new() -> (slot: Self)
        ensures
            slot.wf(),
            !slot.visible,
            slot.bound_album_key is None,
            slot.bound_artwork_source is None,
            slot.artwork_binding_generation == 0,
            !slot.is_selected,
    {
        AlbumTileSlot {
            visible: false,
            bound_album_key: None,
            bound_artwork_source: None,
            artwork_binding_generation: 0,
            cover_size: ALBUM_TILE_COVER_SIZE,
            is_selected: false,
        }
    }

    /// Selects the tile or not. Returns whether its look changes.
    pub fn set_selected(&mut self, is_selected: bool) -> (changed: bool)
        requires
            old(self).wf(),
        ensures
            final(self).wf(),
            changed == (old(self).is_selected != is_selected),
            final(self).is_selected == is_selected,
            final(self).visible == old(self).visible,
            final(self).bound_album_key == old(self).bound_album_key,
            final(self).bound_artwork_source == old(self).bound_artwork_source,
            final(self).artwork_binding_generation == old(self).artwork_binding_generation,
    {
        if self.is_selected == is_selected {
            return false;
        }
        self.is_selected = is_selected;
        self.cover_size = if is_selected {
            ALBUM_TILE_COVER_SIZE_EXPANDED
        } else {
            ALBUM_TILE_COVER_SIZE
        };
        true
    }

    fn bump_artwork_generation(&mut self) -> (generation: u64)
        ensures
            generation == generations::next_generation(old(self).artwork_binding_generation),
            *final(self) == (AlbumTileSlot { artwork_binding_generation: generation, ..*old(self) }),
    {
        self.artwork_binding_generation = self.artwork_binding_generation.wrapping_add(1);
        self.artwork_binding_generation
    }

    /// What becomes of the cover when the tile is bound to a source: one of the
    /// same source stays, unless it is to be read anew.
    pub open spec fn covers(
        self,
        after: AlbumTileSlot,
        source: Option<ArtworkSource>,
        refresh_artwork: bool,
        cover: TileCover,
    ) -> bool {
        let keep = source_id(self.bound_artwork_source) == source_id(source) && !refresh_artwork;
        let generation = generations::next_generation(self.artwork_binding_generation);
        &&& after.bound_artwork_source == if keep {
            self.bound_artwork_source
        } else {
            source
        }
        &&& after.artwork_binding_generation == if keep {
            self.artwork_binding_generation
        } else {
            generation
        }
        &&& cover == if keep {
            TileCover::Keep
        } else if source is None {
            TileCover::Clear
        } else {
            TileCover::Load(generation)
        }
    }

    /// Binds the tile to an album. Returns whether its look changes with the
    /// selection, and what becomes of its cover. A cover of the same source
    /// stays, unless it is to be read anew.
    pub fn bind(
        &mut self,
        key: &AlbumKey,
        source: Option<ArtworkSource>,
        is_selected: bool,
        refresh_artwork: bool,
    ) -> (result: (bool, TileCover))
        requires
            old(self).wf(),
        ensures
            final(self).wf(),
            final(self).visible,
            key_id(final(self).bound_album_key) == Some(key@),
            final(self).is_selected == is_selected,
            result.0 == (old(self).is_selected != is_selected),
            old(self).covers(*final(self), source, refresh_artwork, result.1),
    {
        self.visible = true;
        self.bound_album_key = Some(key.clone());
        let changed = self.set_selected(is_selected);
        if same_source(&self.bound_artwork_source, &source) && !refresh_artwork {
            return (changed, TileCover::Keep);
        }
        let has_source = source.is_some();
        self.bound_artwork_source = source;
        let generation: u64 = self.bump_artwork_generation();
        if has_source {
            (changed, TileCover::Load(generation))
        } else {
            (changed, TileCover::Clear)
        }
    }

    /// `after` is the tile once it is bound to nothing; `result` tells whether
    /// its look changes with the selection, and what becomes of its cover.
    pub open spec fn empties(&self, result: (bool, TileCover), after: Self) -> bool {
        &&& !after.visible
        &&& after.bound_album_key is None
        &&& after.bound_artwork_source is None
        &&& !after.is_selected
        &&& result.0 == self.is_selected
        &&& result.1 == if self.bound_artwork_source is Some {
            TileCover::Clear
        } else {
            TileCover::Keep
        }
        &&& after.artwork_binding_generation == if self.bound_artwork_source is Some {
            generations::next_generation(self.artwork_binding_generation)
        } else {
            self.artwork_binding_generation
        }
    }

    /// Binds the tile to nothing. Returns whether its look changes with the
    /// selection, and what becomes of its cover.
    pub fn show_placeholder(&mut self) -> (result: (bool, TileCover))
        requires
            old(self).wf(),
        ensures
            final(self).wf(),
            old(self).empties(result, *final(self)),
    {
        self.visible = false;
        self.bound_album_key = None;
        let changed = self.set_selected(false);
        if self.bound_artwork_source.is_some() {
            self.bound_artwork_source = None;
            self.bump_artwork_generation();
            (changed, TileCover::Clear)
        } else {
            (changed, TileCover::Keep)
        }
    }

    /// Whether a cover that was asked for under this generation may appear.
    pub open spec fn takes(&self, generation: u64) -> bool {
        self.artwork_binding_generation == generation
    }

    /// Whether a cover that was asked for under this generation may appear.
    pub fn accepts(&self, generation: u64) -> (accepts: bool)
        ensures
            accepts == self.takes(generation),
    {
        self.artwork_binding_generation == generation
    }
}

/// A cover that was asked for before the tile was bound to another source does
/// not appear on it, however often it is rebound, short of as often as there
/// are generations.
pub proof fn law_rebinding_outdates_covers(asked: AlbumTileSlot, now: AlbumTileSlot, bindings: nat)
    requires
        0 < bindings < generations::generation_count(),
        now.artwork_binding_generation == generations::later_generation(
            asked.artwork_binding_generation,
            bindings,
        ),
    ensures
        !now.takes(asked.artwork_binding_generation),
{
    generations::law_generations_differ(asked.artwork_binding_generation, bindings);
}

/// A tile shows the cover of the source to which it is bound: it keeps the cover
/// that it has iff that is of the same source and is not to be read anew, and
/// what was asked for before is refused iff it does not keep it.
pub proof fn law_a_tile_shows_the_cover_of_its_source(
    before: AlbumTileSlot,
    after: AlbumTileSlot,
    source: Option<ArtworkSource>,
    refresh_artwork: bool,
    cover: TileCover,
)
    requires
        before.covers(after, source, refresh_artwork, cover),
    ensures
        source_id(after.bound_artwork_source) == source_id(source),
        cover == TileCover::Keep <==> source_id(before.bound_artwork_source) == source_id(source)
            && !refresh_artwork,
        after.takes(before.artwork_binding_generation) <==> cover == TileCover::Keep,
        cover matches TileCover::Load(generation) ==> source is Some && after.takes(generation),
        cover == TileCover::Clear ==> source is None,
        source is Some && cover != TileCover::Keep ==> cover is Load,
{
}

/// A tile that is bound to nothing takes no cover that was asked for before, and
/// clears the one that it shows once.
pub proof fn law_an_empty_tile_takes_no_cover(
    before: AlbumTileSlot,
    between: AlbumTileSlot,
    after: AlbumTileSlot,
    first: (bool, TileCover),
    second: (bool, TileCover),
)
    requires
        before.empties(first, between),
        between.empties(second, after),
    ensures
        first.1 == TileCover::Clear <==> before.bound_artwork_source is Some,
        second == (false, TileCover::Keep),
        before.bound_artwork_source is Some ==> !between.takes(before.artwork_binding_generation),
        before.bound_artwork_source is None ==> between.takes(before.artwork_binding_generation),
        after.artwork_binding_generation == between.artwork_binding_generation,
        !after.visible && !after.is_selected && after.bound_album_key is None,
{
}

} // verus!
