//! Where a cover comes from, and how often it was invalidated.

use std::path::PathBuf;

use vstd::prelude::*;

use crate::keyed::{KeyedList, MapKey};
use crate::paths;
use crate::paths::{bytes_of_path, same_path};

verus! {

/// The source of a cover.
#[derive(Debug)]
pub enum ArtworkSource {
    /// The artwork embedded in an audio file.
    EmbeddedTrack {
        /// The stable key of this source: the path below the library's root
        /// where there is one, so that it survives a move of the library.
        cache_path: PathBuf,
        /// Absolute path to read on this machine.
        file_path: PathBuf,
    },
}

/// Two sources are the same iff their paths have the same components.
impl View for ArtworkSource {
    type V = (Seq<Seq<u8>>, Seq<Seq<u8>>);

    open spec fn view(&self) -> (Seq<Seq<u8>>, Seq<Seq<u8>>) {
        match self {
            ArtworkSource::EmbeddedTrack { cache_path, file_path } => (
                paths::path_components(paths::path_bytes(*cache_path)),
                paths::path_components(paths::path_bytes(*file_path)),
            ),
        }
    }
}

impl MapKey for ArtworkSource {
    fn same_key(&self, other: &Self) -> (same: bool) {
        match (self, other) {
            (
                ArtworkSource::EmbeddedTrack { cache_path, file_path },
                ArtworkSource::EmbeddedTrack { cache_path: other_cache, file_path: other_file },
            ) => same_path(cache_path, other_cache) && same_path(file_path, other_file),
        }
    }
}

impl Clone for ArtworkSource {
    fn clone(&self) -> (copy: Self)
        ensures
            copy@ == self@,
            copy.key_bytes() == self.key_bytes(),
            copy.file_bytes() == self.file_bytes(),
    {
        match self {
            ArtworkSource::EmbeddedTrack { cache_path, file_path } => ArtworkSource::EmbeddedTrack {
                cache_path: cache_path.clone(),
                file_path: file_path.clone(),
            },
        }
    }
}

impl ArtworkSource {
    /// The bytes of the path by which the source is known.
    pub open spec fn key_bytes(&self) -> Seq<u8> {
        match self {
            ArtworkSource::EmbeddedTrack { cache_path, .. } => paths::path_bytes(*cache_path),
        }
    }

    /// The bytes of the path that is read.
    pub open spec fn file_bytes(&self) -> Seq<u8> {
        match self {
            ArtworkSource::EmbeddedTrack { file_path, .. } => paths::path_bytes(*file_path),
        }
    }

    /// The artwork embedded in an audio file.
    pub fn embedded_track(cache_path: PathBuf, file_path: PathBuf) -> (source: Self)
        ensures
            source == (ArtworkSource::EmbeddedTrack { cache_path, file_path }),
    {
        ArtworkSource::EmbeddedTrack { cache_path, file_path }
    }

    /// The kind and the key under which the cache on disk files the source.
    pub fn cache_key(&self) -> (key: (&'static str, Vec<u8>))
        ensures
            key.0@ == "embedded-track"@,
            key.1@ == self.key_bytes(),
    {
        match self {
            ArtworkSource::EmbeddedTrack { cache_path, .. } => (
                "embedded-track",
                bytes_of_path(cache_path),
            ),
        }
    }
}

/// What tells whether a file has changed: its size and when it was modified.
#[derive(Clone, Copy, Debug, PartialEq, Eq, Structural)]
pub struct ArtworkFileFingerprint {
    pub file_size: i64,
    pub mtime_ns: i64,
}

/// `value`, or the nearest number that an `i64` can hold.
pub open spec fn saturated(value: int) -> int {
    if value > i64::MAX {
        i64::MAX as int
    } else if value < i64::MIN {
        i64::MIN as int
    } else {
        value
    }
}

fn saturate(value: i128) -> (result: i64)
    ensures
        result == saturated(value as int),
{
    if value > i64::MAX as i128 {
        i64::MAX
    } else if value < i64::MIN as i128 {
        i64::MIN
    } else {
        value as i64
    }
}

/// The fingerprint of a file with this length and this time of modification.
pub open spec fn fingerprint_of(len: u64, mtime: i64, mtime_nsec: i64) -> Option<
    ArtworkFileFingerprint,
> {
    if len > i64::MAX {
        None
    } else {
        Some(
            ArtworkFileFingerprint {
                file_size: len as i64,
                mtime_ns: saturated(saturated(mtime * 1_000_000_000) + mtime_nsec) as i64,
            },
        )
    }
}

/// The fingerprint of a file with this length and this time of modification.
/// There is none for a file that is too long for the cache to hold its length.
pub fn file_fingerprint(len: u64, mtime: i64, mtime_nsec: i64) -> (fingerprint: Option<
    ArtworkFileFingerprint,
>)
    ensures
        fingerprint == fingerprint_of(len, mtime, mtime_nsec),
{
    if len > i64::MAX as u64 {
        return None;
    }
    let whole: i64 = saturate(mtime as i128 * 1_000_000_000);
    let mtime_ns: i64 = saturate(whole as i128 + mtime_nsec as i128);
    Some(ArtworkFileFingerprint { file_size: len as i64, mtime_ns })
}

/// How often each source was invalidated.
pub struct SourceGenerations {
    counts: KeyedList<ArtworkSource, u64>,
}

impl View for SourceGenerations {
    type V = Map<(Seq<Seq<u8>>, Seq<Seq<u8>>), u64>;

    closed spec fn view(&self) -> Map<(Seq<Seq<u8>>, Seq<Seq<u8>>), u64> {
        self.counts@
    }
}

/// The generation of a source: zero until it is invalidated.
pub open spec fn generation_of<I>(counts: Map<I, u64>, id: I) -> u64 {
    if counts.contains_key(id) {
        counts[id]
    } else {
        0
    }
}

/// The generation that follows `generation`, where one does.
pub open spec fn generation_after(generation: u64) -> u64 {
    if generation == u64::MAX {
        u64::MAX
    } else {
        (generation + 1) as u64
    }
}

/// A source is still in the generation for which a cover was asked.
pub open spec fn is_current<I>(counts: Map<I, u64>, id: I, requested: u64) -> bool {
    generation_of(counts, id) == requested
}

/// The generations after some sources were invalidated, one after another.
pub open spec fn invalidated<I>(counts: Map<I, u64>, ids: Seq<I>) -> Map<I, u64>
    decreases ids.len(),
{
    if ids.len() == 0 {
        counts
    } else {
        let earlier = invalidated(counts, ids.drop_last());
        earlier.insert(ids.last(), generation_after(generation_of(earlier, ids.last())))
    }
}

impl SourceGenerations {
    pub closed spec fn wf(&self) -> bool {
        self.counts.wf()
    }

    /// No source has been invalidated yet.
    pub fn new() -> (generations: Self)
        ensures
            generations.wf(),
            generations@ == Map::<(Seq<Seq<u8>>, Seq<Seq<u8>>), u64>::empty(),
    {
        SourceGenerations { counts: KeyedList::new() }
    }

    /// The generation of a source.
    pub fn source_generation(&self, source: &ArtworkSource) -> (generation: u64)
        requires
            self.wf(),
        ensures
            generation == generation_of(self@, source@),
    {
        match self.counts.get(source) {
            Some(generation) => *generation,
            None => 0,
        }
    }

    /// Starts a new generation of a source.
    pub fn invalidate(&mut self, source: &ArtworkSource)
        requires
            old(self).wf(),
        ensures
            final(self).wf(),
            final(self)@ == invalidated(old(self)@, seq![source@]),
    {
        let generation: u64 = self.source_generation(source);
        self.counts.insert(source.clone(), generation.saturating_add(1));
        assert(seq![source@].drop_last() =~= Seq::empty());
        assert(invalidated(old(self)@, Seq::empty()) == old(self)@);
    }
}

/// Whether a cover that was decoded for `requested` may still be written to the
/// cache on disk: not when the source was invalidated meanwhile, nor when there
/// is no cache or no fingerprint to file it under.
pub fn may_store(
    generations: &SourceGenerations,
    source: &ArtworkSource,
    requested: u64,
    has_cache: bool,
    has_fingerprint: bool,
) -> (store: bool)
    requires
        generations.wf(),
    ensures
        store == (is_current(generations@, source@, requested) && has_cache && has_fingerprint),
{
    generations.source_generation(source) == requested && has_cache && has_fingerprint
}

/// Two files of different lengths, or of times that differ and that nanoseconds
/// can be counted to, have different fingerprints: none is taken for the other.
pub proof fn law_a_changed_file_has_another_fingerprint(
    len: u64,
    other_len: u64,
    mtime: i64,
    other_mtime: i64,
    nsec: i64,
    other_nsec: i64,
)
    requires
        len <= i64::MAX,
        other_len <= i64::MAX,
        0 <= mtime < 9_000_000_000,
        0 <= other_mtime < 9_000_000_000,
        0 <= nsec < 1_000_000_000,
        0 <= other_nsec < 1_000_000_000,
    ensures
        fingerprint_of(len, mtime, nsec) == fingerprint_of(other_len, other_mtime, other_nsec) <==>
            len == other_len && mtime == other_mtime && nsec == other_nsec,
        fingerprint_of(len, mtime, nsec) matches Some(fingerprint) && fingerprint.file_size == len
            && fingerprint.mtime_ns == mtime * 1_000_000_000 + nsec,
{
}

/// A file that is too long for the cache to hold its length has no fingerprint.
pub proof fn law_a_file_beyond_measure_has_no_fingerprint(len: u64, mtime: i64, nsec: i64)
    ensures
        fingerprint_of(len, mtime, nsec) is None <==> len > 0x7fff_ffff_ffff_ffff,
{
}

} // verus!
