use std::path::PathBuf;

use sustain_ui::artwork::cache_row::{
    load_row, palette_components_from_cache_row, rgb_from_cache_columns, store_artwork,
    ArtworkDimensions, ArtworkPaletteComponents, ArtworkVariant, CachedArtwork, CachedArtworkRow,
    CachedDecode, ColorColumns, RgbColorComponents, StoredArtwork,
};
use sustain_ui::artwork::decode::{
    decode_size, square_crop, textures_for_variant, DecodeSize, SquareCrop,
    DETAIL_TEXTURE_MAX_SIDE, TILE_TEXTURE_MAX_SIDE,
};
use sustain_ui::artwork::loader::{worker_count, LoaderState, RequestOutcome};
use sustain_ui::artwork::lru::LruCache;
use sustain_ui::artwork::source::{
    file_fingerprint, may_store, ArtworkFileFingerprint, ArtworkSource, SourceGenerations,
};

const MAX_ENCODED_ARTWORK_BYTES: usize = 16 * 1024 * 1024;

const VALID_PNG: &[u8] = &[
    0x89, 0x50, 0x4e, 0x47, 0x0d, 0x0a, 0x1a, 0x0a, 0x00, 0x00, 0x00, 0x0d, 0x49, 0x48, 0x44, 0x52,
    0x00, 0x00, 0x00, 0x01, 0x00, 0x00, 0x00, 0x01, 0x08, 0x04, 0x00, 0x00, 0x00, 0xb5, 0x1c, 0x0c,
    0x02, 0x00, 0x00, 0x00, 0x0b, 0x49, 0x44, 0x41, 0x54, 0x78, 0xda, 0x63, 0x64, 0xf8, 0x0f, 0x00,
    0x01, 0x05, 0x01, 0x01, 0x27, 0x18, 0xe3, 0x66, 0x00, 0x00, 0x00, 0x00, 0x49, 0x45, 0x4e, 0x44,
    0xae, 0x42, 0x60, 0x82,
];

fn test_source() -> ArtworkSource {
    ArtworkSource::embedded_track(
        PathBuf::from("Artist/Album/01.flac"),
        PathBuf::from("/tmp/01.flac"),
    )
}

fn other_source() -> ArtworkSource {
    ArtworkSource::embedded_track(
        PathBuf::from("Artist/Album/02.flac"),
        PathBuf::from("/tmp/02.flac"),
    )
}

fn test_fingerprint() -> ArtworkFileFingerprint {
    ArtworkFileFingerprint {
        file_size: 1234,
        mtime_ns: 5678,
    }
}

fn rgb(red: u8, green: u8, blue: u8) -> RgbColorComponents {
    RgbColorComponents { red, green, blue }
}

fn one_pixel() -> ArtworkDimensions {
    ArtworkDimensions {
        width: 1,
        height: 1,
        pixels: 1,
    }
}

fn test_palette() -> ArtworkPaletteComponents {
    ArtworkPaletteComponents {
        background: rgb(1, 2, 3),
        foreground: rgb(250, 251, 252),
        secondary: rgb(80, 90, 100),
    }
}

fn cached_metadata() -> CachedArtwork {
    CachedArtwork {
        dimensions: Some(one_pixel()),
        encoded_bytes_len: Some(VALID_PNG.len()),
        palette: Some(test_palette()),
        ..CachedArtwork::default()
    }
}

fn load(
    row: StoredArtwork,
    fingerprint: ArtworkFileFingerprint,
    variant: ArtworkVariant,
) -> Option<CachedArtworkRow> {
    let row = load_row(row, fingerprint, variant, MAX_ENCODED_ARTWORK_BYTES)?;
    match row.decode(Some(one_pixel())) {
        CachedDecode::Image { .. } => Some(row),
        _ => None,
    }
}

fn tile_row() -> StoredArtwork {
    store_artwork(
        None,
        test_fingerprint(),
        CachedArtwork {
            tile_png: Some(VALID_PNG.to_vec()),
            ..cached_metadata()
        },
    )
}

fn merged_row() -> StoredArtwork {
    store_artwork(
        Some(tile_row()),
        test_fingerprint(),
        CachedArtwork {
            detail_png: Some(VALID_PNG.to_vec()),
            ..cached_metadata()
        },
    )
}

#[test]
fn cache_merges_tile_and_detail_variants_for_same_fingerprint() {
    assert!(
        load(tile_row(), test_fingerprint(), ArtworkVariant::Detail).is_none(),
        "a tile-only cache row must not satisfy a detail request"
    );

    let tile = load(merged_row(), test_fingerprint(), ArtworkVariant::Tile)
        .expect("tile cache hit survives detail merge");
    let (tile_texture, detail_texture) =
        textures_for_variant(ArtworkVariant::Tile, tile.requested_png, None);
    assert!(tile_texture.is_some());
    assert!(detail_texture.is_none());

    let detail = load(merged_row(), test_fingerprint(), ArtworkVariant::Detail)
        .expect("detail cache hit after merge");
    let (tile_texture, detail_texture) =
        textures_for_variant(ArtworkVariant::Detail, None, detail.requested_png);
    assert!(tile_texture.is_none());
    assert!(detail_texture.is_some());
}

#[test]
fn tile_load_ignores_invalid_detail_blob() {
    let stored = || {
        store_artwork(
            None,
            test_fingerprint(),
            CachedArtwork {
                tile_png: Some(VALID_PNG.to_vec()),
                detail_png: Some(vec![0; MAX_ENCODED_ARTWORK_BYTES + 1]),
                ..cached_metadata()
            },
        )
    };

    assert!(
        load(stored(), test_fingerprint(), ArtworkVariant::Tile).is_some(),
        "tile loads should not read or validate the unused detail PNG"
    );
    assert!(
        load(stored(), test_fingerprint(), ArtworkVariant::Detail).is_none(),
        "detail loads still validate the requested detail PNG"
    );
}

#[test]
fn a_changed_file_discards_the_cached_row() {
    let changed = ArtworkFileFingerprint {
        file_size: 1235,
        mtime_ns: 5678,
    };
    let row = store_artwork(
        Some(merged_row()),
        changed,
        CachedArtwork {
            tile_png: Some(VALID_PNG.to_vec()),
            ..cached_metadata()
        },
    );

    assert_eq!(row.detail_png, None);
    assert_eq!(row.tile_png, Some(VALID_PNG.to_vec()));
    assert!(load(merged_row(), changed, ArtworkVariant::Tile).is_none());
    assert!(load(row, changed, ArtworkVariant::Tile).is_some());
}

#[test]
fn a_file_without_artwork_is_remembered_as_such() {
    let row = store_artwork(None, test_fingerprint(), CachedArtwork::default());

    let answer = load_row(
        row,
        test_fingerprint(),
        ArtworkVariant::Tile,
        MAX_ENCODED_ARTWORK_BYTES,
    )
    .expect("the row is found");
    assert_eq!(answer.claimed_dimensions(), None);
    assert_eq!(answer.decode(None), CachedDecode::NoArtwork);
}

#[test]
fn rows_with_unsound_dimensions_are_misses() {
    let row = load_row(
        merged_row(),
        test_fingerprint(),
        ArtworkVariant::Tile,
        MAX_ENCODED_ARTWORK_BYTES,
    )
    .expect("the row is found");
    assert_eq!(row.claimed_dimensions(), Some((1, 1)));
    assert_eq!(row.decode(None), CachedDecode::Miss);
    assert_eq!(
        row.decode(Some(one_pixel())),
        CachedDecode::Image {
            dimensions: Some(one_pixel()),
            encoded_bytes_len: Some(VALID_PNG.len()),
        }
    );
}

#[test]
fn colours_need_all_their_columns_in_range() {
    let columns = |red, green, blue| ColorColumns { red, green, blue };
    assert_eq!(
        rgb_from_cache_columns(columns(Some(1), Some(2), Some(255))),
        Some(rgb(1, 2, 255))
    );
    assert_eq!(rgb_from_cache_columns(columns(Some(1), None, Some(3))), None);
    assert_eq!(
        rgb_from_cache_columns(columns(Some(1), Some(256), Some(3))),
        None
    );
    assert_eq!(
        rgb_from_cache_columns(columns(Some(-1), Some(2), Some(3))),
        None
    );

    let row = tile_row();
    assert_eq!(
        palette_components_from_cache_row(row.background, row.foreground, row.secondary),
        Some(test_palette())
    );
    assert_eq!(
        palette_components_from_cache_row(
            row.background,
            columns(None, None, None),
            row.secondary
        ),
        None
    );
}

#[test]
fn lru_evicts_least_recently_used_when_full() {
    let mut cache = LruCache::new(2);
    cache.insert(1, "a");
    cache.insert(2, "b");
    assert_eq!(cache.get(&1), Some(&"a"));
    cache.insert(3, "c");
    assert_eq!(cache.len(), 2);
    assert!(cache.contains(&1));
    assert!(cache.contains(&3));
    assert!(!cache.contains(&2));
}

#[test]
fn lru_reinsert_refreshes_without_growing_or_evicting() {
    let mut cache = LruCache::new(2);
    cache.insert(1, "a");
    cache.insert(2, "b");
    cache.insert(1, "a2");
    assert_eq!(cache.len(), 2);
    assert_eq!(cache.get(&1), Some(&"a2"));
    cache.insert(3, "c");
    assert!(cache.contains(&1));
    assert!(!cache.contains(&2));
}

#[test]
fn lru_get_miss_and_remove() {
    let mut cache: LruCache<i32, &str> = LruCache::new(2);
    assert_eq!(cache.get(&1), None);
    cache.insert(1, "a");
    assert_eq!(cache.remove(&1), Some("a"));
    assert!(!cache.contains(&1));
    assert_eq!(cache.remove(&1), None);
}

#[test]
fn lru_capacity_is_clamped_to_at_least_one() {
    let mut cache = LruCache::new(0);
    cache.insert(1, "a");
    cache.insert(2, "b");
    assert_eq!(cache.len(), 1);
    assert!(cache.contains(&2));
}

#[test]
fn the_oldest_use_is_evicted_first() {
    let mut cache = LruCache::new(3);
    for key in 1..=3 {
        cache.insert(key, key);
    }
    assert_eq!(cache.get(&1), Some(&1));
    cache.evict_least_recently_used();
    assert!(!cache.contains(&2));
    cache.evict_least_recently_used();
    assert!(!cache.contains(&3));
    assert!(cache.contains(&1));
    assert_eq!(cache.len(), 1);
}

#[test]
fn cache_keys_are_the_bytes_of_the_relative_path() {
    assert_eq!(
        test_source().cache_key(),
        ("embedded-track", b"Artist/Album/01.flac".to_vec())
    );
}

#[test]
fn fingerprints_hold_the_size_and_the_time_in_nanoseconds() {
    assert_eq!(
        file_fingerprint(10, 2, 5),
        Some(ArtworkFileFingerprint {
            file_size: 10,
            mtime_ns: 2_000_000_005,
        })
    );
    assert_eq!(file_fingerprint(u64::MAX, 2, 5), None);
}

#[test]
fn an_invalidated_source_stores_nothing_that_was_read_before() {
    let mut generations = SourceGenerations::new();
    let requested = generations.source_generation(&test_source());
    assert_eq!(requested, 0);
    assert!(may_store(
        &generations,
        &test_source(),
        requested,
        true,
        true
    ));
    assert!(!may_store(
        &generations,
        &test_source(),
        requested,
        false,
        true
    ));

    generations.invalidate(&test_source());

    assert_eq!(generations.source_generation(&test_source()), 1);
    assert_eq!(generations.source_generation(&other_source()), 0);
    generations.invalidate(&other_source());
    generations.invalidate(&test_source());
    assert_eq!(generations.source_generation(&test_source()), 2);
    assert!(!may_store(
        &generations,
        &test_source(),
        requested,
        true,
        true
    ));
}

#[test]
fn worker_counts_stay_within_their_bounds() {
    assert_eq!(worker_count(None), 4);
    assert_eq!(worker_count(Some(1)), 4);
    assert_eq!(worker_count(Some(6)), 6);
    assert_eq!(worker_count(Some(64)), 8);
}

#[test]
fn requests_for_one_cover_share_a_decode() {
    let mut loader: LoaderState<&str, u32> = LoaderState::new();

    assert!(matches!(
        loader.request_variant(&test_source(), ArtworkVariant::Tile, 1),
        RequestOutcome::Queue
    ));
    assert!(matches!(
        loader.request_variant(&test_source(), ArtworkVariant::Tile, 2),
        RequestOutcome::Wait
    ));
    assert!(matches!(
        loader.request_variant(&test_source(), ArtworkVariant::Detail, 3),
        RequestOutcome::Queue
    ));

    let waiting = loader.deliver_result(0, 0, &test_source(), ArtworkVariant::Tile, "tile");
    assert_eq!(waiting, vec![1, 2]);
    assert_eq!(
        loader.cached_variant(&test_source(), ArtworkVariant::Tile),
        Some(&"tile")
    );
    assert_eq!(
        loader.cached_variant(&test_source(), ArtworkVariant::Detail),
        None
    );
    assert!(matches!(
        loader.request_variant(&test_source(), ArtworkVariant::Tile, 4),
        RequestOutcome::Resident(&"tile", 4)
    ));
}

#[test]
fn a_cover_that_was_invalidated_meanwhile_is_not_kept() {
    let mut loader: LoaderState<&str, u32> = LoaderState::new();
    loader.request_variant(&test_source(), ArtworkVariant::Tile, 1);
    loader.invalidate(&test_source());

    let waiting = loader.deliver_result(1, 0, &test_source(), ArtworkVariant::Tile, "stale");
    assert_eq!(waiting, Vec::<u32>::new());
    assert_eq!(
        loader.cached_variant(&test_source(), ArtworkVariant::Tile),
        None
    );
}

#[test]
fn a_primed_source_is_resident_in_both_sizes() {
    let mut loader: LoaderState<&str, u32> = LoaderState::new();
    loader.prime(&test_source(), "tile", "detail");

    assert_eq!(
        loader.cached_variant(&test_source(), ArtworkVariant::Tile),
        Some(&"tile")
    );
    assert_eq!(
        loader.cached_variant(&test_source(), ArtworkVariant::Detail),
        Some(&"detail")
    );
    assert_eq!(
        loader.cached_variant(&other_source(), ArtworkVariant::Tile),
        None
    );
}

#[test]
fn small_pictures_are_decoded_as_they_are() {
    let size = |width, height| {
        decode_size(
            ArtworkDimensions {
                width,
                height,
                pixels: u64::from(width) * u64::from(height),
            },
            DETAIL_TEXTURE_MAX_SIDE,
        )
    };
    assert_eq!(
        size(396, 1000),
        DecodeSize::AsIs {
            width: 396,
            height: 1000,
        }
    );
    assert_eq!(
        size(1000, 500),
        DecodeSize::Shrunk {
            width: 1000,
            height: 500,
            shorter_side: 500,
        }
    );
    assert_eq!(size(0, 10), DecodeSize::Refused);
    assert_eq!(size(10, u32::MAX), DecodeSize::Refused);
    assert_eq!(decode_size(one_pixel(), 0), DecodeSize::Refused);
    assert_eq!(DETAIL_TEXTURE_MAX_SIDE, 3 * TILE_TEXTURE_MAX_SIDE);
}

#[test]
fn covers_are_cut_to_their_middle_square() {
    assert_eq!(
        square_crop(200, 133),
        SquareCrop {
            x_offset: 33,
            y_offset: 0,
            side: 133,
        }
    );
    assert_eq!(
        square_crop(100, 104),
        SquareCrop {
            x_offset: 0,
            y_offset: 2,
            side: 100,
        }
    );
    assert_eq!(
        square_crop(132, 132),
        SquareCrop {
            x_offset: 0,
            y_offset: 0,
            side: 132,
        }
    );
}
