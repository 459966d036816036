//! The rows of the cache on disk: what a row keeps of a source when another
//! cover is stored for it, and what a row answers to a request.

use vstd::prelude::*;

use crate::artwork::source::ArtworkFileFingerprint;

verus! {

/// The layout of the rows. Rows of another layout are not read.
pub const CACHE_SCHEMA_VERSION: i64 = 2;

/// The size in which a cover is wanted.
#[derive(Clone, Copy, Debug, PartialEq, Eq, Hash, Structural)]
pub enum ArtworkVariant {
    /// The small cover of the grid and of the track that is playing.
    Tile,
    /// The large cover of panels and overlays.
    Detail,
}

/// The size of an image.
#[derive(Clone, Copy, Debug, PartialEq, Eq, Structural)]
pub struct ArtworkDimensions {
    pub width: u32,
    pub height: u32,
    pub pixels: u64,
}

/// A color.
#[derive(Clone, Copy, Debug, PartialEq, Eq, Structural)]
pub struct RgbColorComponents {
    pub red: u8,
    pub green: u8,
    pub blue: u8,
}

/// The colors drawn from a cover.
#[derive(Clone, Copy, Debug, PartialEq, Eq, Structural)]
pub struct ArtworkPaletteComponents {
    pub background: RgbColorComponents,
    pub foreground: RgbColorComponents,
    pub secondary: RgbColorComponents,
}

/// The three columns that hold a color.
#[derive(Clone, Copy, Debug, PartialEq, Eq, Structural)]
pub struct ColorColumns {
    pub red: Option<i64>,
    pub green: Option<i64>,
    pub blue: Option<i64>,
}

/// What a decode leaves for the cache.
#[derive(Debug, Default)]
pub struct CachedArtwork {
    pub dimensions: Option<ArtworkDimensions>,
    pub encoded_bytes_len: Option<usize>,
    pub tile_png: Option<Vec<u8>>,
    pub detail_png: Option<Vec<u8>>,
    pub palette: Option<ArtworkPaletteComponents>,
}

/// A row of the cache.
#[derive(Debug)]
pub struct StoredArtwork {
    pub fingerprint: ArtworkFileFingerprint,
    pub format_version: i64,
    pub original_width: Option<i64>,
    pub original_height: Option<i64>,
    pub encoded_bytes: Option<i64>,
    pub tile_png: Option<Vec<u8>>,
    pub detail_png: Option<Vec<u8>>,
    pub background: ColorColumns,
    pub foreground: ColorColumns,
    pub secondary: ColorColumns,
}

/// The contents of a [`StoredArtwork`].
#[verifier::ext_equal]
pub struct StoredView {
    pub fingerprint: ArtworkFileFingerprint,
    pub format_version: i64,
    pub original_width: Option<i64>,
    pub original_height: Option<i64>,
    pub encoded_bytes: Option<i64>,
    pub tile_png: Option<Seq<u8>>,
    pub detail_png: Option<Seq<u8>>,
    pub background: ColorColumns,
    pub foreground: ColorColumns,
    pub secondary: ColorColumns,
}

/// The bytes of an image that may be absent.
pub open spec fn bytes_view(bytes: Option<Vec<u8>>) -> Option<Seq<u8>> {
    match bytes {
        Some(bytes) => Some(bytes@),
        None => None,
    }
}

impl View for StoredArtwork {
    type V = StoredView;

    open spec fn view(&self) -> StoredView {
        StoredView {
            fingerprint: self.fingerprint,
            format_version: self.format_version,
            original_width: self.original_width,
            original_height: self.original_height,
            encoded_bytes: self.encoded_bytes,
            tile_png: bytes_view(self.tile_png),
            detail_png: bytes_view(self.detail_png),
            background: self.background,
            foreground: self.foreground,
            secondary: self.secondary,
        }
    }
}

/// The columns of a color that may be absent.
pub open spec fn columns_of(color: Option<RgbColorComponents>) -> ColorColumns {
    match color {
        Some(color) => ColorColumns {
            red: Some(color.red as i64),
            green: Some(color.green as i64),
            blue: Some(color.blue as i64),
        },
        None => ColorColumns { red: None, green: None, blue: None },
    }
}

fn color_columns(color: Option<RgbColorComponents>) -> (columns: ColorColumns)
    ensures
        columns == columns_of(color),
{
    match color {
        Some(color) => ColorColumns {
            red: Some(color.red as i64),
            green: Some(color.green as i64),
            blue: Some(color.blue as i64),
        },
        None => ColorColumns { red: None, green: None, blue: None },
    }
}

/// The row that a cover makes where its source has none yet.
pub open spec fn fresh_row(
    fingerprint: ArtworkFileFingerprint,
    cached: CachedArtwork,
) -> StoredView {
    StoredView {
        fingerprint,
        format_version: CACHE_SCHEMA_VERSION,
        original_width: match cached.dimensions {
            Some(dimensions) => Some(dimensions.width as i64),
            None => None,
        },
        original_height: match cached.dimensions {
            Some(dimensions) => Some(dimensions.height as i64),
            None => None,
        },
        encoded_bytes: match cached.encoded_bytes_len {
            Some(len) if len <= i64::MAX => Some(len as i64),
            _ => None,
        },
        tile_png: bytes_view(cached.tile_png),
        detail_png: bytes_view(cached.detail_png),
        background: columns_of(
            match cached.palette {
                Some(palette) => Some(palette.background),
                None => None,
            },
        ),
        foreground: columns_of(
            match cached.palette {
                Some(palette) => Some(palette.foreground),
                None => None,
            },
        ),
        secondary: columns_of(
            match cached.palette {
                Some(palette) => Some(palette.secondary),
                None => None,
            },
        ),
    }
}

/// The new value of a column, or the old one where the new one is absent.
pub open spec fn coalesced<T>(new: Option<T>, old: Option<T>) -> Option<T> {
    if new is Some {
        new
    } else {
        old
    }
}

pub open spec fn coalesced_columns(new: ColorColumns, old: ColorColumns) -> ColorColumns {
    ColorColumns {
        red: coalesced(new.red, old.red),
        green: coalesced(new.green, old.green),
        blue: coalesced(new.blue, old.blue),
    }
}

/// The row of a source after a cover is stored for it. A row of the same file
/// and layout keeps the columns that the cover leaves open; any other row is
/// replaced as a whole.
pub open spec fn merged_row(existing: Option<StoredView>, new: StoredView) -> StoredView {
    match existing {
        Some(old) if old.fingerprint == new.fingerprint && old.format_version
            == new.format_version => StoredView {
            original_width: coalesced(new.original_width, old.original_width),
            original_height: coalesced(new.original_height, old.original_height),
            encoded_bytes: coalesced(new.encoded_bytes, old.encoded_bytes),
            tile_png: coalesced(new.tile_png, old.tile_png),
            detail_png: coalesced(new.detail_png, old.detail_png),
            background: coalesced_columns(new.background, old.background),
            foreground: coalesced_columns(new.foreground, old.foreground),
            secondary: coalesced_columns(new.secondary, old.secondary),
            ..new
        },
        _ => new,
    }
}

fn coalesce(new: Option<i64>, old: Option<i64>) -> (value: Option<i64>)
    ensures
        value == coalesced(new, old),
{
    if new.is_some() {
        new
    } else {
        old
    }
}

fn coalesce_columns(new: ColorColumns, old: ColorColumns) -> (columns: ColorColumns)
    ensures
        columns == coalesced_columns(new, old),
{
    ColorColumns {
        red: coalesce(new.red, old.red),
        green: coalesce(new.green, old.green),
        blue: coalesce(new.blue, old.blue),
    }
}

fn coalesce_bytes(new: Option<Vec<u8>>, old: Option<Vec<u8>>) -> (bytes: Option<Vec<u8>>)
    ensures
        bytes_view(bytes) == coalesced(bytes_view(new), bytes_view(old)),
{
    if new.is_some() {
        new
    } else {
        old
    }
}

/// The row of a source after a cover is stored for it.
pub fn store_artwork(
    existing: Option<StoredArtwork>,
    fingerprint: ArtworkFileFingerprint,
    cached: CachedArtwork,
) -> (row: StoredArtwork)
    ensures
        row@ == merged_row(
            match existing {
                Some(old) => Some(old@),
                None => None,
            },
            fresh_row(fingerprint, cached),
        ),
{
    let (original_width, original_height) = match cached.dimensions {
        Some(dimensions) => (Some(dimensions.width as i64), Some(dimensions.height as i64)),
        None => (None, None),
    };
    let encoded_bytes: Option<i64> = match cached.encoded_bytes_len {
        Some(len) => {
            if len as u64 <= i64::MAX as u64 {
                Some(len as i64)
            } else {
                None
            }
        },
        None => None,
    };
    let (background, foreground, secondary) = match cached.palette {
        Some(palette) => (
            Some(palette.background),
            Some(palette.foreground),
            Some(palette.secondary),
        ),
        None => (None, None, None),
    };
    let new = StoredArtwork {
        fingerprint,
        format_version: CACHE_SCHEMA_VERSION,
        original_width,
        original_height,
        encoded_bytes,
        tile_png: cached.tile_png,
        detail_png: cached.detail_png,
        background: color_columns(background),
        foreground: color_columns(foreground),
        secondary: color_columns(secondary),
    };
    match existing {
        Some(old) => {
            if old.fingerprint == new.fingerprint && old.format_version == new.format_version {
                StoredArtwork {
                    fingerprint: new.fingerprint,
                    format_version: new.format_version,
                    original_width: coalesce(new.original_width, old.original_width),
                    original_height: coalesce(new.original_height, old.original_height),
                    encoded_bytes: coalesce(new.encoded_bytes, old.encoded_bytes),
                    tile_png: coalesce_bytes(new.tile_png, old.tile_png),
                    detail_png: coalesce_bytes(new.detail_png, old.detail_png),
                    background: coalesce_columns(new.background, old.background),
                    foreground: coalesce_columns(new.foreground, old.foreground),
                    secondary: coalesce_columns(new.secondary, old.secondary),
                }
            } else {
                new
            }
        },
        None => new,
    }
}

/// What a row answers to a request for one size.
#[derive(Debug)]
pub struct CachedArtworkRow {
    pub original_width: Option<i64>,
    pub original_height: Option<i64>,
    pub encoded_bytes_len: Option<i64>,
    pub requested_png: Option<Vec<u8>>,
    pub other_variant_present: bool,
    pub palette: Option<ArtworkPaletteComponents>,
}

/// Whether a column holds a color component.
pub open spec fn is_component(value: Option<i64>) -> bool {
    value matches Some(value) && 0 <= value <= 255
}

/// The color of three columns: none unless each holds a component.
pub open spec fn color_of(columns: ColorColumns) -> Option<RgbColorComponents> {
    if is_component(columns.red) && is_component(columns.green) && is_component(columns.blue) {
        Some(
            RgbColorComponents {
                red: columns.red->0 as u8,
                green: columns.green->0 as u8,
                blue: columns.blue->0 as u8,
            },
        )
    } else {
        None
    }
}

/// The color of three columns.
pub fn rgb_from_cache_columns(columns: ColorColumns) -> (color: Option<RgbColorComponents>)
    ensures
        color == color_of(columns),
{
    match (columns.red, columns.green, columns.blue) {
        (Some(red), Some(green), Some(blue)) => {
            if 0 <= red && red <= 255 && 0 <= green && green <= 255 && 0 <= blue && blue <= 255 {
                Some(RgbColorComponents { red: red as u8, green: green as u8, blue: blue as u8 })
            } else {
                None
            }
        },
        _ => None,
    }
}

/// The colors of a row: none unless all three are there.
pub open spec fn palette_of(
    background: ColorColumns,
    foreground: ColorColumns,
    secondary: ColorColumns,
) -> Option<ArtworkPaletteComponents> {
    match (color_of(background), color_of(foreground), color_of(secondary)) {
        (Some(background), Some(foreground), Some(secondary)) => Some(
            ArtworkPaletteComponents { background, foreground, secondary },
        ),
        _ => None,
    }
}

/// The colors of a row.
pub fn palette_components_from_cache_row(
    background: ColorColumns,
    foreground: ColorColumns,
    secondary: ColorColumns,
) -> (palette: Option<ArtworkPaletteComponents>)
    ensures
        palette == palette_of(background, foreground, secondary),
{
    match (
        rgb_from_cache_columns(background),
        rgb_from_cache_columns(foreground),
        rgb_from_cache_columns(secondary),
    ) {
        (Some(background), Some(foreground), Some(secondary)) => Some(
            ArtworkPaletteComponents { background, foreground, secondary },
        ),
        _ => None,
    }
}

/// The image that a row holds in one size.
pub open spec fn png_of(row: StoredView, variant: ArtworkVariant) -> Option<Seq<u8>> {
    match variant {
        ArtworkVariant::Tile => row.tile_png,
        ArtworkVariant::Detail => row.detail_png,
    }
}

/// The other size.
pub open spec fn other_variant(variant: ArtworkVariant) -> ArtworkVariant {
    match variant {
        ArtworkVariant::Tile => ArtworkVariant::Detail,
        ArtworkVariant::Detail => ArtworkVariant::Tile,
    }
}

/// Whether a row answers a request: it is of the same file and of this layout,
/// and its image in that size, if it has one, is not longer than `limit`.
pub open spec fn row_matches(
    row: StoredView,
    fingerprint: ArtworkFileFingerprint,
    variant: ArtworkVariant,
    limit: usize,
) -> bool {
    &&& row.fingerprint == fingerprint
    &&& row.format_version == CACHE_SCHEMA_VERSION
    &&& png_of(row, variant) matches Some(png) ==> png.len() <= limit
}

/// `answer` is what a row holds for a request in one size.
pub open spec fn reads_row(
    row: StoredView,
    variant: ArtworkVariant,
    answer: CachedArtworkRow,
) -> bool {
    &&& answer.original_width == row.original_width
    &&& answer.original_height == row.original_height
    &&& answer.encoded_bytes_len == row.encoded_bytes
    &&& bytes_view(answer.requested_png) == png_of(row, variant)
    &&& answer.other_variant_present == (png_of(row, other_variant(variant)) is Some)
    &&& answer.palette == palette_of(row.background, row.foreground, row.secondary)
}

/// Reads a row for a request in one size. The image in the other size is not
/// looked at.
pub fn load_row(
    row: StoredArtwork,
    fingerprint: ArtworkFileFingerprint,
    variant: ArtworkVariant,
    limit: usize,
) -> (answer: Option<CachedArtworkRow>)
    ensures
        match answer {
            Some(answer) => row_matches(row@, fingerprint, variant, limit) && reads_row(
                row@,
                variant,
                answer,
            ),
            None => !row_matches(row@, fingerprint, variant, limit),
        },
{
    if row.fingerprint != fingerprint || row.format_version != CACHE_SCHEMA_VERSION {
        return None;
    }
    let (requested_png, other_png) = match variant {
        ArtworkVariant::Tile => (row.tile_png, row.detail_png),
        ArtworkVariant::Detail => (row.detail_png, row.tile_png),
    };
    if let Some(png) = &requested_png {
        if png.len() > limit {
            return None;
        }
    }
    Some(
        CachedArtworkRow {
            original_width: row.original_width,
            original_height: row.original_height,
            encoded_bytes_len: row.encoded_bytes,
            requested_png,
            other_variant_present: other_png.is_some(),
            palette: palette_components_from_cache_row(
                row.background,
                row.foreground,
                row.secondary,
            ),
        },
    )
}

/// What becomes of a row once its dimensions were checked.
#[derive(Clone, Copy, Debug, PartialEq, Eq, Structural)]
pub enum CachedDecode {
    /// The row does not answer the request.
    Miss,
    /// The file is known to have no artwork.
    NoArtwork,
    /// The requested image is there; the row answers if it can be decoded.
    Image { dimensions: Option<ArtworkDimensions>, encoded_bytes_len: Option<usize> },
}

impl CachedArtworkRow {
    /// The dimensions that have to be checked before the row can be used.
    pub fn claimed_dimensions(&self) -> (claimed: Option<(u64, u64)>)
        ensures
            claimed == match (self.original_width, self.original_height) {
                (Some(width), Some(height)) if width >= 0 && height >= 0 => Some(
                    (width as u64, height as u64),
                ),
                _ => None,
            },
    {
        match (self.original_width, self.original_height) {
            (Some(width), Some(height)) => {
                if width >= 0 && height >= 0 {
                    Some((width as u64, height as u64))
                } else {
                    None
                }
            },
            _ => None,
        }
    }

    /// The row has either both dimensions, which were found valid, or none of
    /// them, and a length that memory can have.
    pub open spec fn is_sound(&self, validated: Option<ArtworkDimensions>) -> bool {
        &&& match (self.original_width, self.original_height) {
            (Some(width), Some(height)) => width >= 0 && height >= 0 && validated is Some,
            (None, None) => true,
            _ => false,
        }
        &&& self.encoded_bytes_len matches Some(len) ==> 0 <= len <= usize::MAX
    }

    /// The row says that there is no artwork: it holds nothing at all.
    pub open spec fn is_blank(&self) -> bool {
        &&& self.requested_png is None
        &&& !self.other_variant_present
        &&& self.palette is None
        &&& self.original_width is None
    }

    /// What becomes of the row, where `validated` is what the check of its
    /// claimed dimensions returned.
    pub open spec fn decoded(&self, validated: Option<ArtworkDimensions>) -> CachedDecode {
        if !self.is_sound(validated) {
            CachedDecode::Miss
        } else if self.is_blank() {
            CachedDecode::NoArtwork
        } else if self.requested_png is None {
            CachedDecode::Miss
        } else {
            CachedDecode::Image {
                dimensions: if self.original_width is Some {
                    validated
                } else {
                    None
                },
                encoded_bytes_len: match self.encoded_bytes_len {
                    Some(len) => Some(len as usize),
                    None => None,
                },
            }
        }
    }

    /// What becomes of the row, where `validated` is what the check of its
    /// claimed dimensions returned.
    pub fn decode(&self, validated: Option<ArtworkDimensions>) -> (decode: CachedDecode)
        ensures
            decode == self.decoded(validated),
    {
        let dimensions = match (self.original_width, self.original_height) {
            (Some(width), Some(height)) => {
                if width < 0 || height < 0 || validated.is_none() {
                    return CachedDecode::Miss;
                }
                validated
            },
            (None, None) => None,
            _ => {
                return CachedDecode::Miss;
            },
        };
        let encoded_bytes_len: Option<usize> = match self.encoded_bytes_len {
            Some(len) => {
                if len < 0 || len as u64 > usize::MAX as u64 {
                    return CachedDecode::Miss;
                }
                Some(len as usize)
            },
            None => None,
        };
        if self.requested_png.is_none() && !self.other_variant_present && self.palette.is_none()
            && dimensions.is_none() {
            return CachedDecode::NoArtwork;
        }
        if self.requested_png.is_none() {
            return CachedDecode::Miss;
        }
        CachedDecode::Image { dimensions, encoded_bytes_len }
    }
}

/// A cover in one size that is stored for an unchanged file leaves the cover
/// in the other size in place.
pub proof fn law_sizes_merge_for_the_same_file(
    existing: StoredView,
    fingerprint: ArtworkFileFingerprint,
    cached: CachedArtwork,
    variant: ArtworkVariant,
)
    requires
        existing.fingerprint == fingerprint,
        existing.format_version == CACHE_SCHEMA_VERSION,
        png_of(fresh_row(fingerprint, cached), variant) is None,
    ensures
        ({
            let new = fresh_row(fingerprint, cached);
            let row = merged_row(Some(existing), new);
            &&& png_of(row, variant) == png_of(existing, variant)
            &&& png_of(new, other_variant(variant)) is Some ==> png_of(
                row,
                other_variant(variant),
            ) == png_of(new, other_variant(variant))
        }),
{
}

/// A cover that is stored for a changed file leaves nothing of the old row.
pub proof fn law_changed_file_discards_the_row(
    existing: StoredView,
    fingerprint: ArtworkFileFingerprint,
    cached: CachedArtwork,
)
    requires
        existing.fingerprint != fingerprint,
    ensures
        merged_row(Some(existing), fresh_row(fingerprint, cached)) == fresh_row(
            fingerprint,
            cached,
        ),
{
}

/// What was stored is read back: a row answers a request for the file and the
/// size for which a cover was just stored, with that cover.
pub proof fn law_stored_cover_is_read_back(
    existing: Option<StoredView>,
    fingerprint: ArtworkFileFingerprint,
    cached: CachedArtwork,
    variant: ArtworkVariant,
    limit: usize,
)
    requires
        png_of(fresh_row(fingerprint, cached), variant) matches Some(png) && png.len() <= limit,
    ensures
        ({
            let new = fresh_row(fingerprint, cached);
            let row = merged_row(existing, new);
            &&& row_matches(row, fingerprint, variant, limit)
            &&& png_of(row, variant) == png_of(new, variant)
        }),
{
}

/// A new row holds what was decoded, and gives it back: its colours, its size,
/// its length and its images, each in its own size.
pub proof fn law_a_new_row_gives_back_what_was_decoded(
    fingerprint: ArtworkFileFingerprint,
    cached: CachedArtwork,
)
    ensures
        ({
            let row = fresh_row(fingerprint, cached);
            &&& row.fingerprint == fingerprint
            &&& row.format_version == 2
            &&& palette_of(row.background, row.foreground, row.secondary) == cached.palette
            &&& png_of(row, ArtworkVariant::Tile) == bytes_view(cached.tile_png)
            &&& png_of(row, ArtworkVariant::Detail) == bytes_view(cached.detail_png)
            &&& cached.dimensions matches Some(size) ==> row.original_width == Some(
                size.width as i64,
            ) && row.original_height == Some(size.height as i64)
            &&& cached.dimensions is None ==> row.original_width is None
                && row.original_height is None
            &&& cached.encoded_bytes_len matches Some(len) ==> (len <= i64::MAX
                ==> row.encoded_bytes == Some(len as i64))
            &&& cached.encoded_bytes_len is None ==> row.encoded_bytes is None
        }),
{
    if let Some(palette) = cached.palette {
        lemma_color_survives(palette.background);
        lemma_color_survives(palette.foreground);
        lemma_color_survives(palette.secondary);
    }
}

proof fn lemma_color_survives(color: RgbColorComponents)
    ensures
        color_of(columns_of(Some(color))) == Some(color),
{
    let (red, green, blue) = (color.red, color.green, color.blue);
    assert((red as i64) as u8 == red) by (bit_vector);
    assert((green as i64) as u8 == green) by (bit_vector);
    assert((blue as i64) as u8 == blue) by (bit_vector);
}

/// What is stored for an unchanged file adds to what its row holds: each column
/// takes the new value where there is one, and keeps the old one where there is
/// none.
pub proof fn law_a_row_of_the_same_file_is_added_to(old: StoredView, new: StoredView)
    requires
        old.fingerprint == new.fingerprint,
        old.format_version == new.format_version,
    ensures
        ({
            let row = merged_row(Some(old), new);
            &&& row.fingerprint == new.fingerprint && row.format_version == new.format_version
            &&& row.original_width == if new.original_width is Some {
                new.original_width
            } else {
                old.original_width
            }
            &&& row.original_height == if new.original_height is Some {
                new.original_height
            } else {
                old.original_height
            }
            &&& row.encoded_bytes == if new.encoded_bytes is Some {
                new.encoded_bytes
            } else {
                old.encoded_bytes
            }
            &&& row.tile_png == if new.tile_png is Some {
                new.tile_png
            } else {
                old.tile_png
            }
            &&& row.detail_png == if new.detail_png is Some {
                new.detail_png
            } else {
                old.detail_png
            }
            &&& new.background.red is Some && new.background.green is Some
                && new.background.blue is Some ==> row.background == new.background
            &&& new.background.red is None && new.background.green is None
                && new.background.blue is None ==> row.background == old.background
            &&& new.foreground.red is Some && new.foreground.green is Some
                && new.foreground.blue is Some ==> row.foreground == new.foreground
            &&& new.foreground.red is None && new.foreground.green is None
                && new.foreground.blue is None ==> row.foreground == old.foreground
            &&& new.secondary.red is Some && new.secondary.green is Some
                && new.secondary.blue is Some ==> row.secondary == new.secondary
            &&& new.secondary.red is None && new.secondary.green is None
                && new.secondary.blue is None ==> row.secondary == old.secondary
        }),
{
}

/// A row of another layout, or no row, gives way to the new one as a whole.
pub proof fn law_a_row_of_another_layout_gives_way(old: StoredView, new: StoredView)
    requires
        old.format_version != new.format_version || old.fingerprint != new.fingerprint,
    ensures
        merged_row(Some(old), new) == new,
        merged_row(None, new) == new,
{
}

/// A row answers a request iff it is of the same file and of this layout, and
/// the image that is asked for, where it has one, is no longer than allowed; how
/// long the image in the other size is does not matter.
pub proof fn law_a_row_answers_for_its_file_alone(
    row: StoredView,
    fingerprint: ArtworkFileFingerprint,
    limit: usize,
)
    ensures
        row_matches(row, fingerprint, ArtworkVariant::Tile, limit) <==> row.fingerprint
            == fingerprint && row.format_version == 2 && (row.tile_png is None
            || row.tile_png->0.len() <= limit),
        row_matches(row, fingerprint, ArtworkVariant::Detail, limit) <==> row.fingerprint
            == fingerprint && row.format_version == 2 && (row.detail_png is None
            || row.detail_png->0.len() <= limit),
{
}

/// A row is decoded iff it holds the image that is asked for and its numbers are
/// sound: both sides are there and were found valid, or neither is, and its
/// length is one that memory can have. It says that there is no artwork iff,
/// being sound, it holds nothing.
pub proof fn law_a_row_is_decoded_only_if_it_is_sound(
    row: CachedArtworkRow,
    validated: Option<ArtworkDimensions>,
)
    ensures
        ({
            let sides = (row.original_width is Some && row.original_width->0 >= 0
                && row.original_height is Some && row.original_height->0 >= 0
                && validated is Some) || (row.original_width is None
                && row.original_height is None);
            let length = row.encoded_bytes_len is None || 0 <= row.encoded_bytes_len->0
                <= usize::MAX;
            let empty = row.requested_png is None && !row.other_variant_present
                && row.palette is None && row.original_width is None;
            let decoded = row.decoded(validated);
            &&& decoded is NoArtwork <==> sides && length && empty
            &&& decoded is Image <==> sides && length && row.requested_png is Some
            &&& decoded matches CachedDecode::Image { dimensions, encoded_bytes_len } ==> {
                &&& row.original_width is Some ==> dimensions == validated
                &&& row.original_width is None ==> dimensions is None
                &&& row.encoded_bytes_len is None <==> encoded_bytes_len is None
                &&& row.encoded_bytes_len matches Some(len) ==> encoded_bytes_len->0 == len
            }
        }),
{
}

/// What is stored of a file and read again is what was decoded: the same
/// colours, the same image in the size that is asked for, the same dimensions
/// and the same length; and whether there is an image in the other size.
pub proof fn law_what_is_stored_is_read_again(
    fingerprint: ArtworkFileFingerprint,
    cached: CachedArtwork,
    answer: CachedArtworkRow,
    variant: ArtworkVariant,
)
    requires
        reads_row(fresh_row(fingerprint, cached), variant, answer),
    ensures
        answer.palette == cached.palette,
        variant == ArtworkVariant::Tile ==> bytes_view(answer.requested_png) == bytes_view(
            cached.tile_png,
        ) && answer.other_variant_present == (cached.detail_png is Some),
        variant == ArtworkVariant::Detail ==> bytes_view(answer.requested_png) == bytes_view(
            cached.detail_png,
        ) && answer.other_variant_present == (cached.tile_png is Some),
        cached.dimensions matches Some(size) ==> answer.original_width == Some(size.width as i64)
            && answer.original_height == Some(size.height as i64),
        cached.dimensions is None ==> answer.original_width is None,
        cached.encoded_bytes_len is None ==> answer.encoded_bytes_len is None,
        cached.encoded_bytes_len matches Some(len) ==> (len <= i64::MAX
            ==> answer.encoded_bytes_len == Some(len as i64)),
{
    law_a_new_row_gives_back_what_was_decoded(fingerprint, cached);
}

} // verus!
