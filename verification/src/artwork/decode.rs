//! The sizes in which covers are kept, and how they are cut to a square.

use vstd::prelude::*;

use crate::artwork::cache_row::{ArtworkDimensions, ArtworkVariant};

verus! {

/// The longest side of the small cover.
pub const TILE_TEXTURE_MAX_SIDE: i32 = 132;

/// The longest side of the large cover.
pub const DETAIL_TEXTURE_MAX_SIDE: i32 = 396;

/// The size in which a picture is decoded.
#[derive(Clone, Copy, Debug, PartialEq, Eq, Structural)]
pub enum DecodeSize {
    /// The picture has no size that can be decoded.
    Refused,
    /// The picture is small enough as it is.
    AsIs { width: i32, height: i32 },
    /// The picture is shrunk until its shorter side is the longest allowed.
    Shrunk { width: i32, height: i32, shorter_side: i32 },
}

/// The shorter of two sides.
pub open spec fn shorter(width: int, height: int) -> int {
    if width < height {
        width
    } else {
        height
    }
}

/// Whether a picture of some size can be decoded.
pub open spec fn decodable(dimensions: ArtworkDimensions, max_side: i32) -> bool {
    &&& 0 < dimensions.width <= i32::MAX
    &&& 0 < dimensions.height <= i32::MAX
    &&& 0 < max_side
}

/// The size in which a picture is decoded.
pub open spec fn size_for(dimensions: ArtworkDimensions, max_side: i32) -> DecodeSize {
    if !decodable(dimensions, max_side) {
        DecodeSize::Refused
    } else if shorter(dimensions.width as int, dimensions.height as int) <= max_side {
        DecodeSize::AsIs { width: dimensions.width as i32, height: dimensions.height as i32 }
    } else {
        DecodeSize::Shrunk {
            width: dimensions.width as i32,
            height: dimensions.height as i32,
            shorter_side: shorter(dimensions.width as int, dimensions.height as int) as i32,
        }
    }
}

/// The size in which a picture is decoded.
pub fn decode_size(dimensions: ArtworkDimensions, max_side: i32) -> (size: DecodeSize)
    ensures
        size == size_for(dimensions, max_side),
{
    if dimensions.width > 0x7fff_ffff || dimensions.height > 0x7fff_ffff {
        return DecodeSize::Refused;
    }
    let width: i32 = dimensions.width as i32;
    let height: i32 = dimensions.height as i32;
    let shorter_side: i32 = if width < height {
        width
    } else {
        height
    };
    if shorter_side <= 0 || max_side <= 0 {
        DecodeSize::Refused
    } else if shorter_side <= max_side {
        DecodeSize::AsIs { width, height }
    } else {
        DecodeSize::Shrunk { width, height, shorter_side }
    }
}

/// The square that is cut out of a picture.
#[derive(Clone, Copy, Debug, PartialEq, Eq, Structural)]
pub struct SquareCrop {
    pub x_offset: i32,
    pub y_offset: i32,
    pub side: i32,
}

/// The middle square of a picture; nothing is cut off a square.
pub open spec fn middle_square(width: int, height: int) -> (int, int, int) {
    let side = shorter(width, height);
    ((width - side) / 2, (height - side) / 2, side)
}

/// The square that is cut out of a picture.
pub fn square_crop(width: i32, height: i32) -> (crop: SquareCrop)
    requires
        width > 0,
        height > 0,
    ensures
        (crop.x_offset as int, crop.y_offset as int, crop.side as int) == middle_square(
            width as int,
            height as int,
        ),
{
    let side: i32 = if width < height {
        width
    } else {
        height
    };
    SquareCrop { x_offset: (width - side) / 2, y_offset: (height - side) / 2, side }
}

/// The square lies within the picture and is as large as one can be. What is
/// cut off is the same on both sides, but for one line.
pub proof fn law_crop_is_the_middle(width: int, height: int)
    requires
        width > 0,
        height > 0,
    ensures
        ({
            let (x, y, side) = middle_square(width, height);
            &&& 0 <= x && x + side <= width
            &&& 0 <= y && y + side <= height
            &&& side == width || side == height
            &&& 0 <= (width - side - x) - x <= 1
            &&& 0 <= (height - side - y) - y <= 1
            &&& width == height ==> x == 0 && y == 0 && side == width
        }),
{
}

/// The covers that are handed to the screen: only the one that was asked for,
/// so that a grid of small covers never holds large ones.
pub fn textures_for_variant<T>(
    variant: ArtworkVariant,
    tile: Option<T>,
    detail: Option<T>,
) -> (textures: (Option<T>, Option<T>))
    ensures
        textures == match variant {
            ArtworkVariant::Tile => (tile, None),
            ArtworkVariant::Detail => (None, detail),
        },
{
    match variant {
        ArtworkVariant::Tile => (tile, None),
        ArtworkVariant::Detail => (None, detail),
    }
}

/// A picture with an empty side, or one that is too long, is refused; another
/// stays as it is iff one of its sides is no longer than allowed, and else is
/// shrunk by its shorter side.
pub proof fn law_a_picture_is_shrunk_by_its_shorter_side(
    dimensions: ArtworkDimensions,
    max_side: i32,
)
    requires
        max_side > 0,
    ensures
        ({
            let (width, height) = (dimensions.width, dimensions.height);
            let size = size_for(dimensions, max_side);
            &&& size is Refused <==> width == 0 || height == 0 || width > 0x7fff_ffff || height
                > 0x7fff_ffff
            &&& size is AsIs <==> !(size is Refused) && (width <= max_side || height <= max_side)
            &&& size matches DecodeSize::AsIs { width: w, height: h } ==> w == width && h == height
            &&& size matches DecodeSize::Shrunk { width: w, height: h, shorter_side } ==> w == width
                && h == height && shorter_side <= width && shorter_side <= height && (shorter_side
                == width || shorter_side == height) && shorter_side > max_side
        }),
{
}

} // verus!
