//! The panel that opens below an album: its rows of tracks, its cover and its
//! colours.

use vstd::prelude::*;

use crate::albums::model::AlbumTrackViewModel;
use crate::library::TrackId;

verus! {

/// What the first cell of a track's row shows.
#[derive(Clone, Copy, Debug, PartialEq, Eq, Structural)]
pub enum TrackStatus {
    Missing,
    Playing,
    Number,
}

/// What the first cell of a track's row shows.
pub open spec fn status_of(id: TrackId, missing: bool, playing: Option<TrackId>) -> TrackStatus {
    if missing {
        TrackStatus::Missing
    } else if playing == Some(id) {
        TrackStatus::Playing
    } else {
        TrackStatus::Number
    }
}

/// What the first cell of a track's row shows: a missing file before all else.
pub fn track_status(track: &AlbumTrackViewModel, playing: Option<TrackId>) -> (status: TrackStatus)
    ensures
        status == status_of(track.id, track.is_missing, playing),
{
    if track.is_missing {
        return TrackStatus::Missing;
    }
    match playing {
        Some(playing) => if playing == track.id {
            TrackStatus::Playing
        } else {
            TrackStatus::Number
        },
        None => TrackStatus::Number,
    }
}

/// The smallest icon that stands for a cover.
pub const PLACEHOLDER_ICON_MIN_SIZE: i32 = 32;

/// The size of the icon that stands for a cover.
pub open spec fn icon_size_of(cover_size: i32) -> int {
    if cover_size < 3 * PLACEHOLDER_ICON_MIN_SIZE {
        PLACEHOLDER_ICON_MIN_SIZE as int
    } else {
        cover_size as int / 3
    }
}

/// The size of the icon that stands for a cover: a third of the cover's, unless
/// that is too small.
pub fn placeholder_icon_size(cover_size: i32) -> (icon_size: i32)
    ensures
        icon_size == icon_size_of(cover_size),
{
    if cover_size < 3 * PLACEHOLDER_ICON_MIN_SIZE {
        PLACEHOLDER_ICON_MIN_SIZE
    } else {
        cover_size / 3
    }
}

/// A property of a style rule, on a line of its own.
pub open spec fn declaration(property: Seq<char>, value: Seq<char>) -> Seq<char> {
    "            "@ + property + ": "@ + value + ";\n"@
}

/// A style rule with the declarations that it holds.
pub open spec fn style_rule(selectors: Seq<char>, declarations: Seq<char>) -> Seq<char> {
    "        "@ + selectors + " {\n"@ + declarations + "        }\n"@
}

fn push_declaration(css: &mut String, property: &str, value: &str)
    ensures
        final(css)@ == old(css)@ + declaration(property@, value@),
{
    css.append("            ");
    css.append(property);
    css.append(": ");
    css.append(value);
    css.append(";\n");
    assert(css@ =~= old(css)@ + declaration(property@, value@));
}

fn push_rule(css: &mut String, selectors: &str, property: &str, value: &str)
    ensures
        final(css)@ == old(css)@ + style_rule(selectors@, declaration(property@, value@)),
{
    css.append("        ");
    css.append(selectors);
    css.append(" {\n");
    push_declaration(css, property, value);
    css.append("        }\n");
    assert(css@ =~= old(css)@ + style_rule(selectors@, declaration(property@, value@)));
}

/// A colour that lets what is behind it through.
pub open spec fn translucent(colour: Seq<char>, share: Seq<char>) -> Seq<char> {
    "alpha("@ + colour + ", "@ + share + ")"@
}

fn translucent_colour(colour: &str, share: &str) -> (translucent_colour: String)
    ensures
        translucent_colour@ == translucent(colour@, share@),
{
    let mut text = "alpha(".to_owned();
    text.append(colour);
    text.append(", ");
    text.append(share);
    text.append(")");
    text
}

/// The style rules that give the panel the colours of the cover. The icon of
/// the track that plays keeps the foreground, which stands out on any cover;
/// the artist, the numbers and the durations have the secondary colour.
pub open spec fn palette_rules(
    background: Seq<char>,
    foreground: Seq<char>,
    secondary: Seq<char>,
) -> Seq<char> {
    "\n"@ + style_rule(
        ".album-detail-dominant-color"@,
        declaration("background-color"@, background) + declaration("border"@, "none"@)
            + declaration("color"@, foreground),
    ) + "\n"@ + style_rule(".album-detail-palette-arrow"@, declaration("color"@, background)) + "\n"@ + style_rule(
        ".album-detail-palette-primary,\n        button.album-detail-palette-button,\n        image.album-detail-palette-primary"@,
        declaration("color"@, foreground),
    ) + "\n"@
        + "        /* Artist name (subtitle), track number, and duration share the\n           artwork-derived secondary colour so the muted text reads as\n           part of the cover's palette instead of as a uniformly faded\n           white/black. The track-playing speaker icon is intentionally\n           not in this set: it keeps the strict-contrast foreground so\n           the \"now playing\" cue is unmissable on any artwork. */\n"@
        + style_rule(
        ".album-detail-palette-secondary,\n        .album-detail-palette-muted"@,
        declaration("color"@, secondary),
    ) + "\n"@ + style_rule(
        ".album-detail-palette-surface"@,
        declaration("background-color"@, translucent(foreground, "0.12"@)),
    ) + "\n"@ + style_rule(
        "button.album-detail-palette-button:hover,\n        button.album-detail-palette-button:active,\n        button.album-detail-palette-button:focus"@,
        declaration("background-color"@, translucent(foreground, "0.14"@)),
    ) + "\n"@ + style_rule(
        ".album-track-table .track-table-status-playing"@,
        declaration("color"@, foreground),
    ) + "\n"@ + style_rule(
        "listview.album-track-table > row:focus-visible"@,
        declaration("outline-color"@, foreground),
    ) + "        "@
}

/// The style rules that give the panel the colours of the cover.
pub fn album_detail_palette_css(background: &str, foreground: &str, secondary: &str) -> (css: String)
    ensures
        css@ == palette_rules(background@, foreground@, secondary@),
{
    let mut css = "\n".to_owned();
    css.append("        ");
    css.append(".album-detail-dominant-color");
    css.append(" {\n");
    push_declaration(&mut css, "background-color", background);
    push_declaration(&mut css, "border", "none");
    push_declaration(&mut css, "color", foreground);
    css.append("        }\n");
    css.append("\n");
    push_rule(&mut css, ".album-detail-palette-arrow", "color", background);
    css.append("\n");
    push_rule(
        &mut css,
        ".album-detail-palette-primary,\n        button.album-detail-palette-button,\n        image.album-detail-palette-primary",
        "color",
        foreground,
    );
    css.append("\n");
    css.append(
        "        /* Artist name (subtitle), track number, and duration share the\n           artwork-derived secondary colour so the muted text reads as\n           part of the cover's palette instead of as a uniformly faded\n           white/black. The track-playing speaker icon is intentionally\n           not in this set: it keeps the strict-contrast foreground so\n           the \"now playing\" cue is unmissable on any artwork. */\n",
    );
    push_rule(
        &mut css,
        ".album-detail-palette-secondary,\n        .album-detail-palette-muted",
        "color",
        secondary,
    );
    css.append("\n");
    let surface = translucent_colour(foreground, "0.12");
    push_rule(&mut css, ".album-detail-palette-surface", "background-color", surface.as_str());
    css.append("\n");
    let pressed = translucent_colour(foreground, "0.14");
    push_rule(
        &mut css,
        "button.album-detail-palette-button:hover,\n        button.album-detail-palette-button:active,\n        button.album-detail-palette-button:focus",
        "background-color",
        pressed.as_str(),
    );
    css.append("\n");
    push_rule(&mut css, ".album-track-table .track-table-status-playing", "color", foreground);
    css.append("\n");
    push_rule(&mut css, "listview.album-track-table > row:focus-visible", "outline-color", foreground);
    css.append("        ");
    assert(css@ =~= palette_rules(background@, foreground@, secondary@));
    css
}

/// A row whose file is missing says so whatever plays; of the others at most the
/// track that plays is marked, and the rest show their numbers.
pub proof fn law_only_the_track_that_plays_is_marked(
    id: TrackId,
    missing: bool,
    playing: Option<TrackId>,
)
    ensures
        status_of(id, missing, playing) == TrackStatus::Missing <==> missing,
        status_of(id, missing, playing) == TrackStatus::Playing <==> !missing && playing == Some(
            id,
        ),
        status_of(id, missing, None) != TrackStatus::Playing,
{
}

/// The icon is a third of the cover, and no smaller than it can be drawn.
pub proof fn law_the_icon_is_a_third_of_the_cover(cover_size: i32)
    ensures
        icon_size_of(cover_size) >= 32,
        cover_size >= 96 ==> 3 * icon_size_of(cover_size) <= cover_size < 3 * icon_size_of(cover_size)
            + 3,
        cover_size < 96 ==> icon_size_of(cover_size) == 32,
{
}

} // verus!
