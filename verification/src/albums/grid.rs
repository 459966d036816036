//! The geometry of the album grid: columns, rows, and the albums of a row.

use vstd::prelude::*;

use crate::albums::model::{AlbumKey, AlbumViewModel};
use crate::seqs;

verus! {

pub const ALBUM_TILE_WIDTH: i32 = 150;
pub const ALBUM_TILE_HORIZONTAL_PADDING: i32 = 16;
pub const ALBUM_TILE_MIN_WIDTH: i32 = ALBUM_TILE_WIDTH + ALBUM_TILE_HORIZONTAL_PADDING;
pub const ALBUM_TILE_COVER_SIZE: i32 = 132;
/// The cover of a selected tile, whose button has no padding: its title stays
/// at the same height.
pub const ALBUM_TILE_COVER_SIZE_EXPANDED: i32 = 140;
pub const ALBUM_GRID_MARGIN: i32 = 14;
pub const ALBUM_GRID_ROW_SPACING: i32 = 12;
pub const ALBUM_GRID_COLUMN_SPACING: i32 = 16;
pub const ALBUM_DETAIL_ARTWORK_SIZE: i32 = ALBUM_TILE_COVER_SIZE * 3;

/// The width that so many columns take up, with margins and spacing.
pub open spec fn width_of_columns(columns: int) -> int {
    2 * ALBUM_GRID_MARGIN + columns * ALBUM_TILE_MIN_WIDTH + (columns - 1)
        * ALBUM_GRID_COLUMN_SPACING
}

/// The number of columns in a view of this width: as many as fit, but at least
/// one.
pub fn columns_for_width(width: i32) -> (columns: usize)
    ensures
        columns >= 1,
        columns == 1 || width_of_columns(columns as int) <= width,
        width < width_of_columns(columns + 1),
{
    let margins: i32 = ALBUM_GRID_MARGIN * 2;
    let inner: i32 = if width < i32::MIN + margins {
        i32::MIN
    } else {
        width - margins
    };
    let usable: i32 = if inner > ALBUM_TILE_MIN_WIDTH { inner } else { ALBUM_TILE_MIN_WIDTH };
    let columns: i32 = (usable + ALBUM_GRID_COLUMN_SPACING) / (ALBUM_TILE_MIN_WIDTH
        + ALBUM_GRID_COLUMN_SPACING);
    columns as usize
}

/// `count` items in rows of `size`: the number of rows, the last of which may
/// not be full.
pub open spec fn rows_needed(count: int, size: int) -> int {
    (count + size - 1) / size
}

/// The number of columns to calculate with: at least one.
pub open spec fn at_least_one(columns: usize) -> int {
    if columns >= 1 { columns as int } else { 1 }
}

/// The number of rows for so many albums. An empty grid has one row, which says
/// that it is empty.
pub open spec fn row_count(album_count: nat, columns: usize) -> int {
    let rows = rows_needed(album_count as int, at_least_one(columns));
    if rows >= 1 { rows } else { 1 }
}

/// Rounds a quotient up.
fn divide_up(count: usize, size: usize) -> (rows: usize)
    requires
        size >= 1,
    ensures
        rows == rows_needed(count as int, size as int),
{
    let whole: usize = count / size;
    let rest: usize = count % size;
    let rows: usize = if rest == 0 {
        whole
    } else {
        proof {
            assert(whole < usize::MAX) by (nonlinear_arith)
                requires
                    whole == count / size,
                    rest == count % size,
                    rest > 0,
                    size >= 1,
                    count <= usize::MAX,
            ;
        }
        whole + 1
    };
    proof {
        lemma_rows_needed(count as int, size as int, rows as int);
    }
    rows
}

/// The quotient, rounded up, is the number of rows.
proof fn lemma_rows_needed(count: int, size: int, rows: int)
    requires
        size >= 1,
        count >= 0,
        rows == if count % size == 0 {
            count / size
        } else {
            count / size + 1
        },
    ensures
        rows == rows_needed(count, size),
{
    let q = count / size;
    let r = count % size;
    vstd::arithmetic::div_mod::lemma_fundamental_div_mod(count, size);
    if r == 0 {
        assert((count + size - 1) / size == q) by (nonlinear_arith)
            requires
                count == size * q + r,
                r == 0,
                size >= 1,
        ;
    } else {
        assert((count + size - 1) / size == q + 1) by (nonlinear_arith)
            requires
                count == size * q + r,
                0 < r < size,
                size >= 1,
        ;
    }
}

/// The number of rows for so many albums.
pub fn album_row_count(album_count: usize, columns: usize) -> (rows: usize)
    ensures
        rows == row_count(album_count as nat, columns),
{
    let columns: usize = if columns >= 1 { columns } else { 1 };
    let rows: usize = divide_up(album_count, columns);
    if rows >= 1 {
        rows
    } else {
        1
    }
}

/// Where an album stands in the list; the length of the list when it is not
/// there.
pub open spec fn album_index(albums: Seq<AlbumViewModel>, key: (Seq<char>, Seq<char>)) -> int {
    seqs::first_index(albums, has_key(key))
}

/// Albums with this key.
pub open spec fn has_key(key: (Seq<char>, Seq<char>)) -> spec_fn(AlbumViewModel) -> bool {
    |album: AlbumViewModel| album.key@ == key
}

/// An album of the list is found in it.
pub proof fn lemma_album_found(albums: Seq<AlbumViewModel>, key: (Seq<char>, Seq<char>), at: int)
    requires
        0 <= at < albums.len(),
        albums[at].key@ == key,
    ensures
        0 <= album_index(albums, key) <= at,
{
    let wanted = has_key(key);
    seqs::lemma_first_index(albums, wanted);
    assert(wanted(albums[at]));
}

/// The row in which an album stands.
pub open spec fn row_of_album(
    albums: Seq<AlbumViewModel>,
    key: (Seq<char>, Seq<char>),
    columns: usize,
) -> Option<int> {
    let index = album_index(albums, key);
    if index < albums.len() {
        Some(index / at_least_one(columns))
    } else {
        None
    }
}

/// Finds an album in the list.
pub fn find_album(albums: &Vec<AlbumViewModel>, key: &AlbumKey) -> (index: Option<usize>)
    ensures
        match index {
            Some(index) => index < albums@.len() && index == album_index(albums@, key@)
                && albums@[index as int].key@ == key@,
            None => album_index(albums@, key@) == albums@.len(),
        },
{
    proof {
        seqs::lemma_first_index(albums@, has_key(key@));
    }
    let test = |album: &AlbumViewModel| -> (same: bool)
        ensures
            same == has_key(key@)(*album),
    {
        album.key.same_as(key)
    };
    seqs::find_first(albums.as_slice(), test, Ghost(has_key(key@)))
}

/// The row in which an album stands.
pub fn row_position_for_album(albums: &Vec<AlbumViewModel>, key: &AlbumKey, columns: usize) -> (row:
    Option<usize>)
    ensures
        match row {
            Some(row) => row_of_album(albums@, key@, columns) == Some(row as int),
            None => row_of_album(albums@, key@, columns) is None,
        },
{
    let columns: usize = if columns >= 1 { columns } else { 1 };
    match find_album(albums, key) {
        Some(index) => Some(index / columns),
        None => None,
    }
}

/// What a row of the grid shows.
#[derive(Clone, Copy, Debug, PartialEq, Eq, Structural)]
pub enum RowContent {
    /// Nothing that could be shown: the row lies behind the last album.
    Nothing,
    /// That there are no albums.
    EmptyState,
    /// The albums from `start` up to `end`.
    Tiles { start: usize, end: usize },
}

/// What the row at a position shows.
pub open spec fn row_content(album_count: nat, columns: usize, row: usize) -> RowContent {
    let start = row * at_least_one(columns);
    if album_count == 0 {
        if row == 0 {
            RowContent::EmptyState
        } else {
            RowContent::Nothing
        }
    } else if start >= album_count {
        RowContent::Nothing
    } else {
        RowContent::Tiles {
            start: start as usize,
            end: (if start + at_least_one(columns) <= album_count {
                start + at_least_one(columns)
            } else {
                album_count as int
            }) as usize,
        }
    }
}

/// What the row at a position shows.
pub fn row_slice(album_count: usize, columns: usize, row: usize) -> (content: RowContent)
    ensures
        content == row_content(album_count as nat, columns, row),
{
    let columns: usize = if columns >= 1 { columns } else { 1 };
    if album_count == 0 {
        return if row == 0 {
            proof {
                assert(row * columns == 0) by (nonlinear_arith)
                    requires
                        row == 0,
                ;
            }
            RowContent::EmptyState
        } else {
            RowContent::Nothing
        };
    }
    match row.checked_mul(columns) {
        None => {
            assert(row * columns > usize::MAX);
            RowContent::Nothing
        },
        Some(start) => {
            if start >= album_count {
                RowContent::Nothing
            } else {
                let end: usize = if album_count - start >= columns {
                    start + columns
                } else {
                    album_count
                };
                RowContent::Tiles { start, end }
            }
        },
    }
}

/// Brings a list of row tokens to so many rows. Tokens are taken from the end
/// or added there, so that the others keep their place.
pub fn resize_row_store<T>(store: &mut Vec<T>, row_count: usize, additions: Vec<T>)
    requires
        additions@.len() == if row_count > old(store)@.len() {
            row_count - old(store)@.len()
        } else {
            0
        },
    ensures
        final(store)@.len() == row_count,
        final(store)@ == if row_count <= old(store)@.len() {
            old(store)@.take(row_count as int)
        } else {
            old(store)@ + additions@
        },
{
    let ghost added = additions@;
    let mut additions = additions;
    if row_count < store.len() {
        store.truncate(row_count);
        assert(store@ =~= old(store)@.take(row_count as int));
    } else {
        store.append(&mut additions);
        proof {
            assert(store@ =~= old(store)@ + added);
            if row_count == old(store)@.len() {
                assert(store@ =~= old(store)@.take(row_count as int));
            }
        }
    }
}

/// The column of the selected album among the albums of a row.
pub open spec fn selected_column(row: Seq<AlbumViewModel>, selected: Option<AlbumKey>) -> Option<
    int,
> {
    match selected {
        None => None,
        Some(key) => {
            let found = album_index(row, key@);
            if found < row.len() {
                Some(found)
            } else {
                None
            }
        },
    }
}

/// The column of the selected album in a row of the grid.
pub fn selected_album_in_row(
    albums: &Vec<AlbumViewModel>,
    start: usize,
    end: usize,
    selected: &Option<AlbumKey>,
) -> (column: Option<usize>)
    requires
        start <= end <= albums@.len(),
    ensures
        match column {
            Some(column) => selected_column(
                albums@.subrange(start as int, end as int),
                *selected,
            ) == Some(column as int),
            None => selected_column(albums@.subrange(start as int, end as int), *selected) is None,
        },
{
    match selected {
        None => None,
        Some(key) => {
            let ghost row = albums@.subrange(start as int, end as int);
            let ghost wanted = has_key(key@);
            let mut index: usize = start;
            while index < end
                invariant
                    start <= index <= end <= albums@.len(),
                    row == albums@.subrange(start as int, end as int),
                    wanted == has_key(key@),
                    *selected == Some(*key),
                    forall|i: int| 0 <= i < index - start ==> !wanted(#[trigger] row[i]),
                decreases end - index,
            {
                assert(row[index - start] == albums@[index as int]);
                if albums[index].key.same_as(key) {
                    proof {
                        seqs::lemma_is_first_index(row, wanted, index - start);
                    }
                    return Some(index - start);
                }
                index = index + 1;
            }
            proof {
                seqs::lemma_is_first_index(row, wanted, end - start);
            }
            None
        },
    }
}

/// Where the tracks of an open album are split into two lists: the first takes
/// the odd one.
pub fn track_list_split(track_count: usize) -> (split: usize)
    ensures
        split == rows_needed(track_count as int, 2),
        split <= track_count,
        track_count - split <= split <= track_count - split + 1,
{
    divide_up(track_count, 2)
}

/// A wider view never has fewer columns.
pub proof fn law_columns_grow_with_width(narrow: int, wide: int, few: int, many: int)
    requires
        narrow <= wide,
        few >= 1,
        many >= 1,
        few == 1 || width_of_columns(few) <= narrow,
        wide < width_of_columns(many + 1),
    ensures
        few <= many,
{
    if few > many {
        assert(width_of_columns(many + 1) <= width_of_columns(few)) by (nonlinear_arith)
            requires
                many + 1 <= few,
        ;
    }
}

/// Every album is shown in exactly one row: the one in which it is looked for.
pub proof fn law_every_album_has_its_row(album_count: nat, columns: usize, index: int, row: usize)
    requires
        0 <= index < album_count,
        album_count <= usize::MAX,
    ensures
        0 <= index / at_least_one(columns) < row_count(album_count, columns),
        (row_content(album_count, columns, row) matches RowContent::Tiles { start, end } && start
            <= index < end) <==> row == index / at_least_one(columns),
{
    let size = at_least_one(columns);
    let q = index / size;
    let r = index % size;
    vstd::arithmetic::div_mod::lemma_fundamental_div_mod(index, size);
    assert(0 <= q) by (nonlinear_arith)
        requires
            q == index / size,
            index >= 0,
            size >= 1,
    ;
    assert(q < (album_count + size - 1) / size) by (nonlinear_arith)
        requires
            index == size * q + r,
            0 <= r < size,
            index < album_count,
            size >= 1,
    ;
    let start = row * size;
    if row == q {
        assert(start <= index < start + size) by (nonlinear_arith)
            requires
                index == size * q + r,
                0 <= r < size,
                row == q,
                start == row * size,
        ;
    } else if row < q {
        assert(start + size <= index) by (nonlinear_arith)
            requires
                index == size * q + r,
                0 <= r,
                row + 1 <= q,
                start == row * size,
                size >= 1,
        ;
    } else {
        assert(index < start) by (nonlinear_arith)
            requires
                index == size * q + r,
                r < size,
                row >= q + 1,
                start == row * size,
                size >= 1,
        ;
    }
}

/// No row shows more albums than there are columns, and none but the last shows
/// fewer.
pub proof fn law_rows_are_full_but_the_last(album_count: nat, columns: usize, row: usize)
    requires
        album_count <= usize::MAX,
        row_content(album_count, columns, row) is Tiles,
    ensures
        ({
            let content = row_content(album_count, columns, row);
            &&& content->start < content->end <= album_count
            &&& content->end - content->start <= at_least_one(columns)
            &&& content->end < album_count ==> content->end - content->start == at_least_one(
                columns,
            )
        }),
{
    let start = row * at_least_one(columns);
    assert(start >= 0) by (nonlinear_arith)
        requires
            start == row * at_least_one(columns),
            row >= 0,
            at_least_one(columns) >= 1,
    ;
}

/// An album stands in the row that lists its place: row by row, so many albums
/// each. An album that is not listed stands in none.
pub proof fn law_an_album_stands_in_the_row_of_its_place(
    albums: Seq<AlbumViewModel>,
    key: (Seq<char>, Seq<char>),
    columns: usize,
    at: int,
)
    requires
        columns >= 1,
        0 <= at <= albums.len(),
        forall|i: int| 0 <= i < at ==> (#[trigger] albums[i]).key@ != key,
        at < albums.len() ==> albums[at].key@ == key,
    ensures
        at == albums.len() ==> row_of_album(albums, key, columns) is None,
        at < albums.len() ==> row_of_album(albums, key, columns) is Some && row_of_album(
            albums,
            key,
            columns,
        )->0 * columns <= at < (row_of_album(albums, key, columns)->0 + 1) * columns,
{
    assert forall|i: int| 0 <= i < at implies !has_key(key)(#[trigger] albums[i]) by {}
    seqs::lemma_is_first_index(albums, has_key(key), at);
    let row = at / (columns as int);
    vstd::arithmetic::div_mod::lemma_fundamental_div_mod(at, columns as int);
    assert(row * columns <= at < (row + 1) * columns) by (nonlinear_arith)
        requires
            at == columns * row + at % (columns as int),
            0 <= at % (columns as int) < columns,
    ;
}

/// An empty grid says so in its first row, and shows nothing anywhere else; a
/// grid with albums never says that it is empty.
pub proof fn law_only_an_empty_grid_says_so(album_count: nat, columns: usize, row: usize)
    requires
        album_count <= usize::MAX,
    ensures
        row_content(album_count, columns, row) == RowContent::EmptyState <==> album_count == 0
            && row == 0,
        album_count == 0 ==> row_count(album_count, columns) == 1,
        album_count == 0 && row > 0 ==> row_content(album_count, columns, row)
            == RowContent::Nothing,
        album_count > 0 && row == 0 ==> row_content(album_count, columns, row) is Tiles
            && row_content(album_count, columns, row)->start == 0,
{
    if album_count == 0 {
        let size = at_least_one(columns);
        assert((size - 1) / size == 0) by (nonlinear_arith)
            requires
                size >= 1,
        ;
    }
    if row == 0 {
        assert(row * at_least_one(columns) == 0) by (nonlinear_arith)
            requires
                row == 0,
        ;
    }
}

/// The selected column is that of the selected album, and a row that does not
/// hold it has none.
pub proof fn law_the_selected_column_holds_the_selected_album(
    row: Seq<AlbumViewModel>,
    selected: Option<AlbumKey>,
)
    ensures
        selected_column(row, selected) matches Some(column) ==> 0 <= column < row.len()
            && selected is Some && row[column].key@ == selected->0@ && forall|i: int|
            0 <= i < column ==> (#[trigger] row[i]).key@ != selected->0@,
        selected_column(row, selected) is None && selected is Some ==> forall|i: int|
            0 <= i < row.len() ==> (#[trigger] row[i]).key@ != selected->0@,
        selected is None ==> selected_column(row, selected) is None,
{
    if let Some(key) = selected {
        seqs::lemma_first_index(row, has_key(key@));
        let found = album_index(row, key@);
        assert forall|i: int| 0 <= i < found implies (#[trigger] row[i]).key@ != key@ by {
            assert(!has_key(key@)(row[i]));
        }
    }
}

} // verus!
