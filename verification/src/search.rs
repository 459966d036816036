//! What typing into the search field does.

use vstd::prelude::*;

use crate::pages::Page;
use crate::text;
use crate::text::trim;

verus! {

/// How long typing has to pause before the views are searched anew, in
/// milliseconds.
pub const SEARCH_REBUILD_DEBOUNCE_MILLIS: u64 = 100;

/// What a change of the search text does at once.
#[derive(Clone, Copy, Debug, PartialEq, Eq, Structural)]
pub struct SearchChange {
    /// Playback widens to what the visible view shows without a search.
    pub widen_queue: bool,
}

/// What another search text does at once.
pub open spec fn change_of(current: Seq<char>, new_text: Seq<char>) -> Option<SearchChange> {
    if current == new_text {
        None
    } else {
        Some(SearchChange { widen_queue: text::trimmed(new_text).len() == 0 })
    }
}

/// Takes in another search text. Returns what it does at once, or `None` for
/// the same text; otherwise the views are searched anew once typing pauses.
pub fn search_changed(current: &mut String, new_text: &str) -> (change: Option<SearchChange>)
    ensures
        final(current)@ == new_text@,
        change == change_of(old(current)@, new_text@),
{
    let new_text = new_text.to_owned();
    if *current == new_text {
        return None;
    }
    let widen_queue = trim(new_text.as_str()).is_empty();
    *current = new_text;
    Some(SearchChange { widen_queue })
}

/// Which summary the status bar shows after a search: that of the rows which
/// were just built for the songs, when they are visible.
pub fn summarizes_songs(page: Option<Page>) -> (songs: bool)
    ensures
        songs == (page == Some(Page::Songs)),
{
    match page {
        Some(Page::Songs) => true,
        _ => false,
    }
}

/// The same text typed again does nothing; another one widens the queue iff it
/// searches for nothing.
pub proof fn law_a_search_for_nothing_widens_the_queue(current: Seq<char>, new_text: Seq<char>)
    ensures
        change_of(new_text, new_text) is None,
        current != new_text ==> change_of(current, new_text) is Some && (change_of(
            current,
            new_text,
        )->0.widen_queue <==> text::blank(Some(new_text))),
{
    text::law_trimming_leaves_a_text_unless_it_is_blank(new_text);
    let value = Some(new_text);
    assert(value->0 == new_text);
    if text::blank(value) {
        assert(forall|i: int| 0 <= i < new_text.len() ==> text::white_space(#[trigger] new_text[i]));
    }
}

} // verus!
