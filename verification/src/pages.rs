//! The pages of the content stack.

use vstd::prelude::*;

use crate::library::SidebarSelection;

verus! {

/// A page of the content stack.
#[derive(Clone, Copy, Debug, PartialEq, Eq, Structural)]
pub enum Page {
    Songs,
    Albums,
    Statistics,
    Playlists,
    Devices,
    CdImport,
    Duplicates,
}

impl Page {
    /// The name under which the stack knows the page.
    pub open spec fn name_of(self) -> Seq<char> {
        match self {
            Page::Songs => "songs"@,
            Page::Albums => "albums"@,
            Page::Statistics => "statistics"@,
            Page::Playlists => "playlists"@,
            Page::Devices => "devices"@,
            Page::CdImport => "cd-import"@,
            Page::Duplicates => "duplicates"@,
        }
    }

    /// The name under which the stack knows the page.
    pub fn name(self) -> (name: &'static str)
        ensures
            name@ == self.name_of(),
    {
        match self {
            Page::Songs => "songs",
            Page::Albums => "albums",
            Page::Statistics => "statistics",
            Page::Playlists => "playlists",
            Page::Devices => "devices",
            Page::CdImport => "cd-import",
            Page::Duplicates => "duplicates",
        }
    }
}

/// The page that a selection of the sidebar leads to.
pub open spec fn selected_page(selection: Option<SidebarSelection>) -> Page {
    match selection {
        Some(SidebarSelection::Music) | None => Page::Songs,
        Some(SidebarSelection::Albums) => Page::Albums,
        Some(SidebarSelection::Statistics) => Page::Statistics,
        Some(SidebarSelection::Item(_)) => Page::Playlists,
    }
}

/// The page that a selection of the sidebar leads to.
pub fn page_for_selection(selection: Option<SidebarSelection>) -> (page: Page)
    ensures
        page == selected_page(selection),
{
    match selection {
        Some(SidebarSelection::Music) | None => Page::Songs,
        Some(SidebarSelection::Albums) => Page::Albums,
        Some(SidebarSelection::Statistics) => Page::Statistics,
        Some(SidebarSelection::Item(_)) => Page::Playlists,
    }
}

/// Different pages have different names.
pub proof fn law_page_names_differ(left: Page, right: Page)
    requires
        left != right,
    ensures
        left.name_of() != right.name_of(),
{
    reveal_strlit("songs");
    reveal_strlit("albums");
    reveal_strlit("statistics");
    reveal_strlit("playlists");
    reveal_strlit("devices");
    reveal_strlit("cd-import");
    reveal_strlit("duplicates");
    if left.name_of() == right.name_of() {
        assert(left.name_of().len() == right.name_of().len());
        assert(left.name_of()[0] == right.name_of()[0]);
        assert(left.name_of()[1] == right.name_of()[1]);
    }
}

/// Each selection leads to the page of its kind: whatever item of the tree is
/// selected, to the playlists; and no selection leads to the songs.
pub proof fn law_a_selection_leads_to_the_page_of_its_kind(selection: Option<SidebarSelection>)
    ensures
        selected_page(selection) == Page::Playlists <==> (selection matches Some(
            SidebarSelection::Item(_),
        )),
        selected_page(selection) == Page::Albums <==> selection == Some(SidebarSelection::Albums),
        selected_page(selection) == Page::Statistics <==> selection == Some(
            SidebarSelection::Statistics,
        ),
        selected_page(selection) == Page::Songs <==> selection is None || selection == Some(
            SidebarSelection::Music,
        ),
{
}

} // verus!
