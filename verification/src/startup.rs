//! What the window does after its first frame, and after the library was read.

use vstd::prelude::*;

use crate::library::SidebarSelection;
use crate::pages;
use crate::window;

verus! {

/// How far the library is read.
#[derive(Clone, Copy, Debug, PartialEq, Eq, Structural)]
pub enum HydrationState {
    Pending,
    Ready,
    Failed,
}

/// What is done once the library was read, in this order.
#[derive(Clone, Copy, Debug, PartialEq, Eq, Structural)]
pub struct PostHydration {
    /// The selection that is restored. The songs are shown already.
    pub restore: Option<SidebarSelection>,
    /// A consolidation may be resumed, and the order of smart shuffle is built.
    pub resume_library_work: bool,
}

/// The work that waits for the library. Devices are looked for and interrupted
/// writes resumed in any case.
#[derive(Clone, Copy, Debug, PartialEq, Eq, Structural)]
pub struct DeferredStartup {
    pub selection: SidebarSelection,
    pub pending: bool,
}

/// The selection that has to be restored: the songs are shown at the start.
pub open spec fn restored(selection: SidebarSelection) -> Option<SidebarSelection> {
    if selection is Music {
        None
    } else {
        Some(selection)
    }
}

/// Whether background work may start: once the library is read.
pub fn schedulers_may_start(state: HydrationState) -> (start: bool)
    ensures
        start == (state is Ready),
{
    match state {
        HydrationState::Ready => true,
        _ => false,
    }
}

impl DeferredStartup {
    /// What waits at the start.
    pub fn new(selection: SidebarSelection) -> (startup: Self)
        ensures
            startup == (DeferredStartup { selection, pending: true }),
    {
        DeferredStartup { selection, pending: true }
    }

    /// What is done once the library was read.
    pub open spec fn work(&self, state: HydrationState) -> Option<PostHydration> {
        if self.pending {
            Some(
                PostHydration {
                    restore: restored(self.selection),
                    resume_library_work: state is Ready,
                },
            )
        } else {
            None
        }
    }

    /// The library was read, or could not be. What waited for it is handed out
    /// once.
    pub fn hydration_ended(&mut self, state: HydrationState) -> (work: Option<PostHydration>)
        ensures
            work == old(self).work(state),
            *final(self) == (DeferredStartup { pending: false, ..*old(self) }),
    {
        if !self.pending {
            return None;
        }
        self.pending = false;
        let restore = match self.selection {
            SidebarSelection::Music => None,
            selection => Some(selection),
        };
        Some(PostHydration { restore, resume_library_work: schedulers_may_start(state) })
    }

    /// The first frame is shown. Where no reading of the library could be
    /// started, nothing is waited for.
    pub fn run(&mut self, hydration_started: bool, state: HydrationState) -> (work: Option<
        PostHydration,
    >)
        ensures
            work == if hydration_started {
                None
            } else {
                old(self).work(state)
            },
            *final(self) == if hydration_started {
                *old(self)
            } else {
                DeferredStartup { pending: false, ..*old(self) }
            },
    {
        if hydration_started {
            return None;
        }
        self.hydration_ended(state)
    }
}

/// What waits for the library is done once, whether the library is read or not,
/// and in whatever order the two ends come.
pub proof fn law_deferred_work_is_done_once(startup: DeferredStartup, state: HydrationState)
    ensures
        (DeferredStartup { pending: false, ..startup }).work(state) is None,
        startup.pending ==> startup.work(state) is Some,
{
}

/// What a session remembers is what the next one shows: the page of the
/// selection that was persistent, whether it has to be restored or not.
pub proof fn law_selection_survives_a_restart(selection: Option<SidebarSelection>)
    ensures
        pages::selected_page(restored(window::remembered(selection))) == pages::selected_page(
            selection,
        ),
        selection is Some && !(selection->0 is Music) ==> restored(window::remembered(selection))
            == selection,
        !(pages::selected_page(restored(window::remembered(selection))) is Devices),
{
}

/// What waited for the library restores the selection, unless it is of the
/// songs, which are shown already; and work on the library resumes iff the
/// library was read.
pub proof fn law_the_selection_is_restored_once_the_library_is_read(
    startup: DeferredStartup,
    state: HydrationState,
)
    requires
        startup.pending,
    ensures
        startup.work(state) matches Some(work) && (work.resume_library_work <==> state
            == HydrationState::Ready) && (startup.selection == SidebarSelection::Music
            ==> work.restore is None) && (startup.selection != SidebarSelection::Music
            ==> work.restore == Some(startup.selection)),
{
}

} // verus!
