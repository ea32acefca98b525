//! The window manager: the current window list and the refresh latch.

use vstd::prelude::*;
use crate::display::{
    display_views, enumerate_displays, named_displays, DisplayInfo, MonitorRect,
};
use crate::refresh::{delivers, starts_worker, step, workers, RefreshEvent, RefreshState};
use crate::sort::stable_sort_of;
use crate::toggle::{plan_toggle, spec_plan, TogglePlan};
use crate::window::{
    collect_windows, flipped, listings, raw_views, window_views, RawWindow, WindowInfo,
};

verus! {

/// Holds the window list of the last refresh that delivered one, and the
/// latch that lets one refresh run at a time.
pub struct WindowManager {
    windows: Vec<WindowInfo>,
    refresh: RefreshState,
}

impl WindowManager {
    /// The current window list.
    pub closed spec fn windows(&self) -> Seq<WindowInfo> {
        self.windows@
    }

    /// The refresh latch.
    pub closed spec fn refresh(&self) -> RefreshState {
        self.refresh
    }

    /// A manager with an empty window list and no refresh under way.
    pub fn new() -> (manager: WindowManager)
        ensures
            manager.windows() == Seq::<WindowInfo>::empty(),
            !manager.spec_is_refresh_in_progress(),
    {
        WindowManager { windows: Vec::new(), refresh: RefreshState::new() }
    }

    /// The current window list.
    pub fn get_windows(&self) -> (windows: &[WindowInfo])
        ensures
            windows@ == self.windows(),
    {
        self.windows.as_slice()
    }

    /// Replaces the window list as a whole.
    pub fn set_windows(&mut self, windows: Vec<WindowInfo>)
        ensures
            final(self).windows() == windows@,
            final(self).refresh() == old(self).refresh(),
    {
        self.windows = windows;
    }

    /// The window at `index`, for changing it in place; `None` where the
    /// list is shorter.
    pub fn get_window_mut(&mut self, index: usize) -> (window: Option<&mut WindowInfo>)
        ensures
            final(self).refresh() == old(self).refresh(),
            match window {
                Some(w) => {
                    &&& index < old(self).windows().len()
                    &&& *w == old(self).windows()[index as int]
                    &&& final(self).windows() == old(self).windows().update(
                        index as int,
                        *final(w),
                    )
                },
                None => {
                    &&& index >= old(self).windows().len()
                    &&& final(self).windows() == old(self).windows()
                },
            },
    {
        if index < self.windows.len() {
            Some(&mut self.windows[index])
        } else {
            None
        }
    }

    /// An enumeration is under way.
    pub open spec fn spec_is_refresh_in_progress(&self) -> bool {
        workers(self.refresh().phase) == 1
    }

    /// Tells whether an enumeration is under way.
    #[verifier::when_used_as_spec(spec_is_refresh_in_progress)]
    pub fn is_refresh_in_progress(&self) -> (busy: bool)
        ensures
            busy == self.spec_is_refresh_in_progress(),
    {
        self.refresh.in_progress()
    }

    /// Tells whether the result of an enumeration is awaited.
    pub fn is_awaiting_result(&self) -> (waiting: bool)
        ensures
            waiting == delivers(self.refresh().phase, RefreshEvent::Finished),
    {
        self.refresh.awaiting_result()
    }

    /// Asks for a refresh. Returns whether an enumeration is to be started
    /// now; while one is under way nothing is started and nothing changes.
    pub fn begin_refresh(&mut self) -> (start: bool)
        ensures
            start == !old(self).spec_is_refresh_in_progress(),
            start == starts_worker(old(self).refresh().phase, RefreshEvent::Request),
            final(self).refresh().phase == step(old(self).refresh().phase, RefreshEvent::Request),
            final(self).spec_is_refresh_in_progress(),
            final(self).windows() == old(self).windows(),
            !start ==> final(self).refresh() == old(self).refresh(),
    {
        self.refresh.request()
    }

    /// Stops waiting for the enumeration under way: its result will be
    /// dropped.
    pub fn abandon_refresh(&mut self)
        ensures
            final(self).refresh().phase == step(old(self).refresh().phase, RefreshEvent::Abandon),
            final(self).spec_is_refresh_in_progress() == old(self).spec_is_refresh_in_progress(),
            final(self).windows() == old(self).windows(),
    {
        self.refresh.abandon();
    }

    /// Records that the enumeration under way has ended. Returns whether
    /// its result is still awaited.
    pub fn finish_refresh(&mut self) -> (deliver: bool)
        ensures
            deliver == delivers(old(self).refresh().phase, RefreshEvent::Finished),
            final(self).refresh().phase == step(old(self).refresh().phase, RefreshEvent::Finished),
            !final(self).spec_is_refresh_in_progress(),
            final(self).windows() == old(self).windows(),
    {
        self.refresh.finish()
    }

    /// Makes the window list of one enumeration from what was read of the
    /// top-level windows: the listed ones, sorted by title, ties in the
    /// order in which they were read. What was read before an enumeration
    /// broke off is listed and sorted in the same way.
    pub fn enumerate(&self, raws: Vec<RawWindow>) -> (windows: Vec<WindowInfo>)
        ensures
            exists|kept: Seq<WindowInfo>|
                {
                    &&& window_views(kept) == listings(raw_views(raws@))
                    &&& #[trigger] stable_sort_of(windows@, kept)
                },
    {
        collect_windows(raws)
    }

    /// One whole refresh in a single call, for a caller that has read the
    /// top-level windows already: while an enumeration is under way it
    /// delivers an empty list at once; else it delivers the list that
    /// [`WindowManager::enumerate`] makes, and the latch is free again
    /// afterwards. The current window list stays in either case.
    pub fn refresh_windows(&mut self, raws: Vec<RawWindow>) -> (windows: Vec<WindowInfo>)
        ensures
            final(self).windows() == old(self).windows(),
            final(self).refresh() == old(self).refresh(),
            old(self).spec_is_refresh_in_progress() ==> windows@.len() == 0,
            !old(self).spec_is_refresh_in_progress() ==> exists|kept: Seq<WindowInfo>|
                {
                    &&& window_views(kept) == listings(raw_views(raws@))
                    &&& #[trigger] stable_sort_of(windows@, kept)
                },
    {
        if !self.begin_refresh() {
            return Vec::new();
        }
        let windows = self.enumerate(raws);
        self.finish_refresh();
        windows
    }

    /// The display list for the monitors `rects`, given in the order of
    /// discovery: the primary display first, the others by name.
    pub fn get_displays(&self, rects: &Vec<MonitorRect>) -> (displays: Vec<DisplayInfo>)
        requires
            forall|i: int| 0 <= i < rects@.len() ==> (#[trigger] rects@[i]).extents_fit(),
        ensures
            exists|named: Seq<DisplayInfo>|
                {
                    &&& display_views(named) == named_displays(rects@)
                    &&& #[trigger] stable_sort_of(displays@, named)
                },
    {
        enumerate_displays(rects)
    }

    /// Plans the toggle of a window whose style is `current_style`: the
    /// style to write and where the window goes.
    pub fn toggle_borderless(
        &self,
        current_style: u32,
        resize_to_screen: bool,
        selected_display: Option<&DisplayInfo>,
    ) -> (plan: TogglePlan)
        ensures
            plan == spec_plan(
                current_style,
                resize_to_screen,
                match selected_display {
                    Some(display) => Some(*display),
                    None => None,
                },
            ),
    {
        plan_toggle(current_style, resize_to_screen, selected_display)
    }

    /// Flips the recorded decoration state of the window at `index`, after
    /// a toggle of it succeeded. A missing index changes nothing.
    pub fn mark_toggled(&mut self, index: usize)
        ensures
            final(self).refresh() == old(self).refresh(),
            final(self).windows() == if index < old(self).windows().len() {
                old(self).windows().update(index as int, flipped(old(self).windows()[index as int]))
            } else {
                old(self).windows()
            },
    {
        match self.get_window_mut(index) {
            Some(window) => {
                window.is_borderless = !window.is_borderless;
            },
            None => {},
        }
    }
}

} // verus!
