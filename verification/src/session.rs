//! The control state of a running session, and what each event does to it:
//! a refresh that comes in, a key, a finished toggle, a change of the
//! auto-borderless policy.

use vstd::prelude::*;
use vstd::string::*;
use crate::config::{other_than, Config, ConfigView};
use crate::display::DisplayInfo;
use crate::reconciler::AutoApply;
use crate::refresh::{delivers, starts_worker, step, workers, RefreshEvent, RefreshPhase};
use crate::toggle::{spec_target, target_display};
use crate::window::{flipped, WindowInfo};
use crate::window_manager::WindowManager;

verus! {

/// Time after which the window list is refreshed again, in milliseconds.
pub const REFRESH_INTERVAL_MILLIS: u64 = 5000;

/// Delay of the next repaint after something changed, in milliseconds.
pub const ACTIVE_REPAINT_MILLIS: u64 = 16;

/// Delay of the next repaint while nothing changes, in milliseconds.
pub const IDLE_REPAINT_MILLIS: u64 = 5000;

/// What the control loop has to do after it handed over what the last
/// enumeration delivered, if anything.
#[derive(Debug, Clone, Copy, PartialEq, Eq, Structural)]
pub struct RefreshOutcome {
    /// A new window list was taken over: the auto-apply pass is due.
    pub accepted: bool,
    /// An enumeration is to be started now.
    pub start_worker: bool,
}

/// A change of the auto-borderless policy for the selected window, as far
/// as it is known before the window is toggled.
#[derive(Debug, Clone)]
pub struct PolicyChange {
    /// Whether the policy is switched on for the window's process.
    pub enable: bool,
    /// Place of the window in the list.
    pub index: usize,
    pub hwnd: isize,
    pub process_name: String,
    /// Whether the window was borderless when the change was made.
    pub was_borderless: bool,
}

impl PolicyChange {
    /// The change asks for a toggle: the policy is switched on for a
    /// decorated window, or off for a borderless one.
    pub open spec fn spec_should_toggle(&self) -> bool {
        self.enable != self.was_borderless
    }

    /// Tells whether the window is to be toggled.
    #[verifier::when_used_as_spec(spec_should_toggle)]
    pub fn should_toggle(&self) -> (toggle: bool)
        ensures
            toggle == self.spec_should_toggle(),
    {
        self.enable != self.was_borderless
    }
}

/// The control state.
pub struct Session {
    pub window_manager: WindowManager,
    /// The selected window, as a place in the list.
    pub selected_window: Option<usize>,
    /// Clock reading when a window list was last taken over.
    pub last_refresh: u64,
    pub resize_to_screen: bool,
    pub selected_display: Option<usize>,
    pub displays: Vec<DisplayInfo>,
    pub needs_repaint: bool,
    pub config: Config,
    /// State of the auto-borderless checkbox.
    pub auto_borderless_enabled: bool,
    pub show_settings: bool,
    pub auto_apply: AutoApply,
}

impl Session {
    /// The current window list.
    pub open spec fn windows(&self) -> Seq<WindowInfo> {
        self.window_manager.windows()
    }

    /// Where the refresh stands.
    pub open spec fn phase(&self) -> RefreshPhase {
        self.window_manager.refresh().phase
    }

    /// The selection, if there is one, is a place in the window list.
    pub open spec fn wf(&self) -> bool {
        self.selected_window is Some ==> self.selected_window->0 < self.windows().len()
    }

    /// The time for the next refresh has come: five seconds have passed
    /// since a window list was taken over.
    pub open spec fn spec_refresh_due(&self, now: u64) -> bool {
        now >= self.last_refresh && now - self.last_refresh >= REFRESH_INTERVAL_MILLIS
    }

    /// What an enumeration delivered is taken over: it is still awaited,
    /// and it is not empty.
    pub open spec fn accepts(&self, windows: Seq<WindowInfo>) -> bool {
        delivers(self.phase(), RefreshEvent::Finished) && windows.len() > 0
    }

    /// The state at the start of a run: an empty window list, nothing
    /// selected but the first display, resizing switched on.
    pub fn new(
        displays: Vec<DisplayInfo>,
        config: Config,
        open_settings: bool,
        now: u64,
    ) -> (session: Session)
        ensures
            session.wf(),
            session.windows() == Seq::<WindowInfo>::empty(),
            session.phase() == RefreshPhase::Idle,
            session.selected_window is None,
            session.last_refresh == now,
            session.resize_to_screen,
            session.selected_display == if displays@.len() > 0 {
                Some(0usize)
            } else {
                None
            },
            session.displays == displays,
            !session.needs_repaint,
            session.config == config,
            !session.auto_borderless_enabled,
            session.show_settings == open_settings,
            session.auto_apply@ == Set::<isize>::empty(),
    {
        let selected_display = if displays.len() > 0 {
            Some(0)
        } else {
            None
        };
        Session {
            window_manager: WindowManager::new(),
            selected_window: None,
            last_refresh: now,
            resize_to_screen: true,
            selected_display,
            displays,
            needs_repaint: false,
            config,
            auto_borderless_enabled: false,
            show_settings: open_settings,
            auto_apply: AutoApply::new(),
        }
    }

    /// The current window list.
    pub fn get_windows(&self) -> (windows: &[WindowInfo])
        ensures
            windows@ == self.windows(),
    {
        self.window_manager.get_windows()
    }

    /// Drops a selection that is not a place in the window list.
    pub fn revalidate_selection(&mut self)
        ensures
            final(self).wf(),
            *final(self) == (Session {
                selected_window: within(old(self).selected_window, old(self).windows().len()),
                ..*old(self)
            }),
    {
        match self.selected_window {
            Some(selected) => {
                if selected >= self.window_manager.get_windows().len() {
                    self.selected_window = None;
                }
            },
            None => {},
        }
    }

    /// Selects the window at `index`; a place outside the list changes
    /// nothing. Returns whether the window is now selected.
    pub fn select_window(&mut self, index: usize) -> (selected: bool)
        requires
            old(self).wf(),
        ensures
            final(self).wf(),
            selected == (index < old(self).windows().len()),
            *final(self) == (Session {
                selected_window: if selected {
                    Some(index)
                } else {
                    old(self).selected_window
                },
                ..*old(self)
            }),
    {
        if index < self.window_manager.get_windows().len() {
            self.selected_window = Some(index);
            true
        } else {
            false
        }
    }

    /// Tells whether an enumeration is under way.
    pub fn is_refresh_in_progress(&self) -> (busy: bool)
        ensures
            busy == (workers(self.phase()) == 1),
    {
        self.window_manager.is_refresh_in_progress()
    }

    /// Asks for a refresh. Returns whether an enumeration is to be started
    /// now; while one is under way nothing is started and nothing changes.
    pub fn start_async_refresh(&mut self) -> (start: bool)
        requires
            old(self).wf(),
        ensures
            final(self).wf(),
            start == starts_worker(old(self).phase(), RefreshEvent::Request),
            final(self).phase() == step(old(self).phase(), RefreshEvent::Request),
            final(self).windows() == old(self).windows(),
            *final(self) == (Session {
                window_manager: final(self).window_manager,
                ..*old(self)
            }),
    {
        self.window_manager.begin_refresh()
    }

    /// Tells whether the time for the next refresh has come.
    #[verifier::when_used_as_spec(spec_refresh_due)]
    pub fn refresh_due(&self, now: u64) -> (is_due: bool)
        ensures
            is_due == self.spec_refresh_due(now),
    {
        now >= self.last_refresh && now - self.last_refresh >= REFRESH_INTERVAL_MILLIS
    }

    /// Takes over what an enumeration delivered. The list replaces the
    /// current one if the result is still awaited and is not empty; a
    /// selection that the new list is too short for is dropped. Returns
    /// whether the list was taken over.
    pub fn receive_windows(&mut self, windows: Vec<WindowInfo>, now: u64) -> (accepted: bool)
        requires
            old(self).wf(),
        ensures
            final(self).wf(),
            accepted == old(self).accepts(windows@),
            final(self).phase() == RefreshPhase::Idle,
            final(self).windows() == if accepted {
                windows@
            } else {
                old(self).windows()
            },
            *final(self) == (Session {
                window_manager: final(self).window_manager,
                selected_window: if accepted {
                    within(old(self).selected_window, windows@.len())
                } else {
                    old(self).selected_window
                },
                last_refresh: if accepted {
                    now
                } else {
                    old(self).last_refresh
                },
                needs_repaint: accepted || old(self).needs_repaint,
                ..*old(self)
            }),
    {
        let deliver = self.window_manager.finish_refresh();
        if deliver && windows.len() > 0 {
            match self.selected_window {
                Some(selected) => {
                    if selected >= windows.len() {
                        self.selected_window = None;
                    }
                },
                None => {},
            }
            self.window_manager.set_windows(windows);
            self.last_refresh = now;
            self.needs_repaint = true;
            true
        } else {
            false
        }
    }

    /// One turn of the refresh handling: takes over `received`, if an
    /// enumeration has delivered it, and then asks for a new refresh if
    /// the time has come and no result is awaited.
    pub fn handle_refresh(
        &mut self,
        received: Option<Vec<WindowInfo>>,
        now: u64,
    ) -> (outcome: RefreshOutcome)
        requires
            old(self).wf(),
        ensures
            final(self).wf(),
            outcome.accepted == (received is Some && old(self).accepts(received->0@)),
            outcome.start_worker == (!outcome.accepted && old(self).spec_refresh_due(now)
                && (received is Some || old(self).phase() == RefreshPhase::Idle)),
            final(self).phase() == if outcome.start_worker {
                RefreshPhase::Running
            } else if received is Some {
                RefreshPhase::Idle
            } else {
                old(self).phase()
            },
            final(self).windows() == if outcome.accepted {
                received->0@
            } else {
                old(self).windows()
            },
            *final(self) == (Session {
                window_manager: final(self).window_manager,
                selected_window: if outcome.accepted {
                    within(old(self).selected_window, received->0@.len())
                } else {
                    old(self).selected_window
                },
                last_refresh: if outcome.accepted {
                    now
                } else {
                    old(self).last_refresh
                },
                needs_repaint: outcome.accepted || old(self).needs_repaint,
                ..*old(self)
            }),
    {
        let accepted = match received {
            Some(windows) => self.receive_windows(windows, now),
            None => false,
        };
        let start_worker = if self.refresh_due(now) && !self.window_manager.is_awaiting_result() {
            self.window_manager.begin_refresh()
        } else {
            false
        };
        RefreshOutcome { accepted, start_worker }
    }

    /// The display that a toggle resizes to.
    pub fn toggle_target(&self) -> (target: Option<&DisplayInfo>)
        ensures
            match target {
                Some(display) => spec_target(
                    self.resize_to_screen,
                    self.selected_display,
                    self.displays@,
                ) == Some(*display),
                None => spec_target(self.resize_to_screen, self.selected_display, self.displays@)
                    is None,
            },
    {
        target_display(self.resize_to_screen, self.selected_display, &self.displays)
    }

    /// The refresh key: a result that is awaited is given up, a refresh is
    /// asked for, and the window is repainted. Returns whether an
    /// enumeration is to be started now.
    pub fn on_refresh_key(&mut self) -> (start: bool)
        requires
            old(self).wf(),
        ensures
            final(self).wf(),
            start == (old(self).phase() == RefreshPhase::Idle),
            final(self).phase() == after_restart(old(self).phase()),
            final(self).windows() == old(self).windows(),
            *final(self) == (Session {
                window_manager: final(self).window_manager,
                needs_repaint: true,
                ..*old(self)
            }),
    {
        self.window_manager.abandon_refresh();
        let start = self.window_manager.begin_refresh();
        self.needs_repaint = true;
        start
    }

    /// The escape key: closes the settings if they are open, else drops
    /// the selection; the window is repainted.
    pub fn on_escape(&mut self)
        ensures
            old(self).wf() ==> final(self).wf(),
            *final(self) == (Session {
                show_settings: false,
                selected_window: if old(self).show_settings {
                    old(self).selected_window
                } else {
                    None
                },
                needs_repaint: true,
                ..*old(self)
            }),
    {
        if self.show_settings {
            self.show_settings = false;
        } else {
            self.selected_window = None;
        }
        self.needs_repaint = true;
    }

    /// Takes note of how the toggle of the window at `index` ended. After
    /// a success the recorded decoration state flips, a result that is
    /// awaited is given up, a refresh is asked for and the window is
    /// repainted; a failure changes nothing. Returns whether an
    /// enumeration is to be started now.
    pub fn window_toggled(&mut self, index: usize, succeeded: bool) -> (start: bool)
        requires
            old(self).wf(),
            index < old(self).windows().len(),
        ensures
            final(self).wf(),
            start == (succeeded && old(self).phase() == RefreshPhase::Idle),
            !succeeded ==> *final(self) == *old(self),
            succeeded ==> {
                &&& final(self).phase() == after_restart(old(self).phase())
                &&& final(self).windows() == old(self).windows().update(
                    index as int,
                    flipped(old(self).windows()[index as int]),
                )
                &&& *final(self) == (Session {
                    window_manager: final(self).window_manager,
                    needs_repaint: true,
                    ..*old(self)
                })
            },
    {
        if succeeded {
            self.window_manager.mark_toggled(index);
            self.window_manager.abandon_refresh();
            let start = self.window_manager.begin_refresh();
            self.needs_repaint = true;
            start
        } else {
            false
        }
    }

    /// Describes the policy change that the checkbox asks for: for the
    /// selected window, with the checkbox's state as the new policy.
    /// `None` where no window is selected.
    pub fn begin_policy_change(&self) -> (change: Option<PolicyChange>)
        requires
            self.wf(),
        ensures
            change is Some == self.selected_window is Some,
            change is Some ==> {
                let window = self.windows()[self.selected_window->0 as int];
                &&& change->0.enable == self.auto_borderless_enabled
                &&& change->0.index == self.selected_window->0
                &&& change->0.hwnd == window.hwnd
                &&& change->0.process_name@ == window.process_name@
                &&& change->0.was_borderless == window.is_borderless
            },
    {
        match self.selected_window {
            Some(index) => {
                let window = &self.window_manager.get_windows()[index];
                Some(
                    PolicyChange {
                        enable: self.auto_borderless_enabled,
                        index,
                        hwnd: window.hwnd,
                        process_name: window.process_name.clone(),
                        was_borderless: window.is_borderless,
                    },
                )
            },
            None => None,
        }
    }

    /// Completes a policy change, after the toggle that it asked for, if
    /// any, was made. `toggled` tells whether that toggle succeeded.
    ///
    /// The process joins or leaves the policy list. A window that the
    /// change makes borderless goes on the session record, one whose
    /// decorations it restores comes off, however the toggle ended. After a
    /// toggle that succeeded the recorded decoration state flips and a
    /// refresh is asked for. Returns whether an enumeration is to be
    /// started now.
    pub fn finish_policy_change(&mut self, change: PolicyChange, toggled: bool) -> (start: bool)
        requires
            old(self).wf(),
            change.index < old(self).windows().len(),
        ensures
            final(self).wf(),
            start == (change.spec_should_toggle() && toggled && old(self).phase()
                == RefreshPhase::Idle),
            final(self).config@ == (ConfigView {
                auto_borderless_apps: policy_after(
                    old(self).config@.auto_borderless_apps,
                    change.process_name@,
                    change.enable,
                ),
                ..old(self).config@
            }),
            final(self).auto_apply@ == record_after(old(self).auto_apply@, change),
            !(change.spec_should_toggle() && toggled) ==> final(self).window_manager == old(
                self).window_manager,
            change.spec_should_toggle() && toggled ==> {
                &&& final(self).phase() == after_restart(old(self).phase())
                &&& final(self).windows() == old(self).windows().update(
                    change.index as int,
                    flipped(old(self).windows()[change.index as int]),
                )
            },
            *final(self) == (Session {
                window_manager: final(self).window_manager,
                config: final(self).config,
                auto_apply: final(self).auto_apply,
                needs_repaint: old(self).needs_repaint || (change.spec_should_toggle()
                    && toggled),
                ..*old(self)
            }),
    {
        let should_toggle = change.should_toggle();
        let start = if should_toggle && toggled {
            self.window_manager.mark_toggled(change.index);
            self.needs_repaint = true;
            self.window_manager.abandon_refresh();
            self.window_manager.begin_refresh()
        } else {
            false
        };
        if change.enable {
            self.config.add_auto_borderless(change.process_name);
            if should_toggle {
                self.auto_apply.record_applied(change.hwnd);
            }
        } else {
            self.config.remove_auto_borderless(change.process_name.as_str());
            if should_toggle {
                self.auto_apply.forget(change.hwnd);
            }
        }
        start
    }

    /// Sets the auto-borderless checkbox to what the policy says of the
    /// selected window's process; without a selection it stays.
    pub fn sync_auto_checkbox(&mut self)
        requires
            old(self).wf(),
        ensures
            final(self).wf(),
            *final(self) == (Session {
                auto_borderless_enabled: if old(self).selected_window is Some {
                    old(self).config@.auto_borderless_apps.contains(
                        old(self).windows()[old(self).selected_window->0 as int].process_name@,
                    )
                } else {
                    old(self).auto_borderless_enabled
                },
                ..*old(self)
            }),
    {
        match self.selected_window {
            Some(index) => {
                let listed = self.config.is_auto_borderless(
                    self.window_manager.get_windows()[index].process_name.as_str(),
                );
                self.auto_borderless_enabled = listed;
            },
            None => {},
        }
    }

    /// Tells whether the toggle button is enabled: a window is selected
    /// and the policy does not rule its process.
    pub fn action_enabled(&self) -> (enabled: bool)
        ensures
            enabled == (self.selected_window is Some && !self.auto_borderless_enabled),
    {
        self.selected_window.is_some() && !self.auto_borderless_enabled
    }

    /// The delay until the next repaint, in milliseconds: short once after
    /// something changed, long otherwise.
    pub fn take_repaint_delay(&mut self) -> (millis: u64)
        ensures
            millis == if old(self).needs_repaint {
                ACTIVE_REPAINT_MILLIS
            } else {
                IDLE_REPAINT_MILLIS
            },
            *final(self) == (Session { needs_repaint: false, ..*old(self) }),
    {
        if self.needs_repaint {
            self.needs_repaint = false;
            ACTIVE_REPAINT_MILLIS
        } else {
            IDLE_REPAINT_MILLIS
        }
    }
}

/// A selection that `len` windows have a place for; none where the list is
/// too short for it.
pub open spec fn within(selected: Option<usize>, len: nat) -> Option<usize> {
    if selected is Some && selected->0 >= len {
        None
    } else {
        selected
    }
}

/// Where the refresh stands after a result that is awaited was given up
/// and a refresh was asked for: a new enumeration runs if none was under
/// way, else the old one runs on and its result will be dropped.
pub open spec fn after_restart(phase: RefreshPhase) -> RefreshPhase {
    step(step(phase, RefreshEvent::Abandon), RefreshEvent::Request)
}

/// The policy list after the policy was switched on or off for a process.
pub open spec fn policy_after(policy: Seq<Seq<char>>, process_name: Seq<char>, enable: bool) -> Seq<
    Seq<char>,
> {
    if !enable {
        policy.filter(other_than(process_name))
    } else if policy.contains(process_name) {
        policy
    } else {
        policy.push(process_name)
    }
}

/// The session record after a policy change: a window that the change
/// makes borderless joins it, one whose decorations it restores leaves it.
pub open spec fn record_after(applied: Set<isize>, change: PolicyChange) -> Set<isize> {
    if !change.spec_should_toggle() {
        applied
    } else if change.enable {
        applied.insert(change.hwnd)
    } else {
        applied.remove(change.hwnd)
    }
}

} // verus!
