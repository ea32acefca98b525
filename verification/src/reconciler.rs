//! The auto-apply reconciler: which windows of a fresh list are made
//! borderless without asking, and the record of those already done in this
//! session.

use std::collections::HashSet;
use vstd::prelude::*;
use vstd::std_specs::hash::*;
use crate::config::Config;
use crate::window::WindowInfo;

verus! {

broadcast use vstd::std_specs::hash::group_hash_axioms;

/// A window is due when its process is on the policy list, it still has its
/// decorations, and it was not made borderless by the policy before in this
/// session.
pub open spec fn due(policy: Seq<Seq<char>>, applied: Set<isize>, window: WindowInfo) -> bool {
    &&& policy.contains(window.process_name@)
    &&& !window.is_borderless
    &&& !applied.contains(window.hwnd)
}

/// `i` is where the first due window at or after `from` stands.
pub open spec fn is_next_due(
    policy: Seq<Seq<char>>,
    applied: Set<isize>,
    windows: Seq<WindowInfo>,
    from: int,
    i: int,
) -> bool {
    &&& from <= i < windows.len()
    &&& due(policy, applied, windows[i])
    &&& forall|j: int| from <= j < i ==> !due(policy, applied, #[trigger] windows[j])
}

/// The session record after one pass over `windows`, in order: every due
/// window is toggled, and `outcomes[i]` tells whether the toggle of
/// `windows[i]` succeeded; the handle of a window toggled with success
/// joins the record.
pub open spec fn after_pass(
    policy: Seq<Seq<char>>,
    applied: Set<isize>,
    windows: Seq<WindowInfo>,
    outcomes: Seq<bool>,
) -> Set<isize>
    decreases windows.len(),
{
    if windows.len() == 0 {
        applied
    } else {
        let before = after_pass(policy, applied, windows.drop_last(), outcomes.drop_last());
        if due(policy, before, windows.last()) && outcomes[windows.len() - 1] {
            before.insert(windows.last().hwnd)
        } else {
            before
        }
    }
}

/// The pass toggles `windows[i]`: the window is due when the pass comes to
/// it.
pub open spec fn toggles(
    policy: Seq<Seq<char>>,
    applied: Set<isize>,
    windows: Seq<WindowInfo>,
    outcomes: Seq<bool>,
    i: int,
) -> bool {
    due(policy, after_pass(policy, applied, windows.take(i), outcomes.take(i)), windows[i])
}

/// The record of the windows that the policy has made borderless in this
/// session. It starts empty with every run and is never stored.
pub struct AutoApply {
    applied: HashSet<isize>,
}

impl View for AutoApply {
    type V = Set<isize>;

    closed spec fn view(&self) -> Set<isize> {
        self.applied@
    }
}

impl AutoApply {
    /// The record of a new session: empty.
    pub fn new() -> (session: AutoApply)
        ensures
            session@ == Set::<isize>::empty(),
    {
        AutoApply { applied: HashSet::new() }
    }

    /// Tells whether the window `hwnd` is on record.
    pub fn is_applied(&self, hwnd: isize) -> (on_record: bool)
        ensures
            on_record == self@.contains(hwnd),
    {
        self.applied.contains(&hwnd)
    }

    /// Tells whether `window` is due.
    pub fn is_due(&self, config: &Config, window: &WindowInfo) -> (yes: bool)
        ensures
            yes == due(config@.auto_borderless_apps, self@, *window),
    {
        !window.is_borderless && !self.applied.contains(&window.hwnd) && config.is_auto_borderless(
            window.process_name.as_str(),
        )
    }

    /// Finds the first due window at or after `from`: the next one that a
    /// pass hands to the toggle. The windows before it are passed over.
    pub fn next_due(&self, config: &Config, windows: &[WindowInfo], from: usize) -> (next: Option<
        usize,
    >)
        ensures
            match next {
                Some(i) => is_next_due(
                    config@.auto_borderless_apps,
                    self@,
                    windows@,
                    from as int,
                    i as int,
                ),
                None => forall|j: int|
                    from <= j < windows@.len() ==> !due(
                        config@.auto_borderless_apps,
                        self@,
                        #[trigger] windows@[j],
                    ),
            },
    {
        let mut i = from;
        while i < windows.len()
            invariant
                from <= i,
                forall|j: int|
                    from <= j < i && j < windows@.len() ==> !due(
                        config@.auto_borderless_apps,
                        self@,
                        #[trigger] windows@[j],
                    ),
            decreases windows@.len() - i,
        {
            if self.is_due(config, &windows[i]) {
                return Some(i);
            }
            i += 1;
        }
        None
    }

    /// One pass over `windows`, in order: each window that
    /// [`AutoApply::next_due`] finds is handed to `toggle`, which makes it
    /// borderless and tells whether that worked, and goes on record if it
    /// did; the windows in between are passed over. Returns, for each
    /// window, whether it was toggled with success.
    pub fn reconcile<F: Fn(isize) -> bool>(
        &mut self,
        config: &Config,
        windows: &[WindowInfo],
        toggle: F,
    ) -> (outcomes: Vec<bool>)
        requires
            forall|hwnd: isize| call_requires(toggle, (hwnd,)),
        ensures
            outcomes@.len() == windows@.len(),
            final(self)@ == after_pass(
                config@.auto_borderless_apps,
                old(self)@,
                windows@,
                outcomes@,
            ),
            answers(config@.auto_borderless_apps, old(self)@, windows@, outcomes@, toggle),
    {
        let ghost policy = config@.auto_borderless_apps;
        let ghost before = self@;
        let mut outcomes: Vec<bool> = Vec::new();
        assert(windows@.take(0) =~= Seq::<WindowInfo>::empty());
        loop
            invariant
                outcomes@.len() <= windows@.len(),
                policy == config@.auto_borderless_apps,
                before == old(self)@,
                forall|hwnd: isize| call_requires(toggle, (hwnd,)),
                self@ == after_pass(
                    policy,
                    before,
                    windows@.take(outcomes@.len() as int),
                    outcomes@,
                ),
                answers(policy, before, windows@, outcomes@, toggle),
            ensures
                outcomes@.len() == windows@.len(),
                self@ == after_pass(policy, before, windows@, outcomes@),
                answers(policy, before, windows@, outcomes@, toggle),
            decreases windows@.len() - outcomes@.len(),
        {
            let from = outcomes.len();
            let next = self.next_due(config, windows, from);
            let stop = match next {
                Some(i) => i,
                None => windows.len(),
            };
            let ghost done = outcomes@;
            while outcomes.len() < stop
                invariant
                    from <= outcomes@.len() <= stop <= windows@.len(),
                    done.len() == from,
                    outcomes@.take(from as int) == done,
                    forall|j: int| from <= j < outcomes@.len() ==> !#[trigger] outcomes@[j],
                decreases stop - outcomes@.len(),
            {
                let ghost so_far = outcomes@;
                outcomes.push(false);
                assert(outcomes@.take(from as int) =~= so_far.take(from as int));
            }
            proof {
                assert(outcomes@.take(stop as int) =~= outcomes@);
                lemma_pass_skips(policy, before, windows@, outcomes@, from as int, stop as int);
                assert forall|j: int| 0 <= j < stop implies #[trigger] answer_at(
                    policy,
                    before,
                    windows@,
                    outcomes@,
                    toggle,
                    j,
                ) by {
                    if j < from {
                        assert(outcomes@.take(j) =~= done.take(j));
                        assert(outcomes@[j] == outcomes@.take(from as int)[j]);
                        assert(answer_at(policy, before, windows@, done, toggle, j));
                    } else {
                        lemma_pass_skips(policy, before, windows@, outcomes@, from as int, j);
                    }
                }
            }
            match next {
                None => {
                    assert(windows@.take(windows@.len() as int) =~= windows@);
                    break;
                },
                Some(i) => {
                    let ghost padded = outcomes@;
                    let succeeded = toggle(windows[i].hwnd);
                    if succeeded {
                        self.record_applied(windows[i].hwnd);
                    }
                    outcomes.push(succeeded);
                    proof {
                        assert(windows@.take(i + 1).drop_last() =~= windows@.take(i as int));
                        assert(outcomes@.drop_last() =~= padded);
                        assert forall|j: int| 0 <= j <= i implies #[trigger] answer_at(
                            policy,
                            before,
                            windows@,
                            outcomes@,
                            toggle,
                            j,
                        ) by {
                            assert(outcomes@.take(j) =~= padded.take(j));
                            if j < i {
                                assert(answer_at(policy, before, windows@, padded, toggle, j));
                            }
                        }
                    }
                },
            }
        }
        outcomes
    }

    /// Puts the window `hwnd` on record, after the policy made it
    /// borderless.
    pub fn record_applied(&mut self, hwnd: isize)
        ensures
            final(self)@ == old(self)@.insert(hwnd),
    {
        self.applied.insert(hwnd);
    }

    /// Takes the window `hwnd` off the record, so that the policy may touch
    /// it again.
    pub fn forget(&mut self, hwnd: isize)
        ensures
            final(self)@ == old(self)@.remove(hwnd),
    {
        self.applied.remove(&hwnd);
    }
}

/// What the outcome of `windows[j]` says of the pass: a window toggled
/// with success was due when the pass came to it and `toggle` answered
/// true for it, and a window due but not toggled with success had `toggle`
/// answer false.
pub open spec fn answer_at<F: Fn(isize) -> bool>(
    policy: Seq<Seq<char>>,
    applied: Set<isize>,
    windows: Seq<WindowInfo>,
    outcomes: Seq<bool>,
    toggle: F,
    j: int,
) -> bool {
    let came_due = toggles(policy, applied, windows, outcomes, j);
    &&& outcomes[j] ==> came_due && call_ensures(toggle, (windows[j].hwnd,), true)
    &&& !outcomes[j] && came_due ==> call_ensures(toggle, (windows[j].hwnd,), false)
}

/// [`answer_at`] holds of every window that has an outcome.
pub open spec fn answers<F: Fn(isize) -> bool>(
    policy: Seq<Seq<char>>,
    applied: Set<isize>,
    windows: Seq<WindowInfo>,
    outcomes: Seq<bool>,
    toggle: F,
) -> bool {
    forall|j: int|
        0 <= j < outcomes.len() && j < windows.len() ==> #[trigger] answer_at(
            policy,
            applied,
            windows,
            outcomes,
            toggle,
            j,
        )
}

/// A pass that comes to windows that are not due leaves the record as it
/// is, whatever their outcomes say.
proof fn lemma_pass_skips(
    policy: Seq<Seq<char>>,
    applied: Set<isize>,
    windows: Seq<WindowInfo>,
    outcomes: Seq<bool>,
    from: int,
    to: int,
)
    requires
        0 <= from <= to <= windows.len(),
        to <= outcomes.len(),
        forall|j: int|
            from <= j < to ==> !due(
                policy,
                after_pass(policy, applied, windows.take(from), outcomes.take(from)),
                #[trigger] windows[j],
            ),
    ensures
        after_pass(policy, applied, windows.take(to), outcomes.take(to)) == after_pass(
            policy,
            applied,
            windows.take(from),
            outcomes.take(from),
        ),
    decreases to - from,
{
    if from < to {
        lemma_pass_skips(policy, applied, windows, outcomes, from, to - 1);
        assert(windows.take(to).drop_last() =~= windows.take(to - 1));
        assert(outcomes.take(to).drop_last() =~= outcomes.take(to - 1));
        assert(windows.take(to).last() == windows[to - 1]);
    }
}

/// A pass takes nothing off the record.
pub proof fn lemma_pass_keeps_record(
    policy: Seq<Seq<char>>,
    applied: Set<isize>,
    windows: Seq<WindowInfo>,
    outcomes: Seq<bool>,
)
    ensures
        applied.subset_of(after_pass(policy, applied, windows, outcomes)),
    decreases windows.len(),
{
    if windows.len() > 0 {
        lemma_pass_keeps_record(policy, applied, windows.drop_last(), outcomes.drop_last());
    }
}

/// A window that is on record when a pass begins is not toggled by it,
/// whatever the policy says and however the other toggles end. With
/// [`lemma_pass_keeps_record`] this holds of every later pass of the
/// session too.
pub proof fn lemma_recorded_never_toggled(
    policy: Seq<Seq<char>>,
    applied: Set<isize>,
    windows: Seq<WindowInfo>,
    outcomes: Seq<bool>,
    i: int,
)
    requires
        0 <= i < windows.len(),
        applied.contains(windows[i].hwnd),
    ensures
        !toggles(policy, applied, windows, outcomes, i),
{
    lemma_pass_keeps_record(policy, applied, windows.take(i), outcomes.take(i));
}

/// A window that a pass toggled with success is on record afterwards, and
/// so is never toggled by a later pass of the session.
pub proof fn lemma_toggled_is_recorded(
    policy: Seq<Seq<char>>,
    applied: Set<isize>,
    windows: Seq<WindowInfo>,
    outcomes: Seq<bool>,
    i: int,
)
    requires
        0 <= i < windows.len(),
        windows.len() == outcomes.len(),
        toggles(policy, applied, windows, outcomes, i),
        outcomes[i],
    ensures
        after_pass(policy, applied, windows, outcomes).contains(windows[i].hwnd),
    decreases windows.len(),
{
    let front = windows.drop_last();
    let front_outcomes = outcomes.drop_last();
    if i == windows.len() - 1 {
        assert(windows.take(i) =~= front);
        assert(outcomes.take(i) =~= front_outcomes);
    } else {
        assert(front.take(i) =~= windows.take(i));
        assert(front_outcomes.take(i) =~= outcomes.take(i));
        lemma_toggled_is_recorded(policy, applied, front, front_outcomes, i);
    }
}

} // verus!
