//! The refresh latch: at most one enumeration of the windows is under way at
//! any time, and a result that nobody waits for any more is dropped.

use vstd::prelude::*;

verus! {

/// Where a refresh stands.
#[derive(Debug, Clone, Copy, PartialEq, Eq, Structural)]
pub enum RefreshPhase {
    /// No enumeration is under way.
    Idle,
    /// An enumeration is under way and its result is awaited.
    Running,
    /// An enumeration is under way, but its result will be dropped.
    Abandoned,
}

/// What can happen to the latch.
#[derive(Debug, Clone, Copy, PartialEq, Eq, Structural)]
pub enum RefreshEvent {
    /// A refresh is asked for.
    Request,
    /// The consumer stops waiting for the result.
    Abandon,
    /// The enumeration under way has ended.
    Finished,
}

/// Number of enumerations under way in a phase.
pub open spec fn workers(phase: RefreshPhase) -> nat {
    if phase == RefreshPhase::Idle {
        0
    } else {
        1
    }
}

/// The event starts an enumeration: a request, while none is under way.
pub open spec fn starts_worker(phase: RefreshPhase, event: RefreshEvent) -> bool {
    phase == RefreshPhase::Idle && event == RefreshEvent::Request
}

/// The event ends an enumeration: one was under way and has finished.
pub open spec fn ends_worker(phase: RefreshPhase, event: RefreshEvent) -> bool {
    phase != RefreshPhase::Idle && event == RefreshEvent::Finished
}

/// The event delivers a result that is still awaited.
pub open spec fn delivers(phase: RefreshPhase, event: RefreshEvent) -> bool {
    phase == RefreshPhase::Running && event == RefreshEvent::Finished
}

/// The phase after an event. A request while an enumeration is under way
/// changes nothing.
pub open spec fn step(phase: RefreshPhase, event: RefreshEvent) -> RefreshPhase {
    match (phase, event) {
        (RefreshPhase::Idle, RefreshEvent::Request) => RefreshPhase::Running,
        (RefreshPhase::Running, RefreshEvent::Abandon) => RefreshPhase::Abandoned,
        (RefreshPhase::Running, RefreshEvent::Finished) => RefreshPhase::Idle,
        (RefreshPhase::Abandoned, RefreshEvent::Finished) => RefreshPhase::Idle,
        _ => phase,
    }
}

/// The phase after a sequence of events.
pub open spec fn run(phase: RefreshPhase, events: Seq<RefreshEvent>) -> RefreshPhase
    decreases events.len(),
{
    if events.len() == 0 {
        phase
    } else {
        step(run(phase, events.drop_last()), events.last())
    }
}

/// Number of enumerations that a sequence of events starts.
pub open spec fn started(phase: RefreshPhase, events: Seq<RefreshEvent>) -> nat
    decreases events.len(),
{
    if events.len() == 0 {
        0
    } else {
        started(phase, events.drop_last()) + if starts_worker(
            run(phase, events.drop_last()),
            events.last(),
        ) {
            1nat
        } else {
            0nat
        }
    }
}

/// Number of enumerations that a sequence of events ends.
pub open spec fn ended(phase: RefreshPhase, events: Seq<RefreshEvent>) -> nat
    decreases events.len(),
{
    if events.len() == 0 {
        0
    } else {
        ended(phase, events.drop_last()) + if ends_worker(
            run(phase, events.drop_last()),
            events.last(),
        ) {
            1nat
        } else {
            0nat
        }
    }
}

/// The latch.
#[derive(Debug, Clone, Copy, PartialEq, Eq, Structural)]
pub struct RefreshState {
    pub phase: RefreshPhase,
}

impl RefreshState {
    /// A latch with no enumeration under way.
    pub fn new() -> (state: RefreshState)
        ensures
            state.phase == RefreshPhase::Idle,
    {
        RefreshState { phase: RefreshPhase::Idle }
    }

    /// Asks for a refresh. Returns whether an enumeration is to be started
    /// now; while one is under way the request changes nothing.
    pub fn request(&mut self) -> (start: bool)
        ensures
            start == starts_worker(old(self).phase, RefreshEvent::Request),
            final(self).phase == step(old(self).phase, RefreshEvent::Request),
            !start ==> *final(self) == *old(self),
            workers(final(self).phase) == 1,
    {
        match self.phase {
            RefreshPhase::Idle => {
                self.phase = RefreshPhase::Running;
                true
            },
            _ => false,
        }
    }

    /// Stops waiting for the result of the enumeration under way, if any.
    pub fn abandon(&mut self)
        ensures
            final(self).phase == step(old(self).phase, RefreshEvent::Abandon),
            workers(final(self).phase) == workers(old(self).phase),
    {
        match self.phase {
            RefreshPhase::Running => {
                self.phase = RefreshPhase::Abandoned;
            },
            _ => {},
        }
    }

    /// Records that the enumeration under way has ended. Returns whether
    /// its result is still awaited.
    pub fn finish(&mut self) -> (deliver: bool)
        ensures
            deliver == delivers(old(self).phase, RefreshEvent::Finished),
            final(self).phase == step(old(self).phase, RefreshEvent::Finished),
            final(self).phase == RefreshPhase::Idle,
    {
        let deliver = match self.phase {
            RefreshPhase::Running => true,
            _ => false,
        };
        self.phase = RefreshPhase::Idle;
        deliver
    }

    /// Tells whether an enumeration is under way.
    pub fn in_progress(&self) -> (busy: bool)
        ensures
            busy == (workers(self.phase) == 1),
    {
        match self.phase {
            RefreshPhase::Idle => false,
            _ => true,
        }
    }

    /// Tells whether a result is awaited.
    pub fn awaiting_result(&self) -> (waiting: bool)
        ensures
            waiting == (self.phase == RefreshPhase::Running),
    {
        match self.phase {
            RefreshPhase::Running => true,
            _ => false,
        }
    }
}

/// Whatever is asked of the latch, and in whatever order, never more than
/// one enumeration is under way: the count goes up with every enumeration
/// started and down with every one ended, and stays at zero or one.
pub proof fn lemma_single_worker(phase: RefreshPhase, events: Seq<RefreshEvent>)
    ensures
        workers(run(phase, events)) <= 1,
        workers(run(phase, events)) == workers(phase) + started(phase, events) - ended(
            phase,
            events,
        ),
    decreases events.len(),
{
    if events.len() > 0 {
        lemma_single_worker(phase, events.drop_last());
    }
}

/// A request while an enumeration is under way starts nothing and changes
/// nothing.
pub proof fn lemma_request_in_flight(phase: RefreshPhase)
    requires
        workers(phase) == 1,
    ensures
        !starts_worker(phase, RefreshEvent::Request),
        step(phase, RefreshEvent::Request) == phase,
{
}

} // verus!
