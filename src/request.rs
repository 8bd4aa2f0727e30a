//! Decisions of a throttled request: the four phases that one outbound call
//! goes through, and what each readiness event leads to.
//!
//! The driver (a future's `poll`) keeps the data of each phase: the pending
//! registration and the notify receiver while registering, the receiver
//! while pending, the underlying call once sent. It polls what the current
//! phase waits on, reports what became ready as an [`Event`], and carries
//! out the [`Step`] that [`Phase::next`] answers.
use vstd::prelude::*;

verus! {

/// Phase of a throttled request.
#[derive(Copy, Clone, Debug, PartialEq, Eq, Structural)]
pub enum Phase {
    /// The admission (chat key and notify handle) is being handed to the
    /// worker.
    Registering,
    /// The worker holds the admission; waiting for its signal.
    Pending,
    /// The underlying call is under way.
    Sent,
    /// The result was handed out; nothing is left to do.
    Done,
}

/// What became ready when the driver polled the current phase.
#[derive(Copy, Clone, Debug, PartialEq, Eq, Structural)]
pub enum Event {
    /// The admission reached the worker's channel.
    Enqueued,
    /// The channel is closed: the worker is gone.
    WorkerGone,
    /// The notify handle was closed: the request may go.
    Signaled,
    /// The underlying call completed.
    Responded,
}

/// What the driver does after a transition.
#[derive(Copy, Clone, Debug, PartialEq, Eq, Structural)]
pub enum Step {
    /// Poll the new phase (or, in `Done`, stay pending forever).
    Wait,
    /// Start the underlying call, then poll it.
    Dispatch,
    /// Hand the underlying call's result, unchanged, to the caller.
    Yield,
}

/// The transition of phase `p` on event `e`. An event that the phase does
/// not wait on changes nothing.
pub open spec fn transition(p: Phase, e: Event) -> (Phase, Step) {
    match (p, e) {
        (Phase::Registering, Event::Enqueued) => (Phase::Pending, Step::Wait),
        (Phase::Registering, Event::WorkerGone) => (Phase::Sent, Step::Dispatch),
        (Phase::Pending, Event::Signaled) => (Phase::Sent, Step::Dispatch),
        (Phase::Sent, Event::Responded) => (Phase::Done, Step::Yield),
        _ => (p, Step::Wait),
    }
}

/// The event by which a phase that waits on the worker learns that the
/// worker is gone: a failed registration, or a notify handle closed by the
/// worker's shutdown (which the request cannot tell from a signal).
pub open spec fn gone_event(p: Phase) -> Event {
    if p == Phase::Registering {
        Event::WorkerGone
    } else {
        Event::Signaled
    }
}

impl Phase {
    /// Next phase and step after event `e`.
    pub fn next(self, e: Event) -> (r: (Phase, Step))
        ensures
            r == transition(self, e),
    {
        match (self, e) {
            (Phase::Registering, Event::Enqueued) => (Phase::Pending, Step::Wait),
            (Phase::Registering, Event::WorkerGone) => (Phase::Sent, Step::Dispatch),
            (Phase::Pending, Event::Signaled) => (Phase::Sent, Step::Dispatch),
            (Phase::Sent, Event::Responded) => (Phase::Done, Step::Yield),
            _ => (self, Step::Wait),
        }
    }
}

/// Degraded mode: a request that waits on the worker is dispatched on the
/// very event by which it learns that the worker is gone, and the call's
/// completion then ends it. So without a worker a request takes one event
/// to be sent and one more to be done: it never deadlocks.
pub proof fn lemma_dispatch_without_worker(p: Phase)
    requires
        p == Phase::Registering || p == Phase::Pending,
    ensures
        transition(p, gone_event(p)) == (Phase::Sent, Step::Dispatch),
        transition(transition(p, gone_event(p)).0, Event::Responded) == (Phase::Done, Step::Yield),
{
}

/// A request is dispatched only after the worker's signal or after the
/// worker is found gone, and yields a result only once, from `Sent`.
pub proof fn lemma_dispatch_follows_admission(p: Phase, e: Event)
    ensures
        transition(p, e).1 == Step::Dispatch ==> (p == Phase::Pending && e == Event::Signaled)
            || (p == Phase::Registering && e == Event::WorkerGone),
        transition(p, e).1 == Step::Yield ==> p == Phase::Sent && transition(p, e).0 == Phase::Done,
{
}

} // verus!
