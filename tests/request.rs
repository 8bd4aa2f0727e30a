use teloxide_core::request::{Event, Phase, Step};

#[test]
fn request_normal_path() {
    let (p, s) = Phase::Registering.next(Event::Enqueued);
    assert_eq!((p, s), (Phase::Pending, Step::Wait));
    let (p, s) = p.next(Event::Signaled);
    assert_eq!((p, s), (Phase::Sent, Step::Dispatch));
    let (p, s) = p.next(Event::Responded);
    assert_eq!((p, s), (Phase::Done, Step::Yield));
}

#[test]
fn request_degraded_when_worker_gone() {
    assert_eq!(Phase::Registering.next(Event::WorkerGone), (Phase::Sent, Step::Dispatch));
    // a receiver whose sender was dropped by a stopped worker also wakes up
    assert_eq!(Phase::Pending.next(Event::Signaled), (Phase::Sent, Step::Dispatch));
}

#[test]
fn request_done_is_absorbing() {
    for e in [Event::Enqueued, Event::WorkerGone, Event::Signaled, Event::Responded] {
        assert_eq!(Phase::Done.next(e), (Phase::Done, Step::Wait));
    }
}

#[test]
fn request_ignores_events_it_does_not_wait_on() {
    assert_eq!(Phase::Pending.next(Event::Responded), (Phase::Pending, Step::Wait));
    assert_eq!(Phase::Sent.next(Event::Signaled), (Phase::Sent, Step::Wait));
    assert_eq!(Phase::Registering.next(Event::Signaled), (Phase::Registering, Step::Wait));
}
