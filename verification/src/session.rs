//! A recording session: the dispatcher together with the registry of the
//! capture workers that it caused to be spawned.

use crate::dispatcher::{CaptureRequest, Dispatch, DispatcherView, SessionDispatcher};
use crate::error::CoreError;
use crate::event::RawEvent;
use crate::registry::WorkerRegistry;
use crate::screen::ScreenDirectory;
use vstd::prelude::*;

verus! {

/// What a session is: its dispatcher, and the handles of the workers in
/// flight in the order in which they were registered.
pub struct SessionView<H> {
    pub dispatcher: DispatcherView,
    pub in_flight: Seq<H>,
}

/// One recording run, from its start to its stop. `H` is whatever the caller
/// waits on for a worker to end.
pub struct Session<H> {
    dispatcher: SessionDispatcher,
    workers: WorkerRegistry<H>,
}

impl<H> View for Session<H> {
    type V = SessionView<H>;

    closed spec fn view(&self) -> SessionView<H> {
        SessionView { dispatcher: self.dispatcher@, in_flight: self.workers@ }
    }
}

impl<H> Session<H> {
    /// The session knows at least one screen.
    pub open spec fn wf(&self) -> bool {
        self@.dispatcher.screens.len() > 0
    }

    /// An idle session over the screens of `directory`, with no worker in
    /// flight.
    pub fn new(directory: ScreenDirectory) -> (session: Session<H>)
        requires
            directory.wf(),
        ensures
            session.wf(),
            session@.dispatcher == SessionDispatcher::new_view(directory@),
            session@.in_flight == Seq::<H>::empty(),
    {
        Session { dispatcher: SessionDispatcher::new(directory), workers: WorkerRegistry::new() }
    }

    pub fn is_recording(&self) -> (recording: bool)
        ensures
            recording == (self@.dispatcher.state == crate::dispatcher::SessionState::Recording),
    {
        self.dispatcher.is_recording()
    }

    /// The number of workers in flight.
    pub fn in_flight(&self) -> (n: usize)
        ensures
            n == self@.in_flight.len(),
    {
        self.workers.len()
    }

    /// The start command; see `SessionDispatcher::start`.
    pub fn start(&mut self) -> (began: bool)
        requires
            old(self).wf(),
        ensures
            final(self).wf(),
            began == (old(self)@.dispatcher.state == crate::dispatcher::SessionState::Idle),
            final(self)@ == (SessionView {
                dispatcher: old(self)@.dispatcher.started(),
                in_flight: old(self)@.in_flight,
            }),
    {
        self.dispatcher.start()
    }

    /// The input listener could not be had: the session does not start.
    pub fn listener_failed(&mut self) -> (failure: CoreError)
        requires
            old(self).wf(),
        ensures
            final(self).wf(),
            failure == CoreError::ListenerUnavailable,
            final(self)@ == (SessionView {
                dispatcher: old(self)@.dispatcher.stopped(),
                in_flight: old(self)@.in_flight,
            }),
    {
        self.dispatcher.listener_failed()
    }

    /// Consumes one event; see `SessionDispatcher::handle_event`.
    pub fn handle_event(&mut self, event: RawEvent) -> (dispatch: Dispatch)
        requires
            old(self).wf(),
        ensures
            final(self).wf(),
            dispatch == old(self)@.dispatcher.dispatch_of(event),
            final(self)@ == (SessionView {
                dispatcher: old(self)@.dispatcher.after(event),
                in_flight: old(self)@.in_flight,
            }),
    {
        self.dispatcher.handle_event(event)
    }

    /// Consumes `events` in order; see `SessionDispatcher::dispatch_all`.
    pub fn dispatch_all(&mut self, events: &[RawEvent]) -> (requests: Vec<CaptureRequest>)
        requires
            old(self).wf(),
        ensures
            final(self).wf(),
            requests@ == old(self)@.dispatcher.captures(events@),
            final(self)@ == (SessionView {
                dispatcher: old(self)@.dispatcher.after_all(events@),
                in_flight: old(self)@.in_flight,
            }),
            final(self)@.dispatcher.state == old(self)@.dispatcher.state,
    {
        self.dispatcher.dispatch_all(events)
    }

    /// Registers the handle of a worker that was spawned for a capture.
    pub fn register(&mut self, handle: H)
        requires
            old(self).wf(),
        ensures
            final(self).wf(),
            final(self)@ == (SessionView {
                dispatcher: old(self)@.dispatcher,
                in_flight: old(self)@.in_flight.push(handle),
            }),
    {
        self.workers.register(handle);
    }

    /// The stop command. The session consumes no further event, and every
    /// worker in flight is handed to the caller, in the order of registration:
    /// the caller waits for each of them to end, whether it has ended already
    /// or not, and only then finalizes the log. No worker is cancelled. A
    /// session that was not recording has nothing to hand out but what was
    /// registered all the same.
    pub fn stop(&mut self) -> (order: StopOrder<H>)
        requires
            old(self).wf(),
        ensures
            final(self).wf(),
            order.was_recording == (old(self)@.dispatcher.state
                == crate::dispatcher::SessionState::Recording),
            order.wait_for@ == old(self)@.in_flight,
            final(self)@ == (SessionView {
                dispatcher: old(self)@.dispatcher.stopped(),
                in_flight: Seq::<H>::empty(),
            }),
    {
        let was_recording = self.dispatcher.stop();
        let wait_for = self.workers.drain_all();
        StopOrder { was_recording, wait_for }
    }
}

/// What the caller is to do on a stop.
pub struct StopOrder<H> {
    /// Whether a session was running: if so, its event loop is to be ended
    /// and, once the workers have been waited for, its log finalized.
    pub was_recording: bool,
    /// The workers to wait for, each to its end.
    pub wait_for: Vec<H>,
}

} // verus!
