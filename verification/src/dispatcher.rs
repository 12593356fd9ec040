//! The session dispatcher: the state machine that consumes the stream of
//! input events, follows the pointer and asks for one capture per left click.

use crate::error::CoreError;
use crate::event::{Button, Key, RawEvent};
use crate::screen::{resolved_index, PointerState, ScreenDescriptor, ScreenDirectory};
use vstd::prelude::*;

verus! {

/// Whether a session is recording.
#[derive(Clone, Copy, Debug, PartialEq, Eq, Structural)]
pub enum SessionState {
    Idle,
    Recording,
}

/// What a capture worker is given: the screen to grab and the pointer's
/// position at the moment of the click.
#[derive(Clone, Copy, Debug, PartialEq, Eq, Structural)]
pub struct CaptureRequest {
    pub screen: ScreenDescriptor,
    pub pointer: PointerState,
}

/// What the dispatcher asks of its caller after an event.
#[derive(Clone, Copy, Debug, PartialEq, Eq, Structural)]
pub enum Dispatch {
    /// Nothing is to be done.
    Nothing,
    /// A capture worker is to be spawned with this request.
    Capture(CaptureRequest),
    /// The commit key was pressed. Nothing follows from it yet; the event is
    /// told apart so that the caller sees it.
    Commit,
}

/// What a dispatcher is: the screens it knows, its state and the pointer's
/// latest known position.
pub struct DispatcherView {
    pub screens: Seq<ScreenDescriptor>,
    pub state: SessionState,
    pub pointer: PointerState,
}

impl DispatcherView {
    /// The request for a click at the pointer's present position.
    pub open spec fn request(self) -> CaptureRequest {
        CaptureRequest {
            screen: self.screens[resolved_index(self.screens, self.pointer)],
            pointer: self.pointer,
        }
    }

    /// What the dispatcher asks for on `event`. Events count only while
    /// recording: a press of the left button asks for a capture at the
    /// pointer's position, a press of the commit key is passed on, and all
    /// else asks for nothing.
    pub open spec fn dispatch_of(self, event: RawEvent) -> Dispatch {
        if self.state != SessionState::Recording {
            Dispatch::Nothing
        } else {
            match event {
                RawEvent::ButtonPressed { button: Button::Left } => Dispatch::Capture(
                    self.request(),
                ),
                RawEvent::KeyPressed { key: Key::Return } => Dispatch::Commit,
                _ => Dispatch::Nothing,
            }
        }
    }

    /// The dispatcher after `event`: while recording, a move of the pointer
    /// sets the pointer's position; nothing else changes anything.
    pub open spec fn after(self, event: RawEvent) -> DispatcherView {
        if self.state != SessionState::Recording {
            self
        } else {
            match event {
                RawEvent::PointerMoved { x, y } => DispatcherView {
                    pointer: PointerState { x, y },
                    ..self
                },
                _ => self,
            }
        }
    }

    /// The dispatcher after all of `events`, in order.
    pub open spec fn after_all(self, events: Seq<RawEvent>) -> DispatcherView
        decreases events.len(),
    {
        if events.len() == 0 {
            self
        } else {
            self.after_all(events.drop_last()).after(events.last())
        }
    }

    /// The captures asked for on `events`, in the order of the clicks.
    pub open spec fn captures(self, events: Seq<RawEvent>) -> Seq<CaptureRequest>
        decreases events.len(),
    {
        if events.len() == 0 {
            Seq::empty()
        } else {
            let earlier = self.captures(events.drop_last());
            match self.after_all(events.drop_last()).dispatch_of(events.last()) {
                Dispatch::Capture(request) => earlier.push(request),
                _ => earlier,
            }
        }
    }

    /// The dispatcher once recording has started: the pointer is at the
    /// origin until it moves.
    pub open spec fn started(self) -> DispatcherView {
        if self.state == SessionState::Idle {
            DispatcherView {
                state: SessionState::Recording,
                pointer: PointerState { x: 0, y: 0 },
                ..self
            }
        } else {
            self
        }
    }

    /// The dispatcher once recording has stopped.
    pub open spec fn stopped(self) -> DispatcherView {
        DispatcherView { state: SessionState::Idle, ..self }
    }
}

/// Whether `event` is a press of the left button.
pub open spec fn is_left_press(event: RawEvent) -> bool {
    event == (RawEvent::ButtonPressed { button: Button::Left })
}

/// The control loop's state: consumes the event stream, keeps the pointer's
/// latest position and decides when a capture is due.
pub struct SessionDispatcher {
    directory: ScreenDirectory,
    state: SessionState,
    pointer: PointerState,
}

impl View for SessionDispatcher {
    type V = DispatcherView;

    closed spec fn view(&self) -> DispatcherView {
        DispatcherView { screens: self.directory@, state: self.state, pointer: self.pointer }
    }
}

impl SessionDispatcher {
    /// The dispatcher knows at least one screen.
    pub open spec fn wf(&self) -> bool {
        self@.screens.len() > 0
    }

    /// What a new dispatcher over `screens` is: idle, with the pointer at the
    /// origin.
    pub open spec fn new_view(screens: Seq<ScreenDescriptor>) -> DispatcherView {
        DispatcherView {
            screens,
            state: SessionState::Idle,
            pointer: PointerState { x: 0, y: 0 },
        }
    }

    /// An idle dispatcher over the screens of `directory`.
    pub fn new(directory: ScreenDirectory) -> (dispatcher: SessionDispatcher)
        requires
            directory.wf(),
        ensures
            dispatcher.wf(),
            dispatcher@ == Self::new_view(directory@),
    {
        SessionDispatcher {
            directory,
            state: SessionState::Idle,
            pointer: PointerState { x: 0, y: 0 },
        }
    }

    pub fn state(&self) -> (state: SessionState)
        ensures
            state == self@.state,
    {
        self.state
    }

    pub fn is_recording(&self) -> (recording: bool)
        ensures
            recording == (self@.state == SessionState::Recording),
    {
        match self.state {
            SessionState::Recording => true,
            SessionState::Idle => false,
        }
    }

    /// The pointer's latest known position.
    pub fn pointer(&self) -> (pointer: PointerState)
        ensures
            pointer == self@.pointer,
    {
        self.pointer
    }

    /// The start command: an idle dispatcher begins to record, with the
    /// pointer at the origin. The answer says whether recording began with
    /// this call.
    pub fn start(&mut self) -> (began: bool)
        requires
            old(self).wf(),
        ensures
            final(self).wf(),
            began == (old(self)@.state == SessionState::Idle),
            final(self)@ == old(self)@.started(),
    {
        match self.state {
            SessionState::Idle => {
                self.state = SessionState::Recording;
                self.pointer = PointerState { x: 0, y: 0 };
                true
            },
            SessionState::Recording => false,
        }
    }

    /// The stop command: the dispatcher consumes no further event. The answer
    /// says whether it was recording; if so, the caller now waits for the
    /// capture workers in flight and finalizes the log.
    pub fn stop(&mut self) -> (was_recording: bool)
        requires
            old(self).wf(),
        ensures
            final(self).wf(),
            was_recording == (old(self)@.state == SessionState::Recording),
            final(self)@ == old(self)@.stopped(),
    {
        let was_recording = self.is_recording();
        self.state = SessionState::Idle;
        was_recording
    }

    /// The input listener could not be had: the session does not start, and
    /// the failure is handed back for reporting.
    pub fn listener_failed(&mut self) -> (failure: CoreError)
        requires
            old(self).wf(),
        ensures
            final(self).wf(),
            failure == CoreError::ListenerUnavailable,
            final(self)@ == old(self)@.stopped(),
    {
        self.state = SessionState::Idle;
        CoreError::ListenerUnavailable
    }

    /// Consumes one event and says what is to be done about it.
    pub fn handle_event(&mut self, event: RawEvent) -> (dispatch: Dispatch)
        requires
            old(self).wf(),
        ensures
            final(self).wf(),
            dispatch == old(self)@.dispatch_of(event),
            final(self)@ == old(self)@.after(event),
    {
        if !self.is_recording() {
            return Dispatch::Nothing;
        }
        match event {
            RawEvent::PointerMoved { x, y } => {
                self.pointer = PointerState { x, y };
                Dispatch::Nothing
            },
            RawEvent::ButtonPressed { button: Button::Left } => {
                let screen = self.directory.resolve_screen(self.pointer);
                Dispatch::Capture(CaptureRequest { screen, pointer: self.pointer })
            },
            RawEvent::KeyPressed { key: Key::Return } => Dispatch::Commit,
            _ => Dispatch::Nothing,
        }
    }

    /// Consumes `events` in order and collects the captures that they ask
    /// for, in the order of the clicks.
    pub fn dispatch_all(&mut self, events: &[RawEvent]) -> (requests: Vec<CaptureRequest>)
        requires
            old(self).wf(),
        ensures
            final(self).wf(),
            requests@ == old(self)@.captures(events@),
            final(self)@ == old(self)@.after_all(events@),
            final(self)@.state == old(self)@.state,
            final(self)@.screens == old(self)@.screens,
    {
        let mut requests: Vec<CaptureRequest> = Vec::new();
        let mut i: usize = 0;
        while i < events.len()
            invariant
                self.wf(),
                i <= events@.len(),
                requests@ == old(self)@.captures(events@.take(i as int)),
                self@ == old(self)@.after_all(events@.take(i as int)),
            decreases events@.len() - i,
        {
            proof {
                assert(events@.take(i + 1).drop_last() =~= events@.take(i as int));
            }
            match self.handle_event(events[i]) {
                Dispatch::Capture(request) => {
                    requests.push(request);
                },
                _ => {},
            }
            i += 1;
        }
        proof {
            assert(events@.take(i as int) =~= events@);
            lemma_events_keep_state(old(self)@, events@);
        }
        requests
    }
}

/// Whatever events arrive, the state and the screens stay as they are: only
/// the commands change the state.
pub proof fn lemma_events_keep_state(view: DispatcherView, events: Seq<RawEvent>)
    ensures
        view.after_all(events).state == view.state,
        view.after_all(events).screens == view.screens,
    decreases events.len(),
{
    if events.len() > 0 {
        lemma_events_keep_state(view, events.drop_last());
    }
}

/// An idle dispatcher asks for no capture and does not follow the pointer.
pub proof fn lemma_idle_ignores_events(view: DispatcherView, events: Seq<RawEvent>)
    requires
        view.state == SessionState::Idle,
    ensures
        view.after_all(events) == view,
        view.captures(events) == Seq::<CaptureRequest>::empty(),
    decreases events.len(),
{
    if events.len() > 0 {
        lemma_idle_ignores_events(view, events.drop_last());
    }
}

/// While recording, every press of the left button asks for one capture, and
/// nothing else asks for any: there are as many captures as left presses.
pub proof fn lemma_one_capture_per_click(view: DispatcherView, events: Seq<RawEvent>)
    requires
        view.state == SessionState::Recording,
    ensures
        view.captures(events).len() == events.filter(|e: RawEvent| is_left_press(e)).len(),
    decreases events.len(),
{
    reveal(Seq::filter);
    if events.len() > 0 {
        lemma_one_capture_per_click(view, events.drop_last());
        lemma_events_keep_state(view, events.drop_last());
    }
}

/// Each capture is asked for at the position that the pointer last moved to
/// before the click, and for a screen of the directory.
pub proof fn lemma_capture_follows_pointer(view: DispatcherView, events: Seq<RawEvent>)
    requires
        view.state == SessionState::Recording,
        view.screens.len() > 0,
        events.len() > 0,
        is_left_press(events.last()),
    ensures
        view.captures(events).len() > 0,
        view.captures(events).last() == view.after_all(events.drop_last()).request(),
        view.captures(events).last().pointer == view.after_all(events.drop_last()).pointer,
{
    lemma_events_keep_state(view, events.drop_last());
}

} // verus!
