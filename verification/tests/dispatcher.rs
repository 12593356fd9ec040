use xsteps::dispatcher::{CaptureRequest, Dispatch, SessionDispatcher, SessionState};
use xsteps::error::CoreError;
use xsteps::event::{Button, Key, RawEvent};
use xsteps::screen::{PointerState, ScreenDescriptor, ScreenDirectory};

const SINGLE: ScreenDescriptor = ScreenDescriptor { x: 0, y: 0, width: 100, height: 100 };
const LEFT: ScreenDescriptor = ScreenDescriptor { x: 0, y: 0, width: 1920, height: 1080 };
const RIGHT: ScreenDescriptor = ScreenDescriptor { x: 1920, y: 0, width: 1280, height: 1024 };

fn single_screen() -> SessionDispatcher {
    SessionDispatcher::new(ScreenDirectory::new(vec![SINGLE]).unwrap())
}

fn two_screens() -> SessionDispatcher {
    SessionDispatcher::new(ScreenDirectory::new(vec![LEFT, RIGHT]).unwrap())
}

fn moved(x: i32, y: i32) -> RawEvent {
    RawEvent::PointerMoved { x, y }
}

fn pressed(button: Button) -> RawEvent {
    RawEvent::ButtonPressed { button }
}

fn request(screen: ScreenDescriptor, x: i32, y: i32) -> CaptureRequest {
    CaptureRequest { screen, pointer: PointerState { x, y } }
}

#[test]
fn scripted_clicks_spawn_one_capture_each() {
    let mut dispatcher = single_screen();
    assert!(dispatcher.start());
    let events =
        [moved(10, 10), pressed(Button::Left), moved(20, 20), pressed(Button::Left)];
    let requests = dispatcher.dispatch_all(&events);
    assert_eq!(requests, vec![request(SINGLE, 10, 10), request(SINGLE, 20, 20)]);
    assert_eq!(dispatcher.pointer(), PointerState { x: 20, y: 20 });
}

#[test]
fn scripted_clicks_one_event_at_a_time() {
    let mut dispatcher = single_screen();
    dispatcher.start();
    assert_eq!(dispatcher.handle_event(moved(10, 10)), Dispatch::Nothing);
    assert_eq!(
        dispatcher.handle_event(pressed(Button::Left)),
        Dispatch::Capture(request(SINGLE, 10, 10))
    );
    assert_eq!(dispatcher.handle_event(moved(20, 20)), Dispatch::Nothing);
    assert_eq!(
        dispatcher.handle_event(pressed(Button::Left)),
        Dispatch::Capture(request(SINGLE, 20, 20))
    );
}

#[test]
fn new_dispatcher_is_idle_at_the_origin() {
    let dispatcher = single_screen();
    assert_eq!(dispatcher.state(), SessionState::Idle);
    assert!(!dispatcher.is_recording());
    assert_eq!(dispatcher.pointer(), PointerState { x: 0, y: 0 });
}

#[test]
fn idle_dispatcher_ignores_events() {
    let mut dispatcher = single_screen();
    assert_eq!(dispatcher.handle_event(moved(5, 5)), Dispatch::Nothing);
    assert_eq!(dispatcher.handle_event(pressed(Button::Left)), Dispatch::Nothing);
    assert_eq!(dispatcher.pointer(), PointerState { x: 0, y: 0 });
    let requests = dispatcher.dispatch_all(&[moved(10, 10), pressed(Button::Left)]);
    assert!(requests.is_empty());
}

#[test]
fn start_and_stop_change_the_state() {
    let mut dispatcher = single_screen();
    assert!(!dispatcher.stop());
    assert!(dispatcher.start());
    assert!(dispatcher.is_recording());
    assert_eq!(dispatcher.state(), SessionState::Recording);
    assert!(!dispatcher.start());
    assert!(dispatcher.is_recording());
    assert!(dispatcher.stop());
    assert_eq!(dispatcher.state(), SessionState::Idle);
    assert!(!dispatcher.stop());
}

#[test]
fn start_puts_the_pointer_at_the_origin() {
    let mut dispatcher = single_screen();
    dispatcher.start();
    dispatcher.handle_event(moved(40, 50));
    assert!(!dispatcher.start());
    assert_eq!(dispatcher.pointer(), PointerState { x: 40, y: 50 });
    dispatcher.stop();
    assert_eq!(dispatcher.pointer(), PointerState { x: 40, y: 50 });
    assert!(dispatcher.start());
    assert_eq!(dispatcher.pointer(), PointerState { x: 0, y: 0 });
}

#[test]
fn click_before_any_move_is_at_the_origin() {
    let mut dispatcher = single_screen();
    dispatcher.start();
    assert_eq!(
        dispatcher.handle_event(pressed(Button::Left)),
        Dispatch::Capture(request(SINGLE, 0, 0))
    );
}

#[test]
fn only_the_left_button_asks_for_a_capture() {
    let mut dispatcher = single_screen();
    dispatcher.start();
    dispatcher.handle_event(moved(10, 10));
    for button in [Button::Right, Button::Middle, Button::Unknown(0), Button::Unknown(9)] {
        assert_eq!(dispatcher.handle_event(pressed(button)), Dispatch::Nothing);
    }
    assert_eq!(
        dispatcher.handle_event(RawEvent::ButtonReleased { button: Button::Left }),
        Dispatch::Nothing
    );
}

#[test]
fn commit_key_is_passed_on_and_changes_nothing() {
    let mut dispatcher = single_screen();
    dispatcher.start();
    dispatcher.handle_event(moved(7, 8));
    assert_eq!(
        dispatcher.handle_event(RawEvent::KeyPressed { key: Key::Return }),
        Dispatch::Commit
    );
    assert_eq!(dispatcher.state(), SessionState::Recording);
    assert_eq!(dispatcher.pointer(), PointerState { x: 7, y: 8 });
    assert_eq!(
        dispatcher.handle_event(RawEvent::KeyPressed { key: Key::Other }),
        Dispatch::Nothing
    );
    assert_eq!(
        dispatcher.handle_event(RawEvent::KeyReleased { key: Key::Return }),
        Dispatch::Nothing
    );
    let requests = dispatcher.dispatch_all(&[RawEvent::KeyPressed { key: Key::Return }]);
    assert!(requests.is_empty());
}

#[test]
fn click_resolves_the_screen_under_the_pointer() {
    let mut dispatcher = two_screens();
    dispatcher.start();
    let events = [
        moved(100, 100),
        pressed(Button::Left),
        moved(2500, 500),
        pressed(Button::Left),
        moved(1920, 5),
        pressed(Button::Left),
        moved(-40, 3000),
        pressed(Button::Left),
    ];
    assert_eq!(
        dispatcher.dispatch_all(&events),
        vec![
            request(LEFT, 100, 100),
            request(RIGHT, 2500, 500),
            request(LEFT, 1920, 5),
            request(LEFT, -40, 3000),
        ]
    );
}

#[test]
fn last_move_before_the_click_wins() {
    let mut dispatcher = single_screen();
    dispatcher.start();
    let events = [moved(1, 1), moved(2, 2), moved(3, 3), pressed(Button::Left), moved(4, 4)];
    assert_eq!(dispatcher.dispatch_all(&events), vec![request(SINGLE, 3, 3)]);
    assert_eq!(dispatcher.pointer(), PointerState { x: 4, y: 4 });
}

#[test]
fn listener_failure_aborts_the_start() {
    let mut dispatcher = single_screen();
    dispatcher.start();
    let failure = dispatcher.listener_failed();
    assert_eq!(failure, CoreError::ListenerUnavailable);
    assert!(!failure.is_recoverable());
    assert_eq!(dispatcher.state(), SessionState::Idle);
    assert_eq!(dispatcher.handle_event(pressed(Button::Left)), Dispatch::Nothing);
}

#[test]
fn stopped_dispatcher_consumes_nothing() {
    let mut dispatcher = single_screen();
    dispatcher.start();
    dispatcher.handle_event(moved(10, 10));
    dispatcher.stop();
    assert_eq!(dispatcher.handle_event(pressed(Button::Left)), Dispatch::Nothing);
    assert_eq!(dispatcher.handle_event(moved(50, 50)), Dispatch::Nothing);
    assert_eq!(dispatcher.pointer(), PointerState { x: 10, y: 10 });
}
