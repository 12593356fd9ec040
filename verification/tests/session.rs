use xsteps::dispatcher::{CaptureRequest, Dispatch};
use xsteps::error::CoreError;
use xsteps::event::{Button, RawEvent};
use xsteps::screen::{PointerState, ScreenDescriptor, ScreenDirectory};
use xsteps::session::Session;

const SCREEN: ScreenDescriptor = ScreenDescriptor { x: 0, y: 0, width: 100, height: 100 };

fn session() -> Session<u32> {
    Session::new(ScreenDirectory::new(vec![SCREEN]).unwrap())
}

fn click_at(x: i32, y: i32) -> [RawEvent; 2] {
    [RawEvent::PointerMoved { x, y }, RawEvent::ButtonPressed { button: Button::Left }]
}

#[test]
fn new_session_is_idle_with_no_worker() {
    let s = session();
    assert!(!s.is_recording());
    assert_eq!(s.in_flight(), 0);
}

#[test]
fn stop_hands_out_every_worker_in_flight() {
    let mut s = session();
    assert!(s.start());
    let mut next_handle = 0;
    for n in 0..5 {
        for request in s.dispatch_all(&click_at(n, n)) {
            assert_eq!(request.pointer, PointerState { x: n, y: n });
            s.register(next_handle);
            next_handle += 1;
        }
    }
    assert_eq!(s.in_flight(), 5);
    let order = s.stop();
    assert!(order.was_recording);
    assert_eq!(order.wait_for, vec![0, 1, 2, 3, 4]);
    assert_eq!(s.in_flight(), 0);
    assert!(!s.is_recording());
}

#[test]
fn stop_without_a_session_orders_nothing() {
    let mut s = session();
    let order = s.stop();
    assert!(!order.was_recording);
    assert!(order.wait_for.is_empty());
}

#[test]
fn second_stop_finds_nothing_left() {
    let mut s = session();
    s.start();
    s.register(1);
    assert_eq!(s.stop().wait_for, vec![1]);
    let again = s.stop();
    assert!(!again.was_recording);
    assert!(again.wait_for.is_empty());
}

#[test]
fn session_dispatches_like_its_dispatcher() {
    let mut s = session();
    assert_eq!(s.handle_event(RawEvent::ButtonPressed { button: Button::Left }), Dispatch::Nothing);
    assert!(s.start());
    assert!(!s.start());
    assert!(s.is_recording());
    assert_eq!(s.handle_event(RawEvent::PointerMoved { x: 3, y: 4 }), Dispatch::Nothing);
    assert_eq!(
        s.handle_event(RawEvent::ButtonPressed { button: Button::Left }),
        Dispatch::Capture(CaptureRequest { screen: SCREEN, pointer: PointerState { x: 3, y: 4 } })
    );
}

#[test]
fn failed_listener_leaves_the_session_idle() {
    let mut s = session();
    s.start();
    assert_eq!(s.listener_failed(), CoreError::ListenerUnavailable);
    assert!(!s.is_recording());
    assert!(s.dispatch_all(&click_at(1, 1)).is_empty());
}
