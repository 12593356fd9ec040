use xsteps::bridge::{BridgeOverflow, EventBridge, DEFAULT_CAPACITY};
use xsteps::event::{Button, Key, RawEvent};

fn moved(n: i32) -> RawEvent {
    RawEvent::PointerMoved { x: n, y: -n }
}

#[test]
fn default_capacity_is_32() {
    assert_eq!(DEFAULT_CAPACITY, 32);
    let bridge = EventBridge::with_default_capacity();
    assert_eq!(bridge.capacity(), 32);
    assert!(bridge.is_empty());
    assert_eq!(bridge.len(), 0);
    assert!(!bridge.is_full());
}

#[test]
fn bridge_without_room_cannot_be_made() {
    assert!(EventBridge::new(0).is_none());
    let bridge = EventBridge::new(1).unwrap();
    assert_eq!(bridge.capacity(), 1);
}

#[test]
fn events_leave_in_the_order_of_arrival() {
    let mut bridge = EventBridge::new(8).unwrap();
    let events = [
        moved(1),
        RawEvent::ButtonPressed { button: Button::Left },
        RawEvent::ButtonReleased { button: Button::Left },
        RawEvent::KeyPressed { key: Key::Return },
        RawEvent::KeyReleased { key: Key::Return },
        moved(2),
    ];
    for event in events {
        assert_eq!(bridge.offer(event), Ok(()));
    }
    assert_eq!(bridge.len(), 6);
    for event in events {
        assert_eq!(bridge.take(), Some(event));
    }
    assert_eq!(bridge.take(), None);
    assert!(bridge.is_empty());
}

#[test]
fn offers_and_takes_interleave() {
    let mut bridge = EventBridge::new(2).unwrap();
    assert_eq!(bridge.offer(moved(1)), Ok(()));
    assert_eq!(bridge.take(), Some(moved(1)));
    assert_eq!(bridge.offer(moved(2)), Ok(()));
    assert_eq!(bridge.offer(moved(3)), Ok(()));
    assert!(bridge.is_full());
    assert_eq!(bridge.take(), Some(moved(2)));
    assert_eq!(bridge.offer(moved(4)), Ok(()));
    assert_eq!(bridge.take(), Some(moved(3)));
    assert_eq!(bridge.take(), Some(moved(4)));
    assert_eq!(bridge.take(), None);
}

#[test]
fn full_bridge_drops_the_oldest() {
    let mut bridge = EventBridge::new(3).unwrap();
    for n in 1..=3 {
        assert_eq!(bridge.offer(moved(n)), Ok(()));
    }
    assert!(bridge.is_full());
    assert_eq!(bridge.offer(moved(4)), Err(BridgeOverflow { dropped: moved(1) }));
    assert_eq!(bridge.offer(moved(5)), Err(BridgeOverflow { dropped: moved(2) }));
    assert_eq!(bridge.len(), 3);
    assert_eq!(bridge.drain(), vec![moved(3), moved(4), moved(5)]);
    assert!(bridge.is_empty());
}

#[test]
fn flood_never_blocks_and_keeps_the_newest() {
    let mut bridge = EventBridge::with_default_capacity();
    let mut dropped = Vec::new();
    for n in 0..1000 {
        match bridge.offer(moved(n)) {
            Ok(()) => assert!(n < 32),
            Err(overflow) => dropped.push(overflow.dropped),
        }
        assert!(bridge.len() <= 32);
    }
    assert_eq!(dropped, (0..968).map(moved).collect::<Vec<_>>());
    assert_eq!(bridge.len(), 32);
    assert_eq!(bridge.drain(), (968..1000).map(moved).collect::<Vec<_>>());
}

#[test]
fn flood_of_a_bridge_of_one() {
    let mut bridge = EventBridge::new(1).unwrap();
    assert_eq!(bridge.offer(moved(1)), Ok(()));
    assert_eq!(bridge.offer(moved(2)), Err(BridgeOverflow { dropped: moved(1) }));
    assert_eq!(bridge.offer(moved(3)), Err(BridgeOverflow { dropped: moved(2) }));
    assert_eq!(bridge.take(), Some(moved(3)));
    assert_eq!(bridge.take(), None);
}

#[test]
fn drain_of_an_empty_bridge_is_empty() {
    let mut bridge = EventBridge::new(4).unwrap();
    assert!(bridge.drain().is_empty());
    assert_eq!(bridge.capacity(), 4);
}
