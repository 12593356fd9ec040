//! Raw input events, as the input listener hands them on.

use vstd::prelude::*;

verus! {

/// A button of the pointing device.
#[derive(Clone, Copy, Debug, PartialEq, Eq, Structural)]
pub enum Button {
    Left,
    Right,
    Middle,
    Unknown(u8),
}

/// A key of the keyboard. Only the commit key is told apart.
#[derive(Clone, Copy, Debug, PartialEq, Eq, Structural)]
pub enum Key {
    Return,
    Other,
}

/// One event observed by the input listener. The pointer's position is in the
/// coordinate space shared by all screens, in whole units.
#[derive(Clone, Copy, Debug, PartialEq, Eq, Structural)]
pub enum RawEvent {
    PointerMoved { x: i32, y: i32 },
    ButtonPressed { button: Button },
    ButtonReleased { button: Button },
    KeyPressed { key: Key },
    KeyReleased { key: Key },
}

} // verus!
