use vstd::prelude::*;

verus! {

/// Pointer event: `a`, `b` are the coordinates, `c > 0` while a button is held.
pub const EVENT_MOUSE: i64 = 1;

/// Keyboard event: `b` is the scancode, `c > 0` on press.
pub const EVENT_KEY: i64 = 2;

/// Asks a window's client to quit.
pub const EVENT_QUIT: i64 = 3;

/// Scancode of the key that asks for a process-list report.
pub const K_F1: u8 = 0x3B;

/// A fixed-size input record: a kind tag and up to three integer fields.
#[derive(Copy, Clone, Debug, PartialEq, Eq, Structural)]
pub struct Event {
    pub code: i64,
    pub a: i64,
    pub b: i64,
    pub c: i64,
}

impl Event {
    pub fn new(code: i64, a: i64, b: i64, c: i64) -> (r: Event)
        ensures
            r == (Event { code, a, b, c }),
    {
        Event { code, a, b, c }
    }

    /// The notification sent to a window whose close control was pressed.
    pub fn quit() -> (r: Event)
        ensures
            r == quit_event(),
    {
        Event { code: EVENT_QUIT, a: 0, b: 0, c: 0 }
    }
}

pub open spec fn quit_event() -> Event {
    Event { code: EVENT_QUIT, a: 0, b: 0, c: 0 }
}

} // verus!
