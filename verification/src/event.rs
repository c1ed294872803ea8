//! The raw input event as the event source reports it: an event kind, the
//! process id the event was aimed at, and the payload that comes with the
//! kind (a screen position for mouse events, a key code for key events).

use vstd::prelude::*;

verus! {

/// Classification of one intercepted input event.
#[derive(Clone, Copy, PartialEq, Eq, Structural, Debug)]
pub enum EventKind {
    /// Primary-button mouse down: the event that is enriched.
    PrimaryMouseDown,
    /// Key down: logged with the process name only.
    KeyDown,
    /// The interception facility disabled itself after a callback timeout.
    TapDisabledTimeout,
    /// The interception facility was disabled by user input.
    TapDisabledUserInput,
    /// Any other event type: ignored.
    Other,
}

/// A screen position counted in tenths of a point, the precision the
/// records report. The driver converts the platform's floating-point
/// coordinates to tenths before handing an event in.
#[derive(Clone, Copy, PartialEq, Eq, Structural, Debug)]
pub struct ScreenPosition {
    pub x_tenths: i64,
    pub y_tenths: i64,
}

/// One raw input event, immutable for the lifetime of its callback.
#[derive(Clone, Debug)]
pub struct RawInputEvent {
    pub kind: EventKind,
    /// The process id the event source reports as the event's target.
    pub reported_pid: i64,
    /// Present only for mouse events.
    pub position: Option<ScreenPosition>,
    /// Present only for key events.
    pub key_code: Option<i64>,
}

} // verus!
