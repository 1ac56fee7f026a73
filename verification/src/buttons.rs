//! GPIO button decisions.
//!
//! The GPIO driver watches a set of chip lines and reports level changes
//! with kernel timestamps.  Everything that decides — edge bookkeeping,
//! debouncing, and the line-offset-to-button table — lives here as pure
//! functions; the driver loop outside feeds them events and sends the
//! presses they produce.

use vstd::prelude::*;
use crate::reading::Button;
use crate::reading::Press;

verus! {

/// Nanoseconds per millisecond.
pub const NANOS_PER_MILLI: u64 = 1_000_000;

/// A press shorter than this many nanoseconds is treated as switch bounce.
pub const DEBOUNCE_NANOS: u64 = 10_000_000;

/// Which button a GPIO line offset belongs to; offsets outside the table
/// watch nothing.
pub open spec fn spec_button_from_offset(offset: int) -> Option<Button> {
    if offset == 16 {
        Some(Button::LampLeft)
    } else if offset == 12 {
        Some(Button::LampMid)
    } else if offset == 13 {
        Some(Button::LampRight)
    } else if offset == 27 {
        Some(Button::DeskTop)
    } else if offset == 22 {
        Some(Button::DeskMid)
    } else if offset == 18 {
        Some(Button::DeskBottom)
    } else if offset == 23 {
        Some(Button::DeskLeftMost)
    } else if offset == 24 {
        Some(Button::DeskLeft)
    } else if offset == 26 {
        Some(Button::DeskRight)
    } else if offset == 17 {
        Some(Button::DeskRightMost)
    } else {
        None
    }
}

/// Maps a GPIO line offset to the button wired to it.
pub fn button_from_offset(offset: usize) -> (r: Option<Button>)
    ensures
        r == spec_button_from_offset(offset as int),
{
    match offset {
        16 => Some(Button::LampLeft),
        12 => Some(Button::LampMid),
        13 => Some(Button::LampRight),
        27 => Some(Button::DeskTop),
        22 => Some(Button::DeskMid),
        18 => Some(Button::DeskBottom),
        23 => Some(Button::DeskLeftMost),
        24 => Some(Button::DeskLeft),
        26 => Some(Button::DeskRight),
        17 => Some(Button::DeskRightMost),
        _ => None,
    }
}

/// Builds the press reported for a held line: the button at `offset`, with
/// the held duration truncated to the 16 bits the wire format stores.
pub fn press_from(offset: usize, duration: u64) -> (r: Option<Press>)
    ensures
        spec_button_from_offset(offset as int) is None ==> r is None,
        spec_button_from_offset(offset as int) matches Some(b) ==> r == Some(
            Press { button: b, duration: duration as u16 },
        ),
{
    match button_from_offset(offset) {
        Some(button) => Some(Press { button, duration: #[verifier::truncate] (duration as u16) }),
        None => None,
    }
}

/// Edge bookkeeping of one GPIO line: whether it is high, and when it rose.
#[derive(Clone, Copy, PartialEq, Eq, Structural, Debug)]
pub struct LineState {
    pub high: bool,
    pub rising_ns: u64,
}

impl LineState {
    /// State of a line at startup: low, nothing pending.
    pub fn start() -> (r: LineState)
        ensures
            !r.high,
            r.rising_ns == 0,
    {
        LineState { high: false, rising_ns: 0 }
    }
}

/// Feeds one level sample into a line's edge bookkeeping.  A rising edge
/// records the timestamp; a falling edge reports how long the line was
/// held; a repeated level changes nothing.
pub fn edge_step(state: &mut LineState, value: u8, timestamp_ns: u64) -> (r: Option<u64>)
    requires
        old(state).high ==> old(state).rising_ns <= timestamp_ns,
    ensures
        value == 1 && !old(state).high ==> *final(state) == (LineState {
            high: true,
            rising_ns: timestamp_ns,
        }) && r is None,
        value == 0 && old(state).high ==> *final(state) == (LineState {
            high: false,
            rising_ns: old(state).rising_ns,
        }) && r == Some((timestamp_ns - old(state).rising_ns) as u64),
        !(value == 1 && !old(state).high) && !(value == 0 && old(state).high) ==> *final(state)
            == *old(state) && r is None,
{
    if value == 1 && !state.high {
        state.high = true;
        state.rising_ns = timestamp_ns;
        None
    } else if value == 0 && state.high {
        state.high = false;
        Some(timestamp_ns - state.rising_ns)
    } else {
        None
    }
}

/// Turns a completed hold into the press to report: bounces shorter than
/// the debounce window and offsets that watch no button produce nothing.
pub fn debounced_press(offset: usize, duration_ns: u64) -> (r: Option<Press>)
    ensures
        duration_ns <= DEBOUNCE_NANOS ==> r is None,
        spec_button_from_offset(offset as int) is None ==> r is None,
        spec_button_from_offset(offset as int) matches Some(b) ==> (duration_ns > DEBOUNCE_NANOS
            ==> r == Some(Press { button: b, duration: duration_ns as u16 })),
{
    if duration_ns > DEBOUNCE_NANOS {
        press_from(offset, duration_ns)
    } else {
        None
    }
}

} // verus!
